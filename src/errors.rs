//! Errors of the trading bot as a whole.
use vstd::prelude::*;

verus! {

#[derive(Debug)]
pub enum BotError {
    Configuration(String),
    Strategy(String),
    Exchange(String),
    Order(String),
    Position(String),
    Grid(String),
    Trading(String),
    Other(String),
}

pub open spec fn bot_error_text(e: BotError) -> Seq<char> {
    match e {
        BotError::Configuration(m) => "configuration error: "@ + m@,
        BotError::Strategy(m) => "strategy error: "@ + m@,
        BotError::Exchange(m) => "exchange error: "@ + m@,
        BotError::Order(m) => "order error: "@ + m@,
        BotError::Position(m) => "position error: "@ + m@,
        BotError::Grid(m) => "grid error: "@ + m@,
        BotError::Trading(m) => "trading error: "@ + m@,
        BotError::Other(m) => m@,
    }
}

impl BotError {
    /// The error as a sentence.
    pub fn message(&self) -> (s: String)
        ensures
            s@ == bot_error_text(*self),
    {
        let (prefix, m) = match self {
            BotError::Configuration(m) => ("configuration error: ", m),
            BotError::Strategy(m) => ("strategy error: ", m),
            BotError::Exchange(m) => ("exchange error: ", m),
            BotError::Order(m) => ("order error: ", m),
            BotError::Position(m) => ("position error: ", m),
            BotError::Grid(m) => ("grid error: ", m),
            BotError::Trading(m) => ("trading error: ", m),
            BotError::Other(m) => ("", m),
        };
        proof {
            reveal_strlit("");
        }
        let mut s = String::from_str(prefix);
        s.append(m.as_str());
        s
    }
}

} // verus!
