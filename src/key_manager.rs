//! Choosing and normalising the private key of a network.
//!
//! The caller gathers the candidates (inline values and the contents of key
//! files, from the bot configuration and the environment) in order of
//! precedence; this module picks the first usable one.
use vstd::prelude::*;
use vstd::string::StrSliceExecFns;
use crate::config::trimmed;
use crate::errors::BotError;
use vstd::utf8::encode_utf8;

verus! {

/// Lower-case form of a text.
pub uninterp spec fn lower_of(s: Seq<char>) -> Seq<char>;

/// Relies on `str::to_lowercase`: the result depends on the characters alone.
#[verifier::external_body]
fn lowercase(s: &str) -> (r: String)
    ensures
        r@ == lower_of(s@),
{
    s.to_lowercase()
}

/// Length, in bytes, of a normalised key: `0x` and 64 hex digits.
pub const KEY_LENGTH: usize = 66;

/// One place a key may come from.
#[derive(Debug)]
pub enum KeyCandidate {
    /// A key given as a value.
    Inline(String),
    /// The contents of a key file.
    FileContents(String),
}

pub open spec fn starts_with_0x(s: Seq<char>) -> bool {
    s.len() >= 2 && s[0] == '0' && s[1] == 'x'
}

/// A key in lower case with a `0x` prefix.
pub open spec fn normalized_key(k: Seq<char>) -> Seq<char> {
    if starts_with_0x(k) { lower_of(k) } else { "0x"@ + lower_of(k) }
}

/// The key a key file yields: its trimmed, normalised contents when they are
/// not empty and take as many UTF-8 bytes as a key.
pub open spec fn key_from_file(contents: Seq<char>) -> Option<Seq<char>> {
    let t = trimmed(contents);
    if t.len() == 0 || encode_utf8(normalized_key(t)).len() as usize != KEY_LENGTH { None } else { Some(normalized_key(t)) }
}

pub open spec fn candidate_key(c: KeyCandidate) -> Option<Seq<char>> {
    match c {
        KeyCandidate::Inline(v) => Some(normalized_key(v@)),
        KeyCandidate::FileContents(v) => key_from_file(v@),
    }
}

/// The key of the first candidate that yields one.
pub open spec fn first_key(cs: Seq<KeyCandidate>) -> Option<Seq<char>>
    decreases cs.len(),
{
    if cs.len() == 0 {
        None
    } else {
        match candidate_key(cs[0]) {
            Some(k) => Some(k),
            None => first_key(cs.subrange(1, cs.len() as int)),
        }
    }
}

pub open spec fn network_name(testnet: bool) -> Seq<char> {
    if testnet { "testnet"@ } else { "mainnet"@ }
}

/// Whether a key was found for a network, and why not.
#[derive(Debug)]
pub struct KeyInfo {
    pub network: String,
    pub key_source: Option<String>,
    pub key_found: bool,
    pub warnings: Vec<String>,
    pub error: Option<String>,
    /// When the check was made, in nanoseconds since the epoch.
    pub checked_at: i64,
}

#[derive(Clone, Debug, Default)]
pub struct KeyManager;

fn network_string(testnet: bool) -> (s: String)
    ensures
        s@ == network_name(testnet),
{
    if testnet { String::from_str("testnet") } else { String::from_str("mainnet") }
}

impl KeyManager {
    /// Lower-cases `key` and gives it a `0x` prefix if it has none.
    pub fn normalize_key(&self, key: &str) -> (r: String)
        ensures
            r@ == normalized_key(key@),
    {
        let has_prefix = key.unicode_len() >= 2 && key.get_char(0) == '0' && key.get_char(1) == 'x';
        let lower = lowercase(key);
        if has_prefix {
            lower
        } else {
            proof {
                reveal_strlit("0x");
            }
            let mut r = String::from_str("0x");
            r.append(lower.as_str());
            r
        }
    }

    fn read_key_contents(&self, contents: &str) -> (r: Option<String>)
        ensures
            match key_from_file(contents@) {
                Some(k) => r matches Some(s) && s@ == k,
                None => r.is_none(),
            },
    {
        let t = crate::config::trim_str(contents);
        if t.unicode_len() == 0 {
            return None;
        }
        let normalized = self.normalize_key(t);
        if normalized.as_str().len() == KEY_LENGTH {
            Some(normalized)
        } else {
            None
        }
    }

    /// The key of the first candidate that yields one, or a configuration
    /// error naming the network.
    pub fn get_private_key(&self, testnet: bool, candidates: &Vec<KeyCandidate>) -> (r: Result<String, BotError>)
        ensures
            match first_key(candidates@) {
                Some(k) => r matches Ok(s) && s@ == k,
                None => r matches Err(BotError::Configuration(m))
                    && m@ == "no private key found for "@ + network_name(testnet),
            },
    {
        let mut i: usize = 0;
        proof {
            assert(candidates@.subrange(0, candidates@.len() as int) =~= candidates@);
        }
        while i < candidates.len()
            invariant
                i <= candidates@.len(),
                first_key(candidates@) == first_key(candidates@.subrange(i as int, candidates@.len() as int)),
            decreases candidates@.len() - i,
        {
            let ghost rest = candidates@.subrange(i as int, candidates@.len() as int);
            proof {
                assert(rest[0] == candidates@[i as int]);
                assert(rest.subrange(1, rest.len() as int) =~= candidates@.subrange(i + 1, candidates@.len() as int));
            }
            let found = match &candidates[i] {
                KeyCandidate::Inline(v) => Some(self.normalize_key(v.as_str())),
                KeyCandidate::FileContents(v) => self.read_key_contents(v.as_str()),
            };
            if let Some(k) = found {
                return Ok(k);
            }
            i = i + 1;
        }
        proof {
            assert(candidates@.subrange(i as int, candidates@.len() as int) =~= Seq::<KeyCandidate>::empty());
        }
        let mut m = String::from_str("no private key found for ");
        let n = network_string(testnet);
        m.append(n.as_str());
        Err(BotError::Configuration(m))
    }

    /// Reports whether a key can be resolved for the network.
    pub fn key_info(&self, testnet: bool, candidates: &Vec<KeyCandidate>, checked_at: i64) -> (info: KeyInfo)
        ensures
            info.network@ == network_name(testnet),
            info.key_found == first_key(candidates@).is_some(),
            info.key_found ==> (info.key_source matches Some(s) && s@ == "resolved"@) && info.error.is_none(),
            !info.key_found ==> info.key_source.is_none() && info.error is Some,
            info.warnings@.len() == 0,
            info.checked_at == checked_at,
    {
        let mut info = KeyInfo {
            network: network_string(testnet),
            key_source: None,
            key_found: false,
            warnings: Vec::new(),
            error: None,
            checked_at,
        };
        match self.get_private_key(testnet, candidates) {
            Ok(_) => {
                info.key_found = true;
                info.key_source = Some(String::from_str("resolved"));
            },
            Err(e) => {
                info.error = Some(e.message());
            },
        }
        info
    }
}

} // verus!
