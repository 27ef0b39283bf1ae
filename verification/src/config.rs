//! Server configuration: the symmetric signing key and the externally
//! visible hostname, loaded once at startup and passed by value to every
//! component.
//!
//! The signing key is 32 random bytes, generated exactly once and persisted
//! hex-encoded in the store's configuration table; later startups read it
//! back deterministically.

use vstd::prelude::*;

verus! {

/// Configuration passed by value to every component.
#[derive(Debug, Clone)]
pub struct ServerConfig {
    /// The symmetric token signing key; always exactly 32 bytes.
    pub jwt_secret_key: Vec<u8>,
    /// The externally visible hostname, used to build absolute URLs.
    pub server_host: String,
}

/// A configuration is well formed when its signing key has full length.
pub open spec fn config_wf(c: &ServerConfig) -> bool {
    c.jwt_secret_key@.len() == 32
}

/// Why loading the configuration can fail.
#[derive(Clone, Copy, PartialEq, Eq, Structural, Debug)]
pub enum ConfigError {
    /// The persisted signing key is not 32 hex-encoded bytes.
    CorruptKey,
}

impl ConfigError {
    /// A human-readable reason.
    pub fn reason(&self) -> (r: &'static str)
        ensures
            r@ == "Corrupt jwt_secret_key in database."@,
    {
        "Corrupt jwt_secret_key in database."
    }
}

/// The hex digit (lowercase) for one value below 16.
pub open spec fn hex_digit(d: u8) -> char {
    if d == 0 { '0' } else if d == 1 { '1' } else if d == 2 { '2' } else if d == 3 { '3' }
    else if d == 4 { '4' } else if d == 5 { '5' } else if d == 6 { '6' } else if d == 7 { '7' }
    else if d == 8 { '8' } else if d == 9 { '9' } else if d == 10 { 'a' } else if d == 11 { 'b' }
    else if d == 12 { 'c' } else if d == 13 { 'd' } else if d == 14 { 'e' } else { 'f' }
}

/// Lowercase hex encoding: two digits per byte, high nibble first.
pub open spec fn hex_of(bytes: Seq<u8>) -> Seq<char> {
    Seq::new(bytes.len() * 2, |i: int| {
        if i % 2 == 0 {
            hex_digit(bytes[i / 2] >> 4)
        } else {
            hex_digit(bytes[i / 2] & 15)
        }
    })
}

/// Relies on hex::encode: encodes bytes as lowercase hex, two digits per
/// byte, high nibble first.
#[verifier::external_body]
fn to_hex(bytes: &Vec<u8>) -> (r: String)
    ensures
        r@ == hex_of(bytes@),
{
    hex::encode(bytes)
}

/// Relies on hex::decode: inverts hex::encode, and a decoded value always
/// holds one byte per digit pair.
#[verifier::external_body]
fn from_hex(s: &str) -> (r: Option<Vec<u8>>)
    ensures
        r is None ==> forall|b: Seq<u8>| s@ != hex_of(b),
        r matches Option::Some(v) ==> s@.len() == 2 * v@.len()
            && (forall|b: Seq<u8>| s@ == hex_of(b) ==> v@ == b),
{
    hex::decode(s).ok()
}

/// Relies on rand::rngs::OsRng and rand::Rng::gen: 32 bytes drawn from the
/// operating system's randomness; nothing is promised of their values.
#[verifier::external_body]
fn fresh_secret_key() -> (r: Vec<u8>)
    ensures
        r@.len() == 32,
{
    let key: [u8; 32] = rand::Rng::gen(&mut rand::rngs::OsRng);
    key.to_vec()
}

impl ServerConfig {
    /// Load the configuration from the persisted key value, generating a
    /// fresh signing key when none is stored yet.
    ///
    /// Returns the configuration together with the hex-encoded key value to
    /// persist: the stored one when it was present and sound, a fresh one
    /// otherwise. A stored value that is not 32 hex-encoded bytes is a
    /// corrupt-key error — an unrecoverable bootstrap failure.
    pub fn load_config(stored: Option<String>, server_host: String) -> (r: Result<(ServerConfig, String), ConfigError>)
        ensures
            r matches Ok((c, persist)) ==> config_wf(&c) && c.server_host@ == server_host@,
            stored is None ==> (r matches Ok((c, persist))
                && persist@ == hex_of(c.jwt_secret_key@)),
            stored matches Some(s) ==> {
                &&& (forall|b: Seq<u8>| b.len() == 32 && s@ == hex_of(b)
                    ==> (r matches Ok((c, persist)) && c.jwt_secret_key@ == b && persist@ == s@))
                &&& (r matches Ok((c, persist)) ==> persist@ == s@)
            },
    {
        match stored {
            None => {
                let key = fresh_secret_key();
                let persist = to_hex(&key);
                Ok((ServerConfig { jwt_secret_key: key, server_host }, persist))
            },
            Some(s) => {
                match from_hex(&s) {
                    Some(key) => {
                        if key.len() == 32 {
                            Ok((ServerConfig { jwt_secret_key: key, server_host }, s))
                        } else {
                            Err(ConfigError::CorruptKey)
                        }
                    },
                    None => Err(ConfigError::CorruptKey),
                }
            },
        }
    }
}

} // verus!
