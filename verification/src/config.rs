//! What a proxy is started with: where it listens and whom it admits.

use vstd::prelude::*;
use vstd::string::*;
use vstd::utf8::*;
use crate::auth::{basic_verdict, check_basic, Decision};
use crate::request::header_bytes;
use crate::credentials::{entries_map, AuthScheme, Credential, CredentialStore};

verus! {

/// The configuration of a proxy. It is made once and read from then on.
#[derive(Debug)]
pub struct Config {
    host: String,
    port: u16,
    credentials: CredentialStore,
}

/// A configuration as plain values.
pub struct ConfigView {
    pub host: Seq<char>,
    pub port: u16,
    pub scheme: AuthScheme,
    pub credentials: Map<Seq<char>, Seq<char>>,
}

/// Why credentials make no configuration.
#[derive(Clone, Copy, Debug, PartialEq, Eq, Structural)]
pub enum ConfigError {
    /// Neither tokens nor users are given.
    NoCredentials,
    /// Both tokens and users are given; one scheme is active at a time.
    TwoSchemes,
}

impl View for Config {
    type V = ConfigView;

    closed spec fn view(&self) -> ConfigView {
        ConfigView {
            host: self.host@,
            port: self.port,
            scheme: self.credentials.scheme(),
            credentials: self.credentials@,
        }
    }
}

/// The entries of a list of credentials as plain values.
pub open spec fn entries_view(entries: Vec<Credential>) -> Seq<(Seq<char>, Seq<char>)> {
    Seq::new(entries.len() as nat, |i: int| entries[i]@)
}

/// The port that decimal digits name, read from the left.
pub open spec fn decimal(digits: Seq<u8>) -> nat
    decreases digits.len(),
{
    if digits.len() == 0 {
        0
    } else {
        decimal(digits.drop_last()) * 10 + (digits.last() - 0x30) as nat
    }
}

/// Every byte is a decimal digit.
pub open spec fn all_digits(bytes: Seq<u8>) -> bool {
    forall|i: int| 0 <= i < bytes.len() ==> 0x30 <= #[trigger] bytes[i] <= 0x39
}

/// `text` without the `+` that it may start with.
pub open spec fn unsigned(text: Seq<u8>) -> Seq<u8> {
    if text.len() > 0 && text[0] == 0x2b {
        text.drop_first()
    } else {
        text
    }
}

/// The port that `text` names: decimal digits, after a `+` or not, that
/// name a number up to 65535. Anything else names no port.
pub open spec fn parsed_port(text: Seq<u8>) -> Option<u16> {
    let digits = unsigned(text);
    if digits.len() > 0 && all_digits(digits) && decimal(digits) <= 0xffff {
        Some(decimal(digits) as u16)
    } else {
        None
    }
}

/// The port to listen on: the one that `wanted` names, if it names one, in
/// place of the configured one.
pub open spec fn chosen_port(configured: u16, wanted: Option<Seq<u8>>) -> u16 {
    match wanted {
        Some(text) => match parsed_port(text) {
            Some(port) => port,
            None => configured,
        },
        None => configured,
    }
}

proof fn lemma_decimal_grows(digits: Seq<u8>, k: int)
    requires
        all_digits(digits),
        0 <= k <= digits.len(),
    ensures
        decimal(digits.subrange(0, k)) <= decimal(digits),
    decreases digits.len() - k,
{
    if k == digits.len() {
        assert(digits.subrange(0, k) =~= digits);
    } else {
        lemma_decimal_grows(digits, k + 1);
        assert(digits.subrange(0, k + 1).drop_last() =~= digits.subrange(0, k));
        assert(0x30 <= digits[k]);
    }
}

/// Reads `text` as a port.
pub fn parse_port(text: &str) -> (r: Option<u16>)
    ensures
        r == parsed_port(encode_utf8(text@)),
{
    let bytes = text.as_bytes();
    let start: usize = if bytes.len() > 0 && bytes[0] == 0x2b {
        1
    } else {
        0
    };
    let ghost digits = unsigned(bytes@);
    proof {
        if start == 1 {
            assert(digits =~= bytes@.subrange(1, bytes@.len() as int));
        } else {
            assert(digits =~= bytes@.subrange(0, bytes@.len() as int));
        }
    }
    if start == bytes.len() {
        return None;
    }
    let mut value: u32 = 0;
    let mut i: usize = start;
    while i < bytes.len()
        invariant
            start <= i <= bytes.len(),
            bytes@ == encode_utf8(text@),
            digits == unsigned(bytes@),
            digits == bytes@.subrange(start as int, bytes@.len() as int),
            all_digits(digits.subrange(0, i - start)),
            value == decimal(digits.subrange(0, i - start)),
            value <= 0xffff,
        decreases bytes.len() - i,
    {
        let b = bytes[i];
        if b < 0x30 || b > 0x39 {
            proof {
                assert(digits[i - start] == b);
            }
            return None;
        }
        proof {
            assert(digits.subrange(0, i + 1 - start).drop_last() =~= digits.subrange(
                0,
                i - start,
            ));
            assert(digits.subrange(0, i + 1 - start).last() == b);
            assert(all_digits(digits.subrange(0, i + 1 - start))) by {
                assert forall|j: int| 0 <= j < i + 1 - start implies 0x30
                    <= #[trigger] digits.subrange(0, i + 1 - start)[j] <= 0x39 by {
                    if j < i - start {
                        assert(digits.subrange(0, i - start)[j] == digits[j]);
                    }
                }
            }
        }
        value = value * 10 + (b - 0x30) as u32;
        if value > 0xffff {
            proof {
                if all_digits(digits) {
                    lemma_decimal_grows(digits, i + 1 - start);
                }
            }
            return None;
        }
        i += 1;
    }
    proof {
        assert(digits.subrange(0, i - start) =~= digits);
    }
    Some(value as u16)
}

impl Config {
    /// A proxy at `host` and `port` that admits by `credentials`.
    pub fn new(host: String, port: u16, credentials: CredentialStore) -> (config: Config)
        ensures
            config@ == (ConfigView {
                host: host@,
                port,
                scheme: credentials.scheme(),
                credentials: credentials@,
            }),
    {
        Config { host, port, credentials }
    }

    /// A proxy that admits by the tokens or by the users, whichever is
    /// given. Just one of them has to be.
    pub fn from_parts(
        host: String,
        port: u16,
        tokens: Option<Vec<Credential>>,
        users: Option<Vec<Credential>>,
    ) -> (r: Result<Config, ConfigError>)
        ensures
            match (tokens, users) {
                (Some(entries), None) => r matches Ok(config) && config@ == (ConfigView {
                    host: host@,
                    port,
                    scheme: AuthScheme::Token,
                    credentials: entries_map(entries_view(entries)),
                }),
                (None, Some(entries)) => r matches Ok(config) && config@ == (ConfigView {
                    host: host@,
                    port,
                    scheme: AuthScheme::Basic,
                    credentials: entries_map(entries_view(entries)),
                }),
                (None, None) => r == Err::<Config, ConfigError>(ConfigError::NoCredentials),
                (Some(_), Some(_)) => r == Err::<Config, ConfigError>(ConfigError::TwoSchemes),
            },
    {
        match (tokens, users) {
            (Some(entries), None) => {
                let credentials = CredentialStore::from_entries(AuthScheme::Token, &entries);
                Ok(Config { host, port, credentials })
            },
            (None, Some(entries)) => {
                let credentials = CredentialStore::from_entries(AuthScheme::Basic, &entries);
                Ok(Config { host, port, credentials })
            },
            (None, None) => Err(ConfigError::NoCredentials),
            (Some(_), Some(_)) => Err(ConfigError::TwoSchemes),
        }
    }

    /// The host to listen on.
    pub fn host(&self) -> (host: &str)
        ensures
            host@ == self@.host,
    {
        self.host.as_str()
    }

    /// The configured port.
    pub fn port(&self) -> (port: u16)
        ensures
            port == self@.port,
    {
        self.port
    }

    /// The credentials that admit.
    pub fn credentials(&self) -> (credentials: &CredentialStore)
        ensures
            credentials@ == self@.credentials,
            credentials.scheme() == self@.scheme,
    {
        &self.credentials
    }

    /// The port to listen on, where `wanted` may name another than the
    /// configured one.
    pub fn effective_port(&self, wanted: Option<&str>) -> (port: u16)
        ensures
            port == chosen_port(
                self@.port,
                match wanted {
                    Some(text) => Some(encode_utf8(text@)),
                    None => None,
                },
            ),
    {
        match wanted {
            Some(text) => match parse_port(text) {
                Some(port) => port,
                None => self.port,
            },
            None => self.port,
        }
    }

    /// Whether `header`, the value of the proxy authorization header, names
    /// a configured user and that user's password.
    pub fn is_valid_basic(&self, header: Option<&[u8]>) -> (ok: bool)
        ensures
            ok == (basic_verdict(self@.credentials, header_bytes(header)) == Decision::Allow),
    {
        match check_basic(&self.credentials, header) {
            Decision::Allow => true,
            Decision::Deny(_, _) => false,
        }
    }
}

} // verus!
