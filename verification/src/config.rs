//! Application configuration.

use vstd::prelude::*;
use crate::utils::text::chars_of;

verus! {

/// Name of the environment variable that holds the upload directory.
pub const UPLOAD_DIR_VAR: &'static str = "UPLOAD_DIR";

/// Name of the environment variable that holds the shared secret.
pub const API_SECRET_VAR: &'static str = "API_SECRET";

/// Name of the environment variable that holds the port.
pub const PORT_VAR: &'static str = "PORT";

/// The port used when none is configured.
pub const DEFAULT_PORT: u16 = 4000;

/// Application configuration. Built once at startup and handed to every
/// request handler.
#[derive(Debug, Clone)]
pub struct AppConfig {
    /// Directory where uploaded files are stored.
    pub upload_dir: String,
    /// Shared secret used for API authentication.
    pub api_secret: String,
    /// TCP port the server listens on.
    pub port: u16,
}

/// The upload directory used when none is configured: `./uploads`.
pub open spec fn default_upload_dir() -> Seq<char> {
    seq!['.', '/', 'u', 'p', 'l', 'o', 'a', 'd', 's']
}

/// Whether `c` is one of the decimal digits `0` to `9`.
pub open spec fn is_decimal_digit(c: char) -> bool {
    '0' <= c && c <= '9'
}

/// The value of the decimal digit `c`.
pub open spec fn digit_value(c: char) -> nat {
    (c as nat - '0' as nat) as nat
}

/// The number that a sequence of decimal digits denotes.
pub open spec fn decimal_value(digits: Seq<char>) -> nat
    decreases digits.len(),
{
    let len = digits.len() as int;
    if len == 0 {
        0
    } else {
        10 * decimal_value(digits.subrange(0, len - 1)) + digit_value(digits[len - 1])
    }
}

/// The digits of a port's text: the text itself, without a leading `+`.
pub open spec fn port_digits(text: Seq<char>) -> Seq<char> {
    if text.len() > 0 && text[0] == '+' {
        text.subrange(1, text.len() as int)
    } else {
        text
    }
}

/// The port that `text` denotes: one or more decimal digits, with an
/// optional `+` in front, whose value fits 16 bits. Anything else, be it a
/// blank, a sign without digits or a number above 65535, denotes no port.
pub open spec fn parsed_port(text: Seq<char>) -> Option<u16> {
    let digits = port_digits(text);
    if digits.len() > 0 && (forall|i: int| 0 <= i < digits.len() ==> is_decimal_digit(digits[i]))
        && decimal_value(digits) <= u16::MAX {
        Some(decimal_value(digits) as u16)
    } else {
        None
    }
}

/// A number never gets smaller when digits are written behind it.
proof fn lemma_decimal_value_grows(digits: Seq<char>, shorter: int)
    requires
        0 <= shorter <= digits.len(),
        forall|i: int| 0 <= i < digits.len() ==> is_decimal_digit(digits[i]),
    ensures
        decimal_value(digits.subrange(0, shorter)) <= decimal_value(digits),
    decreases digits.len(),
{
    let len = digits.len() as int;
    if shorter == len {
        assert(digits.subrange(0, shorter) == digits);
    } else {
        let front = digits.subrange(0, len - 1);
        lemma_decimal_value_grows(front, shorter);
        assert(front.subrange(0, shorter) == digits.subrange(0, shorter));
    }
}

/// Reads a port number from its decimal text.
pub fn parse_port(text: &str) -> (port: Option<u16>)
    ensures
        port == parsed_port(text@),
{
    let chars = chars_of(text);
    let start: usize = if chars.len() > 0 && chars[0] == '+' {
        1
    } else {
        0
    };
    let ghost digits = port_digits(text@);
    assert(digits == chars@.subrange(start as int, chars.len() as int));
    if start == chars.len() {
        return None;
    }
    let mut value: u32 = 0;
    let mut i: usize = start;
    assert(digits.subrange(0, 0) == Seq::<char>::empty());
    while i < chars.len()
        invariant
            start <= i <= chars.len(),
            digits == port_digits(text@),
            digits == chars@.subrange(start as int, chars.len() as int),
            forall|k: int| 0 <= k < i - start ==> is_decimal_digit(digits[k]),
            value == decimal_value(digits.subrange(0, i - start)),
            value <= u16::MAX,
        decreases chars.len() - i,
    {
        let c = chars[i];
        if c < '0' || c > '9' {
            assert(!is_decimal_digit(digits[i - start]));
            return None;
        }
        let ghost front = digits.subrange(0, i - start + 1);
        assert(front.subrange(0, i - start) == digits.subrange(0, i - start));
        assert(front[i - start] == c);
        let digit: u32 = c as u32 - '0' as u32;
        let next: u32 = value * 10 + digit;
        assert(next == decimal_value(front));
        if next > 65535 {
            proof {
                if forall|k: int| 0 <= k < digits.len() ==> is_decimal_digit(digits[k]) {
                    lemma_decimal_value_grows(digits, i - start + 1);
                }
            }
            return None;
        }
        value = next;
        i = i + 1;
    }
    assert(digits.subrange(0, i - start) == digits);
    Some(value as u16)
}

impl AppConfig {
    /// Builds the configuration from the values of the environment
    /// variables `UPLOAD_DIR`, `API_SECRET` and `PORT`, each `None` if the
    /// variable is not set.
    ///
    /// The upload directory defaults to `./uploads` and the port to 4000.
    /// The secret has no default, and a port that is set must be a number:
    /// a caller that cannot promise both has nothing to start a server
    /// with.
    pub fn from_env(
        upload_dir: Option<String>,
        api_secret: Option<String>,
        port: Option<String>,
    ) -> (config: AppConfig)
        requires
            api_secret is Some,
            port matches Some(text) ==> parsed_port(text@) is Some,
        ensures
            config.upload_dir@ == match upload_dir {
                Some(directory) => directory@,
                None => default_upload_dir(),
            },
            config.api_secret@ == api_secret.unwrap()@,
            config.port == match port {
                Some(text) => parsed_port(text@).unwrap(),
                None => DEFAULT_PORT,
            },
    {
        proof {
            reveal_strlit("./uploads");
        }
        assert("./uploads"@ == default_upload_dir());
        let upload_dir = match upload_dir {
            Some(directory) => directory,
            None => "./uploads".to_owned(),
        };
        let api_secret = api_secret.unwrap();
        let port = match port {
            Some(text) => parse_port(text.as_str()).unwrap(),
            None => DEFAULT_PORT,
        };
        AppConfig { upload_dir, api_secret, port }
    }
}

} // verus!
