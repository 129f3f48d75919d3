//! Runtime settings, resolved once at startup from plain key/value inputs
//! and shared read-only afterwards.

use crate::json::char_digit;
use crate::json::digits_value;
use crate::json::is_digit_char;
use vstd::prelude::*;

verus! {

/// Immutable runtime settings: bind host, bind port and the store address.
#[derive(Clone, Debug, PartialEq)]
pub struct Settings {
    pub host: String,
    pub port: u16,
    pub db_url: String,
}

/// Why startup configuration was rejected.
#[derive(Debug, PartialEq)]
pub enum ConfigError {
    /// The supplied port is not a decimal unsigned 16-bit integer.
    InvalidPort(String),
    /// The store address is required and was not supplied.
    MissingDbUrl,
}

pub open spec fn all_digits(s: Seq<char>) -> bool {
    forall|i: int| 0 <= i < s.len() ==> is_digit_char(#[trigger] s[i])
}

/// A port is acceptable exactly when it is a nonempty digit string whose
/// value fits in 16 bits.
pub open spec fn valid_port_str(s: Seq<char>) -> bool {
    s.len() > 0 && all_digits(s) && digits_value(s) <= 65535
}

fn digit_of_char(c: char) -> (r: Option<u8>)
    ensures
        is_digit_char(c) ==> r == Some((char_digit(c) as u8)),
        !is_digit_char(c) ==> r is None,
{
    if c == '0' {
        Some(0)
    } else if c == '1' {
        Some(1)
    } else if c == '2' {
        Some(2)
    } else if c == '3' {
        Some(3)
    } else if c == '4' {
        Some(4)
    } else if c == '5' {
        Some(5)
    } else if c == '6' {
        Some(6)
    } else if c == '7' {
        Some(7)
    } else if c == '8' {
        Some(8)
    } else if c == '9' {
        Some(9)
    } else {
        None
    }
}

proof fn lemma_digits_value_prefix_le(s: Seq<char>, j: int)
    requires
        0 <= j <= s.len(),
    ensures
        digits_value(s.take(j)) <= digits_value(s),
    decreases s.len() - j,
{
    if j == s.len() {
        assert(s.take(j) =~= s);
    } else {
        lemma_digits_value_prefix_le(s, j + 1);
        assert(s.take(j + 1).drop_last() =~= s.take(j));
        let v = digits_value(s.take(j));
        assert(digits_value(s.take(j + 1)) == v * 10 + char_digit(s.take(j + 1).last()));
        assert(v * 10 >= v);
    }
}

/// Parses a decimal port number; succeeds exactly on nonempty digit strings
/// whose value fits in 16 bits, and yields that value.
pub fn parse_u16(s: &str) -> (r: Option<u16>)
    ensures
        valid_port_str(s@) ==> r == Some((digits_value(s@) as u16)),
        !valid_port_str(s@) ==> r is None,
{
    let n = s.unicode_len();
    if n == 0 {
        return None;
    }
    let mut acc: u32 = 0;
    let mut i: usize = 0;
    proof {
        assert(s@.take(0) =~= Seq::<char>::empty());
    }
    while i < n
        invariant
            0 < n == s@.len(),
            i <= n,
            all_digits(s@.take(i as int)),
            acc == digits_value(s@.take(i as int)),
            acc <= 65535,
        decreases n - i,
    {
        let c = s.get_char(i);
        match digit_of_char(c) {
            None => {
                proof {
                    assert(!is_digit_char(s@[i as int]));
                }
                return None;
            },
            Some(d) => {
                let next: u32 = acc * 10 + (d as u32);
                proof {
                    assert(s@.take(i as int + 1).drop_last() =~= s@.take(i as int));
                    assert(s@.take(i as int + 1).last() == s@[i as int]);
                    assert(digits_value(s@.take(i as int + 1)) == next);
                }
                if next > 65535 {
                    proof {
                        lemma_digits_value_prefix_le(s@, i as int + 1);
                        assert(digits_value(s@) > 65535);
                    }
                    return None;
                }
                acc = next;
                proof {
                    assert forall|k: int| 0 <= k < i as int + 1 implies is_digit_char(
                        #[trigger] s@.take(i as int + 1)[k],
                    ) by {
                        if k < i as int {
                            assert(s@.take(i as int + 1)[k] == s@.take(i as int)[k]);
                        } else {
                            assert(s@.take(i as int + 1)[k] == s@[i as int]);
                        }
                    }
                }
                i += 1;
            },
        }
    }
    proof {
        assert(s@.take(n as int) =~= s@);
    }
    Some(acc as u16)
}

impl Settings {
    /// Resolves settings from optional raw values as read from the
    /// environment: a missing host falls back to `0.0.0.0`, a missing port
    /// to 7878, a malformed port is rejected with its raw text, and the
    /// store address is required.
    pub fn resolve(host: Option<String>, port: Option<String>, db_url: Option<String>) -> (r:
        Result<Settings, ConfigError>)
        ensures
            db_url is None ==> r == Err::<Settings, ConfigError>(ConfigError::MissingDbUrl),
            db_url is Some && port is Some && !valid_port_str(port.unwrap()@) ==> (r matches Err(
                ConfigError::InvalidPort(bad),
            ) && bad@ == port.unwrap()@),
            db_url is Some && (port is None || valid_port_str(port.unwrap()@)) ==> (r matches Ok(s)
                && s.host@ == (if host is Some {
                host.unwrap()@
            } else {
                "0.0.0.0"@
            }) && s.port == (if port is None {
                7878int
            } else {
                digits_value(port.unwrap()@) as int
            }) && s.db_url@ == db_url.unwrap()@),
    {
        let u = match db_url {
            None => {
                return Err(ConfigError::MissingDbUrl);
            },
            Some(u) => u,
        };
        let p: u16 = match port {
            None => 7878,
            Some(ps) => match parse_u16(ps.as_str()) {
                None => {
                    return Err(ConfigError::InvalidPort(ps));
                },
                Some(v) => v,
            },
        };
        let h = match host {
            None => "0.0.0.0".to_owned(),
            Some(h) => h,
        };
        Ok(Settings { host: h, port: p, db_url: u })
    }
}

} // verus!
