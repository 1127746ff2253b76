//! Service configuration: environment name, bind host and port, and the
//! store connection string. Absent or malformed values fall back to
//! defaults; `address` renders the `host:port` pair the listener binds to.

use vstd::prelude::*;

use crate::oid::{digit_str, hex_char};

verus! {

pub open spec fn is_dec_digit(c: char) -> bool {
    48 <= c as u32 <= 57
}

pub open spec fn all_dec_digits(s: Seq<char>) -> bool {
    forall|i: int| 0 <= i < s.len() ==> is_dec_digit(#[trigger] s[i])
}

/// The number denoted by a string of decimal digits.
pub open spec fn dec_val(s: Seq<char>) -> int
    decreases s.len(),
{
    if s.len() == 0 {
        0
    } else {
        dec_val(s.drop_last()) * 10 + (s.last() as u32 - 48)
    }
}

/// The value a 16-bit unsigned parse gives for a string: an optional leading
/// plus sign, then at least one decimal digit, denoting at most 65535; any
/// other string has no value.
pub open spec fn parse_u16(s: Seq<char>) -> Option<u16> {
    let digits = if s.len() > 0 && s[0] == '+' {
        s.subrange(1, s.len() as int)
    } else {
        s
    };
    if digits.len() > 0 && all_dec_digits(digits) && dec_val(digits) <= 65535 {
        Some(dec_val(digits) as u16)
    } else {
        None
    }
}

proof fn lemma_dec_val_nonneg(s: Seq<char>)
    requires
        all_dec_digits(s),
    ensures
        dec_val(s) >= 0,
    decreases s.len(),
{
    if s.len() > 0 {
        assert(all_dec_digits(s.drop_last())) by {
            assert forall|i: int| 0 <= i < s.drop_last().len() implies is_dec_digit(
                #[trigger] s.drop_last()[i],
            ) by {
                assert(s.drop_last()[i] == s[i]);
            }
        }
        lemma_dec_val_nonneg(s.drop_last());
    }
}

/// A digit string denotes at least as much as any of its prefixes.
proof fn lemma_dec_val_prefix(s: Seq<char>, i: int)
    requires
        all_dec_digits(s),
        0 <= i <= s.len(),
    ensures
        dec_val(s.take(i)) <= dec_val(s),
    decreases s.len() - i,
{
    assert(all_dec_digits(s.take(i))) by {
        assert forall|j: int| 0 <= j < s.take(i).len() implies is_dec_digit(
            #[trigger] s.take(i)[j],
        ) by {
            assert(s.take(i)[j] == s[j]);
        }
    }
    if i < s.len() {
        lemma_dec_val_prefix(s, i + 1);
        assert(s.take(i + 1).drop_last() =~= s.take(i));
        assert(s.take(i + 1).last() == s[i]);
        lemma_dec_val_nonneg(s.take(i));
    } else {
        assert(s.take(i) =~= s);
    }
}

/// Parses a decimal port number as a 16-bit unsigned parse would: an
/// optional leading plus sign, then only digits, at most 65535.
pub fn parse_port(s: &str) -> (r: Option<u16>)
    ensures
        r == parse_u16(s@),
{
    let n = s.unicode_len();
    if n == 0 {
        return None;
    }
    let first = s.get_char(0);
    let start: usize = if first == '+' {
        1
    } else {
        0
    };
    let ghost digits = if s@[0] == '+' {
        s@.subrange(1, s@.len() as int)
    } else {
        s@
    };
    if n == start {
        return None;
    }
    let mut acc: u32 = 0;
    let mut i: usize = start;
    while i < n
        invariant
            n == s@.len(),
            0 < n,
            start <= 1,
            start < n,
            start <= i <= n,
            start == 1 <==> s@[0] == '+',
            digits == (if s@[0] == '+' {
                s@.subrange(1, s@.len() as int)
            } else {
                s@
            }),
            digits.len() == n - start,
            forall|j: int| 0 <= j < digits.len() ==> digits[j] == s@[j + start],
            all_dec_digits(digits.take(i - start)),
            acc == dec_val(digits.take(i - start)),
            acc <= 65535,
        decreases n - i,
    {
        let c = s.get_char(i);
        let u = c as u32;
        if !(48 <= u && u <= 57) {
            proof {
                assert(digits[i - start] == s@[i as int]);
                assert(!all_dec_digits(digits));
            }
            return None;
        }
        acc = acc * 10 + (u - 48);
        proof {
            let k = i - start;
            assert(digits.take(k + 1).drop_last() =~= digits.take(k));
            assert(digits.take(k + 1).last() == digits[k]);
            assert(digits[k] == s@[i as int]);
            assert(all_dec_digits(digits.take(k + 1))) by {
                assert forall|j: int| 0 <= j < k + 1 implies is_dec_digit(
                    #[trigger] digits.take(k + 1)[j],
                ) by {
                    if j < k {
                        assert(digits.take(k + 1)[j] == digits.take(k)[j]);
                    }
                }
            }
            assert(acc == dec_val(digits.take(k + 1)));
        }
        if acc > 65535 {
            proof {
                if all_dec_digits(digits) {
                    lemma_dec_val_prefix(digits, i - start + 1);
                }
            }
            return None;
        }
        i += 1;
    }
    proof {
        assert(digits.take(n - start) =~= digits);
    }
    Some(acc as u16)
}

/// The digits of a number, most significant first.
pub open spec fn dec_str(n: nat) -> Seq<char>
    decreases n,
{
    if n < 10 {
        seq![hex_char(n as u8)]
    } else {
        dec_str(n / 10) + seq![hex_char((n % 10) as u8)]
    }
}

/// Renders a port number in decimal.
pub fn u16_to_string(n: u16) -> (r: String)
    ensures
        r@ == dec_str(n as nat),
    decreases n,
{
    if n < 10 {
        String::from_str(digit_str(n as u8))
    } else {
        let mut s = u16_to_string(n / 10);
        s.append(digit_str((n % 10) as u8));
        s
    }
}

/// What the service needs to start: the environment name, the address to
/// bind, and the store connection string.
#[derive(Debug)]
pub struct Config {
    pub app_env: String,
    pub host: String,
    pub port: u16,
    pub mongodb_uri: String,
}

impl Config {
    /// Builds the configuration from raw optional settings, applying the
    /// defaults: environment `development`, host `127.0.0.1`, port 3000
    /// (also when the given port does not parse). The connection string has
    /// no default.
    pub fn from_parts(
        app_env: Option<String>,
        host: Option<String>,
        port: Option<String>,
        mongodb_uri: String,
    ) -> (r: Config)
        ensures
            r.app_env@ == match app_env {
                Some(s) => s@,
                None => "development"@,
            },
            r.host@ == match host {
                Some(s) => s@,
                None => "127.0.0.1"@,
            },
            r.port == match port {
                Some(p) => match parse_u16(p@) {
                    Some(v) => v,
                    None => 3000u16,
                },
                None => 3000u16,
            },
            r.mongodb_uri == mongodb_uri,
    {
        let app_env = match app_env {
            Some(s) => s,
            None => String::from_str("development"),
        };
        let host = match host {
            Some(s) => s,
            None => String::from_str("127.0.0.1"),
        };
        let port = match port {
            Some(p) => match parse_port(p.as_str()) {
                Some(v) => v,
                None => 3000,
            },
            None => 3000,
        };
        Config { app_env, host, port, mongodb_uri }
    }

    /// The `host:port` string the listener binds to.
    pub fn address(&self) -> (r: String)
        ensures
            r@ == self.host@ + ":"@ + dec_str(self.port as nat),
    {
        let mut s = self.host.clone();
        s.append(":");
        let p = u16_to_string(self.port);
        s.append(p.as_str());
        s
    }
}

} // verus!
