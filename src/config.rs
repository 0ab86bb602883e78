//! Server settings. Reading them from the environment and checking the
//! filesystem happen outside; this module applies defaults, parses numbers,
//! and validates.

use vstd::prelude::*;
use vstd::utf8::encode_utf8;
use crate::protocol::opt_text;

verus! {

broadcast use vstd::string::group_string_axioms;

/// The text of a decimal digit.
pub open spec fn digit_text(d: nat) -> Seq<char> {
    if d == 0 {
        "0"@
    } else if d == 1 {
        "1"@
    } else if d == 2 {
        "2"@
    } else if d == 3 {
        "3"@
    } else if d == 4 {
        "4"@
    } else if d == 5 {
        "5"@
    } else if d == 6 {
        "6"@
    } else if d == 7 {
        "7"@
    } else if d == 8 {
        "8"@
    } else {
        "9"@
    }
}

/// The decimal text of a number, without leading zeros.
pub open spec fn decimal_of(n: nat) -> Seq<char>
    decreases n,
{
    if n < 10 {
        digit_text(n)
    } else {
        decimal_of(n / 10) + digit_text(n % 10)
    }
}

fn digit_str(d: u64) -> (r: &'static str)
    requires
        d < 10,
    ensures
        r@ == digit_text(d as nat),
{
    if d == 0 {
        "0"
    } else if d == 1 {
        "1"
    } else if d == 2 {
        "2"
    } else if d == 3 {
        "3"
    } else if d == 4 {
        "4"
    } else if d == 5 {
        "5"
    } else if d == 6 {
        "6"
    } else if d == 7 {
        "7"
    } else if d == 8 {
        "8"
    } else {
        "9"
    }
}

/// The decimal text of `n`.
pub fn decimal(n: u64) -> (r: String)
    ensures
        r@ == decimal_of(n as nat),
    decreases n,
{
    if n < 10 {
        digit_str(n).to_string()
    } else {
        let mut s = decimal(n / 10);
        s.append(digit_str(n % 10));
        s
    }
}

pub open spec fn is_digit(c: char) -> bool {
    '0' <= c && c <= '9'
}

/// The value of a string of decimal digits.
pub open spec fn digits_value(s: Seq<char>) -> nat
    decreases s.len(),
{
    if s.len() == 0 {
        0
    } else {
        digits_value(s.drop_last()) * 10 + (s.last() as nat - '0' as nat) as nat
    }
}

/// The digits of an unsigned number's text: after an optional `+`.
pub open spec fn unsigned_digits(s: Seq<char>) -> Seq<char> {
    if s.len() > 0 && s[0] == '+' {
        s.drop_first()
    } else {
        s
    }
}

/// What parsing `s` as a `u64` gives: an optional `+` and at least one
/// decimal digit, whose value fits.
pub open spec fn parse_u64_of(s: Seq<char>) -> Option<u64> {
    let d = unsigned_digits(s);
    if d.len() > 0 && (forall|i: int| 0 <= i < d.len() ==> is_digit(d[i])) && digits_value(d)
        <= u64::MAX {
        Some(digits_value(d) as u64)
    } else {
        None
    }
}

proof fn lemma_digits_grow(s: Seq<char>, i: int)
    requires
        0 <= i <= s.len(),
        forall|j: int| 0 <= j < s.len() ==> is_digit(s[j]),
    ensures
        digits_value(s.subrange(0, i)) <= digits_value(s),
    decreases s.len() - i,
{
    if i < s.len() {
        lemma_digits_grow(s, i + 1);
        assert(s.subrange(0, i + 1).drop_last() == s.subrange(0, i));
    } else {
        assert(s.subrange(0, i) == s);
    }
}

/// Parses an unsigned decimal number.
pub fn parse_u64(s: &str) -> (r: Option<u64>)
    ensures
        r == parse_u64_of(s@),
{
    let n = s.unicode_len();
    let start: usize = if n > 0 && s.get_char(0) == '+' {
        1
    } else {
        0
    };
    let ghost d = unsigned_digits(s@);
    assert(d == s@.subrange(start as int, n as int));
    if start == n {
        return None;
    }
    let mut acc: u64 = 0;
    let mut i: usize = start;
    while i < n
        invariant
            start <= i <= n,
            n == s@.len(),
            d == s@.subrange(start as int, n as int),
            d == unsigned_digits(s@),
            forall|j: int| 0 <= j < i - start ==> is_digit(d[j]),
            acc as nat == digits_value(d.subrange(0, i - start)),
        decreases n - i,
    {
        let c = s.get_char(i);
        assert(d[i - start] == c);
        if !('0' <= c && c <= '9') {
            assert(!is_digit(d[i - start]));
            assert(!(forall|j: int| 0 <= j < d.len() ==> is_digit(d[j])));
            return None;
        }
        let v: u64 = (c as u32 - '0' as u32) as u64;
        assert(d.subrange(0, i + 1 - start).drop_last() == d.subrange(0, i - start));
        assert(d.subrange(0, i + 1 - start).last() == c);
        assert(v as nat == (c as nat - '0' as nat) as nat);
        assert(digits_value(d.subrange(0, i + 1 - start)) == acc as nat * 10 + v as nat);
        if acc > (u64::MAX - v) / 10 {
            proof {
                assert(acc * 10 + v > u64::MAX) by (nonlinear_arith)
                    requires
                        acc > (u64::MAX - v) / 10,
                        v <= 9,
                ;
                let k: int = (i + 1 - start) as int;
                assert(digits_value(d.subrange(0, k)) > u64::MAX);
                if forall|j: int| 0 <= j < d.len() ==> is_digit(d[j]) {
                    lemma_digits_grow(d, k);
                    assert(digits_value(d) > u64::MAX);
                }
            }
            return None;
        }
        acc = acc * 10 + v;
        i = i + 1;
    }
    assert(d.subrange(0, n - start) == d);
    Some(acc)
}

/// Server settings.
#[derive(Debug, Clone)]
pub struct Config {
    pub host: String,
    pub port: u16,
    pub domain: String,
    /// Key of the identity-token HMAC.
    pub server_secret: String,
    pub cert_path: String,
    pub key_path: String,
    /// Idle seconds after which a session expires.
    pub session_timeout: u64,
    /// Seconds between heartbeats.
    pub heartbeat_interval: u64,
}

/// A setting's text, or its default.
fn or_default(v: Option<String>, default: &str) -> (r: String)
    ensures
        r@ == match v {
            Some(s) => s@,
            None => default@,
        },
{
    match v {
        Some(s) => s,
        None => default.to_string(),
    }
}

/// A numeric setting: its parsed value, or the default when it is absent or
/// does not parse.
pub open spec fn number_or(v: Option<Seq<char>>, default: u64) -> u64 {
    match v {
        Some(s) => match parse_u64_of(s) {
            Some(n) => n,
            None => default,
        },
        None => default,
    }
}

/// The port setting: as `number_or`, also falling back when it exceeds
/// the port range.
pub open spec fn port_or(v: Option<Seq<char>>, default: u16) -> u16 {
    match v {
        Some(s) => match parse_u64_of(s) {
            Some(n) => if n <= u16::MAX {
                n as u16
            } else {
                default
            },
            None => default,
        },
        None => default,
    }
}

pub open spec fn text_or(v: Option<Seq<char>>, default: Seq<char>) -> Seq<char> {
    match v {
        Some(s) => s,
        None => default,
    }
}

fn number_setting(v: Option<String>, default: u64) -> (r: u64)
    ensures
        r == number_or(opt_text(v), default),
{
    match v {
        Some(s) => match parse_u64(s.as_str()) {
            Some(n) => n,
            None => default,
        },
        None => default,
    }
}

impl Config {
    /// Settings from their raw texts (`None` where unset), with defaults:
    /// host `0.0.0.0`, port 4433, domain `localhost`, an insecure
    /// development secret, certificate and key under `../certs/`, a session
    /// timeout of 3600 seconds and a heartbeat every 5 seconds.
    pub fn from_settings(
        host: Option<String>,
        port: Option<String>,
        domain: Option<String>,
        server_secret: Option<String>,
        cert_path: Option<String>,
        key_path: Option<String>,
        session_timeout: Option<String>,
        heartbeat_interval: Option<String>,
    ) -> (r: Config)
        ensures
            r.host@ == text_or(opt_text(host), "0.0.0.0"@),
            r.port == port_or(opt_text(port), 4433),
            r.domain@ == text_or(opt_text(domain), "localhost"@),
            r.server_secret@ == text_or(
                opt_text(server_secret),
                "insecure-dev-secret-change-me-in-production"@,
            ),
            r.cert_path@ == text_or(opt_text(cert_path), "../certs/cert.pem"@),
            r.key_path@ == text_or(opt_text(key_path), "../certs/key.pem"@),
            r.session_timeout == number_or(opt_text(session_timeout), 3600),
            r.heartbeat_interval == number_or(opt_text(heartbeat_interval), 5),
    {
        let port_value: u16 = match port {
            Some(s) => match parse_u64(s.as_str()) {
                Some(n) => if n <= 65535 {
                    n as u16
                } else {
                    4433
                },
                None => 4433,
            },
            None => 4433,
        };
        Config {
            host: or_default(host, "0.0.0.0"),
            port: port_value,
            domain: or_default(domain, "localhost"),
            server_secret: or_default(server_secret, "insecure-dev-secret-change-me-in-production"),
            cert_path: or_default(cert_path, "../certs/cert.pem"),
            key_path: or_default(key_path, "../certs/key.pem"),
            session_timeout: number_setting(session_timeout, 3600),
            heartbeat_interval: number_setting(heartbeat_interval, 5),
        }
    }

    /// The address to bind: host, a colon, and the port.
    pub fn bind_addr(&self) -> (r: String)
        ensures
            r@ == self.host@ + ":"@ + decimal_of(self.port as nat),
    {
        let mut r = self.host.clone();
        r.append(":");
        let p = decimal(self.port as u64);
        r.append(p.as_str());
        r
    }

    /// Checks the settings, given whether the certificate and key files
    /// exist: a missing certificate, then a missing key, then a secret of
    /// fewer than 16 bytes is reported.
    pub fn validate(&self, cert_exists: bool, key_exists: bool) -> (r: Result<(), String>)
        ensures
            match r {
                Ok(()) => cert_exists && key_exists && encode_utf8(self.server_secret@).len() >= 16,
                Err(m) => if !cert_exists {
                    m@ == "Certificate not found: "@ + self.cert_path@
                } else if !key_exists {
                    m@ == "Private key not found: "@ + self.key_path@
                } else {
                    encode_utf8(self.server_secret@).len() < 16 && m@
                        == "Server secret must be at least 16 characters"@
                },
            },
    {
        if !cert_exists {
            let mut m = "Certificate not found: ".to_string();
            m.append(self.cert_path.as_str());
            return Err(m);
        }
        if !key_exists {
            let mut m = "Private key not found: ".to_string();
            m.append(self.key_path.as_str());
            return Err(m);
        }
        if self.server_secret.as_str().as_bytes().len() < 16 {
            assert(encode_utf8(self.server_secret@).len() < 16);
            return Err("Server secret must be at least 16 characters".to_string());
        }
        Ok(())
    }
}

} // verus!
