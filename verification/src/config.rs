//! Server and database settings, read from the environment with defaults.

use vstd::prelude::*;
use vstd::string::*;

use crate::text::chars_of;

verus! {

/// Whether `c` is an ASCII decimal digit.
pub open spec fn is_digit(c: char) -> bool {
    48 <= (c as u32) <= 57
}

/// The number that the decimal digits `s` spell.
pub open spec fn digits_value(s: Seq<char>) -> nat
    decreases s.len(),
{
    if s.len() == 0 {
        0
    } else {
        digits_value(s.drop_last()) * 10 + ((s.last() as u32) - 48) as nat
    }
}

/// `s` without a leading `+`.
pub open spec fn unsigned_part(s: Seq<char>) -> Seq<char> {
    if s.len() > 0 && s[0] == '+' {
        s.drop_first()
    } else {
        s
    }
}

/// Whether every character of `d` is a decimal digit.
pub open spec fn all_digits(d: Seq<char>) -> bool {
    forall|i: int| 0 <= i < d.len() ==> is_digit(#[trigger] d[i])
}

/// The `u16` that `s` spells, as `str::parse::<u16>` reads it: an optional
/// `+`, then one or more decimal digits, for a value of at most 65535.
pub open spec fn parse_u16(s: Seq<char>) -> Option<u16> {
    let d = unsigned_part(s);
    if d.len() > 0 && all_digits(d) && digits_value(d) <= u16::MAX {
        Some(digits_value(d) as u16)
    } else {
        None
    }
}

/// Appending digits never lowers the value.
proof fn lemma_digits_value_grows(s: Seq<char>, i: int)
    requires
        0 <= i <= s.len(),
        forall|k: int| 0 <= k < s.len() ==> is_digit(#[trigger] s[k]),
    ensures
        digits_value(s.take(i)) <= digits_value(s),
    decreases s.len() - i,
{
    if i < s.len() {
        lemma_digits_value_grows(s, i + 1);
        assert(s.take(i + 1).drop_last() =~= s.take(i));
        assert(is_digit(s.take(i + 1).last()));
    } else {
        assert(s.take(i) =~= s);
    }
}

/// Parses a port number the way `str::parse::<u16>` does.
pub fn parse_port(s: &str) -> (port: Option<u16>)
    ensures
        port == parse_u16(s@),
{
    let chars = chars_of(s);
    let start: usize = if chars.len() > 0 && chars[0] == '+' {
        1
    } else {
        0
    };
    let ghost d = if s@.len() > 0 && s@[0] == '+' {
        s@.drop_first()
    } else {
        s@
    };
    assert(d =~= chars@.skip(start as int));
    if start >= chars.len() {
        return None;
    }
    let mut value: u32 = 0;
    let mut i = start;
    while i < chars.len()
        invariant
            chars@ == s@,
            d == chars@.skip(start as int),
            d == (if s@.len() > 0 && s@[0] == '+' {
                s@.drop_first()
            } else {
                s@
            }),
            start <= i <= chars@.len(),
            forall|k: int| 0 <= k < i - start ==> is_digit(#[trigger] d[k]),
            value == digits_value(d.take(i - start)),
            value <= u16::MAX,
        decreases chars@.len() - i,
    {
        let c = chars[i];
        #[verifier::truncate]
        let u = c as u32;
        if !(48 <= u && u <= 57) {
            assert(d[i - start] == c);
            assert(!is_digit(d[i - start]));
            return None;
        }
        let digit = u - 48;
        let next = value * 10 + digit;
        proof {
            assert(d.take(i - start + 1).drop_last() =~= d.take(i - start));
            assert(d.take(i - start + 1).last() == c);
        }
        assert(next == digits_value(d.take(i - start + 1)));
        if next > 65535 {
            proof {
                if forall|k: int| 0 <= k < d.len() ==> is_digit(#[trigger] d[k]) {
                    lemma_digits_value_grows(d, i - start + 1);
                    assert(digits_value(d) > u16::MAX);
                }
            }
            return None;
        }
        value = next;
        i = i + 1;
    }
    proof {
        assert(d.take(i - start) =~= d);
    }
    Some(value as u16)
}

/// Server configuration.
#[derive(Clone, Debug)]
pub struct Config {
    pub host: String,
    pub port: u16,
    pub site_url: String,
    pub discord_webhook_url: Option<String>,
}

/// The value of a setting, or `default` when it is not set.
pub fn or_default(value: Option<String>, default: &str) -> (s: String)
    ensures
        s@ == match value {
            Some(v) => v@,
            None => default@,
        },
{
    match value {
        Some(v) => v,
        None => default.to_owned(),
    }
}

impl Config {
    /// The configuration for the settings `HOST`, `PORT`, `SITE_URL` and
    /// `DISCORD_WEBHOOK_URL` (each `None` when unset): host `0.0.0.0`, port
    /// 3000 (also when `PORT` is not a port number) and site URL
    /// `http://localhost:3000` by default.
    pub fn from_values(
        host: Option<String>,
        port: Option<String>,
        site_url: Option<String>,
        discord_webhook_url: Option<String>,
    ) -> (c: Config)
        ensures
            c.host@ == match host {
                Some(h) => h@,
                None => "0.0.0.0"@,
            },
            c.port == match port {
                Some(p) => match parse_u16(p@) {
                    Some(n) => n,
                    None => 3000u16,
                },
                None => 3000u16,
            },
            c.site_url@ == match site_url {
                Some(u) => u@,
                None => "http://localhost:3000"@,
            },
            c.discord_webhook_url == discord_webhook_url,
    {
        let port = match port {
            Some(text) => match parse_port(text.as_str()) {
                Some(p) => p,
                None => 3000,
            },
            None => 3000,
        };
        Config {
            host: or_default(host, "0.0.0.0"),
            port,
            site_url: or_default(site_url, "http://localhost:3000"),
            discord_webhook_url,
        }
    }
}

/// Database connection settings.
#[derive(Clone, Debug)]
pub struct DbConfig {
    pub url: String,
    pub username: String,
    pub password: String,
    pub namespace: String,
    pub database: String,
}

impl DbConfig {
    /// The settings for `SURREAL_URL`, `SURREAL_USER`, `SURREAL_PASS`,
    /// `SURREAL_NS` and `SURREAL_DB` (each `None` when unset), with the
    /// defaults `ws://127.0.0.1:8000`, `root`, `root`, `portfolio` and `main`.
    pub fn from_values(
        url: Option<String>,
        username: Option<String>,
        password: Option<String>,
        namespace: Option<String>,
        database: Option<String>,
    ) -> (c: DbConfig)
        ensures
            c.url@ == match url {
                Some(v) => v@,
                None => "ws://127.0.0.1:8000"@,
            },
            c.username@ == match username {
                Some(v) => v@,
                None => "root"@,
            },
            c.password@ == match password {
                Some(v) => v@,
                None => "root"@,
            },
            c.namespace@ == match namespace {
                Some(v) => v@,
                None => "portfolio"@,
            },
            c.database@ == match database {
                Some(v) => v@,
                None => "main"@,
            },
    {
        DbConfig {
            url: or_default(url, "ws://127.0.0.1:8000"),
            username: or_default(username, "root"),
            password: or_default(password, "root"),
            namespace: or_default(namespace, "portfolio"),
            database: or_default(database, "main"),
        }
    }
}

} // verus!
