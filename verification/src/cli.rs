//! Command-line values: the local target to share and the requested subdomain.

use vstd::prelude::*;

use crate::text::{
    chars_of, concat3, decimal, is_digit, is_space, last_index_of, lemma_decimal_digits,
    lemma_last_index_of, parse_u16, parse_u16_spec, rfind_char, trim, trim_end, trim_start,
    trimmed, unsigned_digits, utf8_len, utf8_len_exceeds,
};

verus! {

/// The options the command line accepts, after parsing.
#[derive(Debug, Clone)]
pub struct Cli {
    /// Local port or host:port to share.
    pub target: LocalTarget,
    /// Relay server address for public tunneling.
    pub relay: String,
    /// Requested subdomain prefix on the relay.
    pub subdomain: Option<String>,
    /// Suppress the terminal QR code.
    pub no_qr: bool,
    /// Output tunnel metadata as JSON for scripting.
    pub json: bool,
    /// Verbosity: the number of `-v` flags.
    pub verbose: u8,
    /// Suppress non-error console output.
    pub quiet: bool,
}

/// The local HTTP server that requests are forwarded to.
#[derive(Debug, Clone, PartialEq, Eq)]
pub struct LocalTarget {
    pub host: String,
    pub port: u16,
}

/// `host:port`, as the target is shown to users.
pub open spec fn host_port_text(host: Seq<char>, port: u16) -> Seq<char> {
    host + ":"@ + crate::text::decimal(port as nat)
}

impl LocalTarget {
    /// The target as `host:port`.
    pub fn to_display_string(&self) -> (s: String)
        ensures
            s@ == host_port_text(self.host@, self.port),
    {
        let mut s = self.host.clone();
        s.append(":");
        crate::text::push_decimal(&mut s, self.port as u64);
        s
    }
}

pub open spec fn port_range_message() -> Seq<char> {
    "port must be between 1 and 65535"@
}

/// What `parse_target` gives for the text `s`: the host and port, or the
/// message of the error.
pub open spec fn target_outcome(s: Seq<char>) -> Result<(Seq<char>, u16), Seq<char>> {
    let t = trimmed(s);
    let k = last_index_of(t, ':');
    if t.len() == 0 {
        Err("target cannot be empty"@)
    } else if k < 0 {
        match parse_u16_spec(t) {
            None => Err(
                "invalid target '"@ + t + "': expected a port number (1-65535) or host:port"@,
            ),
            Some(p) => if p == 0 {
                Err(port_range_message())
            } else {
                Ok(("127.0.0.1"@, p))
            },
        }
    } else {
        let host = t.subrange(0, k);
        let port_text = t.subrange(k + 1, t.len() as int);
        if host.len() == 0 {
            Err("invalid target '"@ + t + "': missing host before port"@)
        } else {
            match parse_u16_spec(port_text) {
                None => if port_text.len() == 0 {
                    Err("invalid target '"@ + t + "': missing port after colon"@)
                } else {
                    Err("invalid port '"@ + port_text + "': must be a number between 1 and 65535"@)
                },
                Some(p) => if p == 0 {
                    Err(port_range_message())
                } else {
                    Ok((host, p))
                },
            }
        }
    }
}

/// Parses a target given as a port (`3000`, host `127.0.0.1`) or as
/// `host:port` (split at the last colon). Surrounding white space is ignored.
pub fn parse_target(s: &str) -> (r: Result<LocalTarget, String>)
    ensures
        match r {
            Ok(lt) => target_outcome(s@) == Ok::<(Seq<char>, u16), Seq<char>>((lt.host@, lt.port)),
            Err(e) => target_outcome(s@) == Err::<(Seq<char>, u16), Seq<char>>(e@),
        },
{
    let t = trim(s);
    let v = chars_of(t);
    proof {
        lemma_last_index_of(t@, ':');
    }
    if v.len() == 0 {
        return Err("target cannot be empty".to_owned());
    }
    match rfind_char(&v, ':') {
        None => {
            match parse_u16(t) {
                None => Err(
                    concat3(
                        "invalid target '",
                        t,
                        "': expected a port number (1-65535) or host:port",
                    ),
                ),
                Some(port) => {
                    if port == 0 {
                        Err("port must be between 1 and 65535".to_owned())
                    } else {
                        Ok(LocalTarget { host: "127.0.0.1".to_owned(), port })
                    }
                },
            }
        },
        Some(k) => {
            let host = t.substring_char(0, k);
            let port_text = t.substring_char(k + 1, v.len());
            if k == 0 {
                assert(host@.len() == 0);
                return Err(concat3("invalid target '", t, "': missing host before port"));
            }
            match parse_u16(port_text) {
                None => {
                    if k + 1 == v.len() {
                        Err(concat3("invalid target '", t, "': missing port after colon"))
                    } else {
                        Err(
                            concat3(
                                "invalid port '",
                                port_text,
                                "': must be a number between 1 and 65535",
                            ),
                        )
                    }
                },
                Some(port) => {
                    if port == 0 {
                        Err("port must be between 1 and 65535".to_owned())
                    } else {
                        Ok(LocalTarget { host: host.to_owned(), port })
                    }
                },
            }
        },
    }
}

/// A target shown as `host:port` reads back as the same target: `parse_target`
/// undoes `to_display_string` for every port it accepts and every host that
/// does not start with white space.
pub proof fn lemma_target_text_parses_back(host: Seq<char>, port: u16)
    requires
        host.len() > 0,
        !is_space(host[0]),
        port >= 1,
    ensures
        target_outcome(host_port_text(host, port)) == Ok::<(Seq<char>, u16), Seq<char>>(
            (host, port),
        ),
{
    let digits = decimal(port as nat);
    lemma_decimal_digits(port as nat);
    reveal_strlit(":");
    let t = host_port_text(host, port);
    assert(t =~= host + seq![':'] + digits);
    let k = host.len() as int;
    assert(t[k] == ':');
    assert(forall|j: int| k < j < t.len() ==> #[trigger] t[j] == digits[j - k - 1]);
    assert(is_digit(t.last())) by {
        assert(t.last() == digits[digits.len() - 1]);
    }
    assert(trim_start(t) == t);
    assert(trim_end(t) == t);
    assert(trimmed(t) == t);
    lemma_last_index_of(t, ':');
    let r = last_index_of(t, ':');
    if r < k {
        assert(t[k] != ':');
    }
    if r > k {
        assert(is_digit(digits[r - k - 1]));
    }
    assert(r == k);
    assert(t.subrange(0, k) =~= host);
    assert(t.subrange(k + 1, t.len() as int) =~= digits);
    assert(is_digit(digits[0]));
    assert(unsigned_digits(digits) == digits);
}

/// An ASCII letter or digit.
pub open spec fn is_ascii_alnum(c: char) -> bool {
    ('a' <= c && c <= 'z') || ('A' <= c && c <= 'Z') || ('0' <= c && c <= '9')
}

pub open spec fn is_label_char(c: char) -> bool {
    is_ascii_alnum(c) || c == '-'
}

/// What `validate_subdomain` gives for `s`: the trimmed subdomain, or the
/// message of the first rule that it breaks. The length limit counts UTF-8
/// bytes, as `str::len` does (see `lemma_utf8_len`).
pub open spec fn subdomain_outcome(s: Seq<char>) -> Result<Seq<char>, Seq<char>> {
    let t = trimmed(s);
    if t.len() == 0 {
        Err("subdomain cannot be empty"@)
    } else if utf8_len(t) > 63 {
        Err("subdomain must be 63 characters or less"@)
    } else if t[0] == '-' || t.last() == '-' {
        Err("subdomain cannot start or end with a hyphen"@)
    } else if !(forall|i: int| 0 <= i < t.len() ==> is_label_char(#[trigger] t[i])) {
        Err("subdomain can only contain lowercase alphanumeric characters and hyphens"@)
    } else {
        Ok(t)
    }
}

/// Checks a requested subdomain: non-empty after trimming, at most 63 bytes,
/// no leading or trailing hyphen, only ASCII letters, digits and hyphens.
pub fn validate_subdomain(s: &str) -> (r: Result<String, String>)
    ensures
        match r {
            Ok(v) => subdomain_outcome(s@) == Ok::<Seq<char>, Seq<char>>(v@),
            Err(e) => subdomain_outcome(s@) == Err::<Seq<char>, Seq<char>>(e@),
        },
{
    let t = trim(s);
    let v = chars_of(t);
    let n = v.len();
    if n == 0 {
        return Err("subdomain cannot be empty".to_owned());
    }
    if utf8_len_exceeds(&v, 63) {
        return Err("subdomain must be 63 characters or less".to_owned());
    }
    if v[0] == '-' || v[n - 1] == '-' {
        return Err("subdomain cannot start or end with a hyphen".to_owned());
    }
    let mut i: usize = 0;
    while i < n
        invariant
            n == v@.len(),
            v@ == t@,
            t@ == trimmed(s@),
            n > 0,
            !(utf8_len(t@) > 63),
            t@[0] != '-' && t@.last() != '-',
            i <= n,
            forall|j: int| 0 <= j < i ==> is_label_char(#[trigger] v@[j]),
        decreases n - i,
    {
        let c = v[i];
        if !(('a' <= c && c <= 'z') || ('A' <= c && c <= 'Z') || ('0' <= c && c <= '9') || c
            == '-') {
            assert(!is_label_char(t@[i as int]));
            return Err(
                "subdomain can only contain lowercase alphanumeric characters and hyphens".to_owned(),
            );
        }
        i = i + 1;
    }
    Ok(t.to_owned())
}

} // verus!
