use vstd::prelude::*;
use vstd::string::StrSliceExecFns;

verus! {

/// The port used when none is configured.
pub const DEFAULT_PORT: u16 = 8080;

/// Where the service listens.
pub struct Settings {
    pub ip: String,
    pub port: u16,
}

/// Holds of an ASCII decimal digit.
pub open spec fn is_digit(c: char) -> bool {
    '0' <= c && c <= '9'
}

/// Holds of a non-empty run of decimal digits.
pub open spec fn is_decimal(s: Seq<char>) -> bool {
    s.len() > 0 && forall|i: int| 0 <= i < s.len() ==> is_digit(#[trigger] s[i])
}

/// The number that a run of decimal digits writes.
pub open spec fn decimal_value(s: Seq<char>) -> int
    decreases s.len(),
{
    if s.len() == 0 {
        0
    } else {
        decimal_value(s.drop_last()) * 10 + (s.last() as int - '0' as int)
    }
}

/// The port that `s` names, if it is a decimal number that fits a port.
pub open spec fn port_of(s: Seq<char>) -> Option<u16> {
    if is_decimal(s) && decimal_value(s) <= u16::MAX {
        Some(decimal_value(s) as u16)
    } else {
        None
    }
}

proof fn lemma_decimal_grows(s: Seq<char>, i: int, j: int)
    requires
        0 <= i <= j <= s.len(),
        forall|k: int| 0 <= k < s.len() ==> is_digit(#[trigger] s[k]),
    ensures
        decimal_value(s.subrange(0, i)) <= decimal_value(s.subrange(0, j)),
    decreases j - i,
{
    if i < j {
        lemma_decimal_grows(s, i, j - 1);
        let t = s.subrange(0, j);
        assert(t.drop_last() =~= s.subrange(0, j - 1));
        assert(is_digit(s[j - 1]));
        assert(decimal_value(s.subrange(0, j - 1)) >= 0) by {
            lemma_decimal_nonneg(s.subrange(0, j - 1));
        }
    }
}

proof fn lemma_decimal_nonneg(s: Seq<char>)
    requires
        forall|k: int| 0 <= k < s.len() ==> is_digit(#[trigger] s[k]),
    ensures
        decimal_value(s) >= 0,
    decreases s.len(),
{
    if s.len() > 0 {
        assert(is_digit(s[s.len() - 1]));
        lemma_decimal_nonneg(s.drop_last());
    }
}

/// Reads a port number written in decimal.
pub fn parse_port(s: &String) -> (r: Option<u16>)
    ensures
        r == port_of(s@),
{
    let t = s.as_str();
    let n = t.unicode_len();
    if n == 0 {
        return None;
    }
    let mut acc: u32 = 0;
    let mut i: usize = 0;
    while i < n
        invariant
            t@ == s@,
            n == s@.len(),
            0 <= i <= n,
            forall|k: int| 0 <= k < i ==> is_digit(#[trigger] s@[k]),
            acc as int == decimal_value(s@.subrange(0, i as int)),
            acc <= u16::MAX,
        decreases n - i,
    {
        let c = t.get_char(i);
        if c < '0' || c > '9' {
            assert(!is_digit(s@[i as int]));
            return None;
        }
        let d = (c as u32) - ('0' as u32);
        let ghost prev = s@.subrange(0, i as int);
        assert(s@.subrange(0, i + 1).drop_last() =~= prev);
        acc = acc * 10 + d;
        i = i + 1;
        if acc > 65535 {
            proof {
                if is_decimal(s@) {
                    lemma_decimal_grows(s@, i as int, n as int);
                    assert(s@.subrange(0, n as int) =~= s@);
                }
            }
            return None;
        }
    }
    assert(s@.subrange(0, n as int) =~= s@);
    Some(acc as u16)
}

impl Settings {
    /// The settings made of an optional address and an optional port, each
    /// falling back to its default when absent; `None` where the port is
    /// given but is no valid port number.
    pub fn from_values(ip: Option<String>, port: Option<String>) -> (r: Option<Settings>)
        ensures
            match port {
                Some(p) => port_of(p@) is None <==> r is None,
                None => r is Some,
            },
            r matches Some(st) ==> {
                &&& st.port == match port {
                    Some(p) => port_of(p@)->0,
                    None => DEFAULT_PORT,
                }
                &&& st.ip@ == match ip {
                    Some(a) => a@,
                    None => "127.0.0.1"@,
                }
            },
    {
        let port = match port {
            Some(p) => match parse_port(&p) {
                Some(v) => v,
                None => return None,
            },
            None => DEFAULT_PORT,
        };
        let ip = match ip {
            Some(a) => a,
            None => "127.0.0.1".to_owned(),
        };
        Some(Settings { ip, port })
    }

    /// The default settings.
    pub fn default_settings() -> (r: Settings)
        ensures
            r.ip@ == "127.0.0.1"@,
            r.port == DEFAULT_PORT,
    {
        Settings { ip: "127.0.0.1".to_owned(), port: DEFAULT_PORT }
    }
}

} // verus!
