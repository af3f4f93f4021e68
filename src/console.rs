use vstd::prelude::*;
use vstd::string::StrSliceExecFns;
use crate::text::same_text;

verus! {

/// Unicode's White_Space characters, the ones that trimming removes.
pub open spec fn white_space(c: char) -> bool {
    let u = c as u32;
    (0x9 <= u <= 0xd) || u == 0x20 || u == 0x85 || u == 0xa0 || u == 0x1680 || (0x2000 <= u <= 0x200a)
        || u == 0x2028 || u == 0x2029 || u == 0x202f || u == 0x205f || u == 0x3000
}

pub fn is_white(c: char) -> (r: bool)
    ensures
        r == white_space(c),
{
    let u = c as u32;
    (0x9 <= u && u <= 0xd) || u == 0x20 || u == 0x85 || u == 0xa0 || u == 0x1680 || (0x2000 <= u && u <= 0x200a)
        || u == 0x2028 || u == 0x2029 || u == 0x202f || u == 0x205f || u == 0x3000
}

/// `s` without its leading and trailing white space: the slice from the first to
/// the last other character (empty when there is none).
pub open spec fn trimmed(s: Seq<char>) -> Seq<char> {
    if forall|k: int| 0 <= k < s.len() ==> white_space(#[trigger] s[k]) {
        Seq::empty()
    } else {
        let a = choose|a: int| 0 <= a < s.len() && !white_space(s[a])
            && forall|k: int| 0 <= k < a ==> white_space(#[trigger] s[k]);
        let b = choose|b: int| 0 <= b < s.len() && !white_space(s[b])
            && forall|k: int| b < k < s.len() ==> white_space(#[trigger] s[k]);
        s.subrange(a, b + 1)
    }
}

/// Removes leading and trailing white space.
pub fn trim(s: &str) -> (r: String)
    ensures
        r@ == trimmed(s@),
{
    let n = s.unicode_len();
    let mut a: usize = 0;
    while a < n && is_white(s.get_char(a))
        invariant
            n == s@.len(),
            a <= n,
            forall|k: int| 0 <= k < a ==> white_space(#[trigger] s@[k]),
        decreases n - a,
    {
        a = a + 1;
    }
    if a == n {
        return String::new();
    }
    let mut b: usize = n - 1;
    while b > a && is_white(s.get_char(b))
        invariant
            n == s@.len(),
            a < n,
            !white_space(s@[a as int]),
            a <= b < n,
            forall|k: int| b < k < n ==> white_space(#[trigger] s@[k]),
        decreases b,
    {
        b = b - 1;
    }
    proof {
        let a0 = choose|x: int| 0 <= x < s@.len() && !white_space(s@[x])
            && forall|k: int| 0 <= k < x ==> white_space(#[trigger] s@[k]);
        let b0 = choose|x: int| 0 <= x < s@.len() && !white_space(s@[x])
            && forall|k: int| x < k < s@.len() ==> white_space(#[trigger] s@[k]);
        assert(!white_space(s@[b as int]));
        assert(a0 == a) by {
            if a0 < a { assert(white_space(s@[a0])); }
            if a0 > a { assert(white_space(s@[a as int])); }
        }
        assert(b0 == b) by {
            if b0 < b { assert(white_space(s@[b as int])); }
            if b0 > b { assert(white_space(s@[b0])); }
        }
    }
    let mut out = String::new();
    let mut i: usize = a;
    while i <= b
        invariant
            n == s@.len(),
            a <= i <= b + 1,
            b < n,
            out@ == s@.subrange(a as int, i as int),
        decreases b + 1 - i,
    {
        crate::text::push_char(&mut out, s.get_char(i));
        i = i + 1;
        proof { assert(out@ =~= s@.subrange(a as int, i as int)); }
    }
    out
}

/// The value of a decimal digit string.
pub open spec fn digits_value(d: Seq<char>) -> int
    decreases d.len(),
{
    if d.len() == 0 {
        0
    } else {
        digits_value(d.drop_last()) * 10 + (d.last() as int - '0' as int)
    }
}

pub open spec fn all_digits(d: Seq<char>) -> bool {
    forall|k: int| 0 <= k < d.len() ==> '0' <= #[trigger] d[k] <= '9'
}

/// How a port number is read: an optional `+`, then one or more decimal digits,
/// whose value must fit 16 bits.
pub open spec fn parse_port_spec(s: Seq<char>) -> Option<u16> {
    let d = if s.len() > 0 && s[0] == '+' { s.drop_first() } else { s };
    if d.len() > 0 && all_digits(d) && digits_value(d) <= 65535 {
        Some(digits_value(d) as u16)
    } else {
        None
    }
}

pub proof fn lemma_digits_value_nonneg(d: Seq<char>)
    requires
        all_digits(d),
    ensures
        digits_value(d) >= 0,
        d.len() > 0 ==> digits_value(d) >= digits_value(d.drop_last()),
    decreases d.len(),
{
    if d.len() > 0 {
        assert(all_digits(d.drop_last()));
        lemma_digits_value_nonneg(d.drop_last());
        assert('0' <= d[d.len() - 1] <= '9');
    }
}

pub proof fn lemma_digits_value_prefix_bound(d: Seq<char>, i: int)
    requires
        all_digits(d),
        0 <= i <= d.len(),
    ensures
        digits_value(d.subrange(0, i)) <= digits_value(d),
    decreases d.len() - i,
{
    if i < d.len() {
        lemma_digits_value_prefix_bound(d, i + 1);
        let p = d.subrange(0, i + 1);
        assert(p.drop_last() =~= d.subrange(0, i));
        assert(all_digits(p));
        lemma_digits_value_nonneg(p);
    } else {
        assert(d.subrange(0, i) =~= d);
    }
}

/// Reads a port number.
pub fn parse_port(s: &str) -> (r: Option<u16>)
    ensures
        r == parse_port_spec(s@),
{
    let n = s.unicode_len();
    let start: usize = if n > 0 && s.get_char(0) == '+' { 1 } else { 0 };
    let ghost d = if s@.len() > 0 && s@[0] == '+' { s@.drop_first() } else { s@ };
    proof { assert(d =~= s@.subrange(start as int, n as int)); }
    if start == n {
        return None;
    }
    let mut value: u32 = 0;
    let mut i: usize = start;
    while i < n
        invariant
            n == s@.len(),
            start <= i <= n,
            d == s@.subrange(start as int, n as int),
            d == (if s@.len() > 0 && s@[0] == '+' { s@.drop_first() } else { s@ }),
            d.len() > 0,
            all_digits(d.subrange(0, i - start)),
            value as int == digits_value(d.subrange(0, i - start)),
            value <= 65535,
        decreases n - i,
    {
        let c = s.get_char(i);
        if c < '0' || c > '9' {
            proof {
                assert(d[i - start] == c);
                assert(!all_digits(d));
            }
            return None;
        }
        let digit = (c as u32) - ('0' as u32);
        let next = value * 10 + digit;
        proof {
            let p = d.subrange(0, i + 1 - start);
            assert(p.drop_last() =~= d.subrange(0, i - start));
            assert(p.last() == c);
            assert(all_digits(p));
        }
        if next > 65535 {
            proof {
                if all_digits(d) {
                    lemma_digits_value_prefix_bound(d, i + 1 - start);
                }
            }
            return None;
        }
        value = next;
        i = i + 1;
    }
    proof { assert(d.subrange(0, n - start) =~= d); }
    Some(value as u16)
}

/// The remote console settings of a server.
#[derive(Debug, Clone, PartialEq, Eq)]
pub struct RconConfig {
    pub port: u16,
    pub password: String,
}

/// The first value given for `key`.
pub open spec fn prop_spec(props: Seq<(String, String)>, key: Seq<char>) -> Option<Seq<char>> {
    if exists|i: int| 0 <= i < props.len() && #[trigger] props[i].0@ == key {
        let i = choose|i: int| 0 <= i < props.len() && #[trigger] props[i].0@ == key
            && forall|k: int| 0 <= k < i ==> props[k].0@ != key;
        Some(props[i].1@)
    } else {
        None
    }
}

fn prop<'a>(props: &'a Vec<(String, String)>, key: &str) -> (r: Option<&'a String>)
    ensures
        match r {
            Some(v) => prop_spec(props@, key@) == Some(v@),
            None => prop_spec(props@, key@) is None,
        },
{
    let mut i: usize = 0;
    while i < props.len()
        invariant
            i <= props.len(),
            forall|k: int| 0 <= k < i ==> props@[k].0@ != key@,
        decreases props.len() - i,
    {
        if same_text(props[i].0.as_str(), key) {
            proof {
                let j = choose|j: int| 0 <= j < props@.len() && #[trigger] props@[j].0@ == key@
                    && forall|k: int| 0 <= k < j ==> props@[k].0@ != key@;
                if j < i { assert(props@[j].0@ != key@); }
                if j > i { assert(props@[i as int].0@ != key@); }
            }
            return Some(&props[i].1);
        }
        i = i + 1;
    }
    None
}

/// The remote console settings that a server's properties enable: `enable-rcon`
/// must read `true`, `rcon.port` must be a port number and `rcon.password` must not
/// be blank (each read with surrounding white space ignored; the password is kept
/// as written).
pub open spec fn rcon_config_spec(props: Seq<(String, String)>) -> Option<(u16, Seq<char>)> {
    match (prop_spec(props, "enable-rcon"@), prop_spec(props, "rcon.port"@), prop_spec(props, "rcon.password"@)) {
        (Some(e), Some(p), Some(w)) => if trimmed(e) == "true"@ && parse_port_spec(trimmed(p)) is Some
            && trimmed(w).len() > 0 {
            Some((parse_port_spec(trimmed(p))->Some_0, w))
        } else {
            None
        },
        _ => None,
    }
}

/// Reads the remote console settings out of a server's properties.
pub fn rcon_config(props: &Vec<(String, String)>) -> (r: Option<RconConfig>)
    ensures
        match r {
            Some(c) => rcon_config_spec(props@) == Some((c.port, c.password@)),
            None => rcon_config_spec(props@) is None,
        },
{
    let enable = match prop(props, "enable-rcon") {
        Some(v) => v,
        None => return None,
    };
    let port = match prop(props, "rcon.port") {
        Some(v) => v,
        None => return None,
    };
    let password = match prop(props, "rcon.password") {
        Some(v) => v,
        None => return None,
    };
    let e = trim(enable.as_str());
    if !same_text(e.as_str(), "true") {
        return None;
    }
    let p = match parse_port(trim(port.as_str()).as_str()) {
        Some(p) => p,
        None => return None,
    };
    let w = trim(password.as_str());
    if w.as_str().unicode_len() == 0 {
        return None;
    }
    Some(RconConfig { port: p, password: password.clone() })
}

} // verus!
