use vstd::prelude::*;
use crate::addr::{Endpoint, Ipv4, loopback};

verus! {

/// Where the relay listens: a full address and port, or a port alone on the
/// loopback address.
#[derive(Clone, Copy, Debug, PartialEq, Eq, Structural)]
pub enum Listen {
    Addr(Endpoint),
    Port(u16),
}

/// Why a listen target was not accepted.
#[derive(Clone, Copy, Debug, PartialEq, Eq, Structural)]
pub enum ListenError {
    /// The text holds a `:` but is not `a.b.c.d:port`.
    BadAddress,
    /// The text holds no `:` and is not a port number.
    BadPort,
}

/// Values above this are all the same to the grammar: too large for a port.
pub const DECIMAL_CAP: u32 = 65536;

pub open spec fn is_digit(c: char) -> bool {
    '0' <= c && c <= '9'
}

pub open spec fn all_digits(t: Seq<char>) -> bool {
    forall|i: int| 0 <= i < t.len() ==> is_digit(#[trigger] t[i])
}

/// The number that a string of decimal digits spells.
pub open spec fn decimal(t: Seq<char>) -> nat
    decreases t.len(),
{
    if t.len() == 0 {
        0
    } else {
        decimal(t.drop_last()) * 10 + ((t.last() as u32) - ('0' as u32)) as nat
    }
}

/// The first position at or after `from` that holds `c`.
pub open spec fn find_from(s: Seq<char>, c: char, from: int) -> Option<int>
    decreases s.len() - from,
{
    if from < 0 || from >= s.len() {
        None
    } else if s[from] == c {
        Some(from)
    } else {
        find_from(s, c, from + 1)
    }
}

/// One octet of a dotted address: one to three digits, no leading zero
/// unless the octet is `0` itself, at most 255.
pub open spec fn octet_of(t: Seq<char>) -> Option<u8> {
    if 1 <= t.len() <= 3 && all_digits(t) && !(t.len() > 1 && t[0] == '0') && decimal(t)
        <= 255 {
        Some(decimal(t) as u8)
    } else {
        None
    }
}

/// The port after the colon of an address: one or more digits, at most 65535.
pub open spec fn port_of(t: Seq<char>) -> Option<u16> {
    if t.len() >= 1 && all_digits(t) && decimal(t) <= 65535 {
        Some(decimal(t) as u16)
    } else {
        None
    }
}

/// A bare port number: as `port_of`, with one optional leading `+`.
pub open spec fn bare_port_of(t: Seq<char>) -> Option<u16> {
    if t.len() > 0 && t[0] == '+' {
        port_of(t.subrange(1, t.len() as int))
    } else {
        port_of(t)
    }
}

/// `a.b.c.d:port`, read by the positions of its three dots and its colon.
pub open spec fn endpoint_of(s: Seq<char>) -> Option<Endpoint> {
    let dot1 = find_from(s, '.', 0);
    let dot2 = find_from(s, '.', dot1.unwrap() + 1);
    let dot3 = find_from(s, '.', dot2.unwrap() + 1);
    let colon_at = find_from(s, ':', dot3.unwrap() + 1);
    if dot1.is_none() || dot2.is_none() || dot3.is_none() || colon_at.is_none() {
        None
    } else {
        let a = octet_of(s.subrange(0, dot1.unwrap()));
        let b = octet_of(s.subrange(dot1.unwrap() + 1, dot2.unwrap()));
        let c = octet_of(s.subrange(dot2.unwrap() + 1, dot3.unwrap()));
        let d = octet_of(s.subrange(dot3.unwrap() + 1, colon_at.unwrap()));
        let port = port_of(s.subrange(colon_at.unwrap() + 1, s.len() as int));
        if a.is_none() || b.is_none() || c.is_none() || d.is_none() || port.is_none() {
            None
        } else {
            Some(
                Endpoint {
                    ip: Ipv4 { a: a.unwrap(), b: b.unwrap(), c: c.unwrap(), d: d.unwrap() },
                    port: port.unwrap(),
                },
            )
        }
    }
}

/// The listen target that a text names: with a colon it is an address,
/// without one a port.
pub open spec fn listen_of(s: Seq<char>) -> Result<Listen, ListenError> {
    if s.contains(':') {
        match endpoint_of(s) {
            Some(e) => Ok(Listen::Addr(e)),
            None => Err(ListenError::BadAddress),
        }
    } else {
        match bare_port_of(s) {
            Some(p) => Ok(Listen::Port(p)),
            None => Err(ListenError::BadPort),
        }
    }
}

/// The address that a listen target binds.
pub open spec fn bind_address(l: Listen) -> Endpoint {
    match l {
        Listen::Addr(e) => e,
        Listen::Port(p) => Endpoint { ip: loopback(), port: p },
    }
}

proof fn lemma_find_from_in_range(s: Seq<char>, c: char, from: int)
    ensures
        find_from(s, c, from) matches Some(i) ==> from <= i < s.len() && s[i] == c,
    decreases s.len() - from,
{
    if 0 <= from < s.len() && s[from] != c {
        lemma_find_from_in_range(s, c, from + 1);
    }
}

/// The first position at or after `from` in `s` that holds `c`.
fn find_char(s: &str, n: usize, c: char, from: usize) -> (r: Option<usize>)
    requires
        n == s@.len(),
    ensures
        r matches Some(i) ==> find_from(s@, c, from as int) == Some(i as int),
        r is None ==> find_from(s@, c, from as int) is None,
{
    let mut i: usize = from;
    while i < n
        invariant
            n == s@.len(),
            from <= i,
            find_from(s@, c, from as int) == find_from(s@, c, i as int),
        decreases n - i,
    {
        if s.get_char(i) == c {
            return Some(i);
        }
        i = i + 1;
    }
    None
}

/// The decimal value of `s[lo..hi]`, held at `DECIMAL_CAP` when it is larger;
/// `None` where a character there is not a digit.
fn read_decimal(s: &str, lo: usize, hi: usize) -> (r: Option<u32>)
    requires
        lo <= hi <= s@.len(),
    ensures
        r matches Some(v) ==> all_digits(s@.subrange(lo as int, hi as int)) && v == (if decimal(
            s@.subrange(lo as int, hi as int),
        ) < DECIMAL_CAP {
            decimal(s@.subrange(lo as int, hi as int))
        } else {
            DECIMAL_CAP as nat
        }),
        r is None ==> !all_digits(s@.subrange(lo as int, hi as int)),
{
    let mut v: u32 = 0;
    let mut i: usize = lo;
    while i < hi
        invariant
            lo <= i <= hi <= s@.len(),
            all_digits(s@.subrange(lo as int, i as int)),
            v == (if decimal(s@.subrange(lo as int, i as int)) < DECIMAL_CAP {
                decimal(s@.subrange(lo as int, i as int))
            } else {
                DECIMAL_CAP as nat
            }),
        decreases hi - i,
    {
        let ch = s.get_char(i);
        let ghost prev = s@.subrange(lo as int, i as int);
        let ghost next = s@.subrange(lo as int, i + 1);
        assert(next.drop_last() =~= prev);
        assert(next.last() == ch);
        if !('0' <= ch && ch <= '9') {
            assert(!is_digit(next[i - lo]));
            assert(s@.subrange(lo as int, hi as int)[i - lo] == ch);
            return None;
        }
        let digit: u32 = (ch as u32) - ('0' as u32);
        assert(decimal(next) == decimal(prev) * 10 + digit);
        if v >= DECIMAL_CAP || v * 10 + digit >= DECIMAL_CAP {
            assert(decimal(next) >= DECIMAL_CAP) by (nonlinear_arith)
                requires
                    decimal(next) == decimal(prev) * 10 + digit,
                    v >= DECIMAL_CAP || v * 10 + digit >= DECIMAL_CAP,
                    v == (if decimal(prev) < DECIMAL_CAP {
                        decimal(prev)
                    } else {
                        DECIMAL_CAP as nat
                    }),
            ;
            v = DECIMAL_CAP;
        } else {
            v = v * 10 + digit;
        }
        assert forall|k: int| 0 <= k < next.len() implies is_digit(#[trigger] next[k]) by {
            if k < prev.len() {
                assert(next[k] == prev[k]);
            }
        }
        i = i + 1;
    }
    Some(v)
}


proof fn lemma_find_from_none(s: Seq<char>, c: char, from: int)
    requires
        0 <= from,
    ensures
        find_from(s, c, from) is None <==> forall|i: int| from <= i < s.len() ==> s[i] != c,
    decreases s.len() - from,
{
    if from < s.len() && s[from] != c {
        lemma_find_from_none(s, c, from + 1);
    }
}

/// The octet that `s[lo..hi]` spells.
fn read_octet(s: &str, lo: usize, hi: usize) -> (r: Option<u8>)
    requires
        lo <= hi <= s@.len(),
    ensures
        r == octet_of(s@.subrange(lo as int, hi as int)),
{
    let ghost t = s@.subrange(lo as int, hi as int);
    if hi - lo < 1 || hi - lo > 3 {
        return None;
    }
    let v = match read_decimal(s, lo, hi) {
        Some(v) => v,
        None => {
            return None;
        },
    };
    if hi - lo > 1 && s.get_char(lo) == '0' {
        assert(t[0] == s@[lo as int]);
        return None;
    }
    assert(hi - lo > 1 ==> t[0] == s@[lo as int]);
    if v <= 255 {
        Some(v as u8)
    } else {
        None
    }
}

/// The port that `s[lo..hi]` spells.
fn read_port(s: &str, lo: usize, hi: usize) -> (r: Option<u16>)
    requires
        lo <= hi <= s@.len(),
    ensures
        r == port_of(s@.subrange(lo as int, hi as int)),
{
    if hi - lo < 1 {
        return None;
    }
    match read_decimal(s, lo, hi) {
        Some(v) => {
            if v <= 65535 {
                Some(v as u16)
            } else {
                None
            }
        },
        None => None,
    }
}

/// Reads `a.b.c.d:port` from `s`, whose length in characters is `n`.
fn read_endpoint(s: &str, n: usize) -> (r: Option<Endpoint>)
    requires
        n == s@.len(),
    ensures
        r == endpoint_of(s@),
{
    let dot1 = match find_char(s, n, '.', 0) {
        Some(p) => p,
        None => {
            return None;
        },
    };
    proof {
        lemma_find_from_in_range(s@, '.', 0);
    }
    let dot2 = match find_char(s, n, '.', dot1 + 1) {
        Some(p) => p,
        None => {
            return None;
        },
    };
    proof {
        lemma_find_from_in_range(s@, '.', dot1 + 1);
    }
    let dot3 = match find_char(s, n, '.', dot2 + 1) {
        Some(p) => p,
        None => {
            return None;
        },
    };
    proof {
        lemma_find_from_in_range(s@, '.', dot2 + 1);
    }
    let colon_at = match find_char(s, n, ':', dot3 + 1) {
        Some(p) => p,
        None => {
            return None;
        },
    };
    proof {
        lemma_find_from_in_range(s@, ':', dot3 + 1);
    }
    let a = read_octet(s, 0, dot1);
    let b = read_octet(s, dot1 + 1, dot2);
    let c = read_octet(s, dot2 + 1, dot3);
    let d = read_octet(s, dot3 + 1, colon_at);
    let port = read_port(s, colon_at + 1, n);
    match (a, b, c, d, port) {
        (Some(a), Some(b), Some(c), Some(d), Some(port)) => Some(
            Endpoint { ip: Ipv4 { a, b, c, d }, port },
        ),
        _ => None,
    }
}

impl Listen {
    /// Reads a listen target: `a.b.c.d:port` where the text holds a colon,
    /// else a port number alone.
    pub fn parse(s: &str) -> (r: Result<Listen, ListenError>)
        ensures
            r == listen_of(s@),
    {
        let n = s.unicode_len();
        let colon = find_char(s, n, ':', 0);
        proof {
            lemma_find_from_none(s@, ':', 0);
            lemma_find_from_in_range(s@, ':', 0);
        }
        if colon.is_some() {
            match read_endpoint(s, n) {
                Some(e) => Ok(Listen::Addr(e)),
                None => Err(ListenError::BadAddress),
            }
        } else {
            let port = if n > 0 && s.get_char(0) == '+' {
                read_port(s, 1, n)
            } else {
                read_port(s, 0, n)
            };
            assert(s@.subrange(0, n as int) =~= s@);
            match port {
                Some(p) => Ok(Listen::Port(p)),
                None => Err(ListenError::BadPort),
            }
        }
    }

    /// The address to bind: the given one, or the loopback address with the
    /// given port.
    pub fn bind_address(&self) -> (r: Endpoint)
        ensures
            r == bind_address(*self),
    {
        match self {
            Listen::Addr(e) => *e,
            Listen::Port(p) => Endpoint { ip: Ipv4::localhost(), port: *p },
        }
    }
}


/// The character of a decimal digit.
pub open spec fn digit_char(d: nat) -> char {
    if d == 0 {
        '0'
    } else if d == 1 {
        '1'
    } else if d == 2 {
        '2'
    } else if d == 3 {
        '3'
    } else if d == 4 {
        '4'
    } else if d == 5 {
        '5'
    } else if d == 6 {
        '6'
    } else if d == 7 {
        '7'
    } else if d == 8 {
        '8'
    } else {
        '9'
    }
}

/// A number written in decimal, without leading zeros.
pub open spec fn decimal_text(n: nat) -> Seq<char>
    decreases n,
{
    if n < 10 {
        seq![digit_char(n)]
    } else {
        decimal_text(n / 10).push(digit_char(n % 10))
    }
}

/// An endpoint written as `a.b.c.d:port`, each number in decimal.
pub open spec fn endpoint_text(e: Endpoint) -> Seq<char> {
    decimal_text(e.ip.a as nat) + seq!['.'] + decimal_text(e.ip.b as nat) + seq!['.']
        + decimal_text(e.ip.c as nat) + seq!['.'] + decimal_text(e.ip.d as nat) + seq![':']
        + decimal_text(e.port as nat)
}

proof fn lemma_decimal_text(n: nat)
    ensures
        all_digits(decimal_text(n)),
        decimal(decimal_text(n)) == n,
        decimal_text(n).len() >= 1,
        decimal_text(n).len() > 1 ==> decimal_text(n)[0] != '0',
        n < 10 ==> decimal_text(n).len() == 1,
        n >= 10 ==> decimal_text(n).len() >= 2,
        n < 100 ==> decimal_text(n).len() <= 2,
        n < 1000 ==> decimal_text(n).len() <= 3,
    decreases n,
{
    let t = decimal_text(n);
    if n < 10 {
        assert(decimal(t.drop_last()) == 0) by {
            assert(t.drop_last().len() == 0);
        }
    } else {
        lemma_decimal_text(n / 10);
        let u = decimal_text(n / 10);
        assert(t.drop_last() =~= u);
        assert forall|i: int| 0 <= i < t.len() implies is_digit(#[trigger] t[i]) by {
            if i < u.len() {
                assert(t[i] == u[i]);
            }
        }
        assert(t[0] == u[0]);
        if n / 10 < 10 {
            assert(u =~= seq![digit_char(n / 10)]);
            assert(n / 10 != 0);
            assert(u[0] != '0');
        }
        assert(n < 100 ==> n / 10 < 10);
        assert(n < 1000 ==> n / 10 < 100);
    }
}

proof fn lemma_no_char_in_digits(t: Seq<char>, c: char)
    requires
        all_digits(t),
        !is_digit(c),
    ensures
        !t.contains(c),
{
    if t.contains(c) {
        let i = choose|i: int| 0 <= i < t.len() && t[i] == c;
        assert(is_digit(t[i]));
    }
}

/// `find_from` lands on the first position at or after `from` that holds `c`.
proof fn lemma_find_first(s: Seq<char>, c: char, from: int, k: int)
    requires
        0 <= from <= k < s.len(),
        s[k] == c,
        forall|i: int| from <= i < k ==> s[i] != c,
    ensures
        find_from(s, c, from) == Some(k),
    decreases k - from,
{
    if from < k {
        lemma_find_first(s, c, from + 1, k);
    }
}

/// A bare port written in decimal reads back as that port.
pub proof fn law_port_text_round_trip(p: u16)
    ensures
        listen_of(decimal_text(p as nat)) == Ok::<Listen, ListenError>(Listen::Port(p)),
{
    let t = decimal_text(p as nat);
    lemma_decimal_text(p as nat);
    lemma_no_char_in_digits(t, ':');
    assert(is_digit(t[0]));
}

/// A field of digits that starts at `lo` and is closed by `c` is found by
/// looking for `c` from `lo`.
proof fn lemma_field_end(s: Seq<char>, lo: int, field: Seq<char>, c: char)
    requires
        0 <= lo,
        lo + field.len() < s.len(),
        s.subrange(lo, lo + field.len()) == field,
        s[lo + field.len()] == c,
        all_digits(field),
        !is_digit(c),
    ensures
        find_from(s, c, lo) == Some(lo + field.len()),
{
    assert forall|i: int| lo <= i < lo + field.len() implies s[i] != c by {
        assert(s[i] == s.subrange(lo, lo + field.len())[i - lo]);
        assert(is_digit(field[i - lo]));
    }
    lemma_find_first(s, c, lo, lo + field.len());
}

/// An endpoint written as `a.b.c.d:port` reads back as that endpoint.
pub proof fn law_endpoint_text_round_trip(e: Endpoint)
    ensures
        listen_of(endpoint_text(e)) == Ok::<Listen, ListenError>(Listen::Addr(e)),
{
    let ta = decimal_text(e.ip.a as nat);
    let tb = decimal_text(e.ip.b as nat);
    let tc = decimal_text(e.ip.c as nat);
    let td = decimal_text(e.ip.d as nat);
    let tp = decimal_text(e.port as nat);
    lemma_decimal_text(e.ip.a as nat);
    lemma_decimal_text(e.ip.b as nat);
    lemma_decimal_text(e.ip.c as nat);
    lemma_decimal_text(e.ip.d as nat);
    lemma_decimal_text(e.port as nat);
    let s1 = ta + seq!['.'];
    let s2 = s1 + tb + seq!['.'];
    let s3 = s2 + tc + seq!['.'];
    let s4 = s3 + td + seq![':'];
    let s = s4 + tp;
    assert(s =~= endpoint_text(e));
    let d1 = ta.len() as int;
    let d2 = (s1.len() + tb.len()) as int;
    let d3 = (s2.len() + tc.len()) as int;
    let cl = (s3.len() + td.len()) as int;
    assert(s.subrange(0, d1) =~= ta);
    assert(s.subrange(d1 + 1, d2) =~= tb);
    assert(s.subrange(d2 + 1, d3) =~= tc);
    assert(s.subrange(d3 + 1, cl) =~= td);
    assert(s.subrange(cl + 1, s.len() as int) =~= tp);
    assert(s[d1] == '.' && s[d2] == '.' && s[d3] == '.' && s[cl] == ':');
    lemma_field_end(s, 0, ta, '.');
    lemma_field_end(s, d1 + 1, tb, '.');
    lemma_field_end(s, d2 + 1, tc, '.');
    lemma_field_end(s, d3 + 1, td, ':');
    assert(s.contains(':'));
}

impl std::str::FromStr for Listen {
    type Err = ListenError;

    /// Reads a listen target, as `Listen::parse` does.
    fn from_str(s: &str) -> (r: Result<Listen, ListenError>)
        ensures
            r == listen_of(s@),
    {
        Listen::parse(s)
    }
}

} // verus!
