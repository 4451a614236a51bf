//! Dotted-quad IPv4 addresses in text: four decimal octets, 0 to 255, each
//! without leading zeros, separated by dots.
use vstd::prelude::*;

verus! {

/// Byte of the dot that separates octets.
pub const DOT: u8 = 0x2e;

/// The position of the first dot at or after `from`, or `s.len()` if none.
pub open spec fn first_dot(s: Seq<u8>, from: int) -> int
    decreases s.len() - from,
{
    if from >= s.len() {
        s.len() as int
    } else if s[from] == DOT {
        from
    } else {
        first_dot(s, from + 1)
    }
}

pub open spec fn is_digit(b: u8) -> bool {
    0x30 <= b <= 0x39
}

/// The value of a string of decimal digits.
pub open spec fn decimal(t: Seq<u8>) -> nat
    decreases t.len(),
{
    if t.len() == 0 {
        0
    } else {
        decimal(t.drop_last()) * 10 + (t.last() - 0x30) as nat
    }
}

/// One to three decimal digits, no leading zero, at most 255.
pub open spec fn octet_ok(t: Seq<u8>) -> bool {
    &&& 1 <= t.len() <= 3
    &&& forall|x: int| 0 <= x < t.len() ==> is_digit(#[trigger] t[x])
    &&& (t.len() == 1 || t[0] != 0x30)
    &&& decimal(t) <= 255
}

/// The four octets of `s` when `s` is a dotted quad, `None` otherwise. The
/// three dots are the first three of `s`; the last octet runs to the end.
pub open spec fn dotted_quad(s: Seq<u8>) -> Option<Seq<u8>> {
    let i = first_dot(s, 0);
    let j = first_dot(s, i + 1);
    let k = first_dot(s, j + 1);
    if k < s.len() && octet_ok(s.subrange(0, i)) && octet_ok(s.subrange(i + 1, j)) && octet_ok(
        s.subrange(j + 1, k),
    ) && octet_ok(s.subrange(k + 1, s.len() as int)) {
        Some(
            seq![
                decimal(s.subrange(0, i)) as u8,
                decimal(s.subrange(i + 1, j)) as u8,
                decimal(s.subrange(j + 1, k)) as u8,
                decimal(s.subrange(k + 1, s.len() as int)) as u8,
            ],
        )
    } else {
        None
    }
}

fn find_dot(s: &[u8], from: usize) -> (r: usize)
    requires
        from <= s@.len(),
    ensures
        r == first_dot(s@, from as int),
        from <= r <= s@.len(),
{
    let mut i = from;
    while i < s.len()
        invariant
            from <= i <= s@.len(),
            first_dot(s@, i as int) == first_dot(s@, from as int),
        decreases s@.len() - i,
    {
        if s[i] == DOT {
            return i;
        }
        i = i + 1;
    }
    i
}

fn parse_octet(s: &[u8], start: usize, end: usize) -> (r: Option<u8>)
    requires
        start <= end <= s@.len(),
    ensures
        match r {
            Some(v) => octet_ok(s@.subrange(start as int, end as int)) && v == decimal(
                s@.subrange(start as int, end as int),
            ),
            None => !octet_ok(s@.subrange(start as int, end as int)),
        },
{
    let ghost t = s@.subrange(start as int, end as int);
    if end - start < 1 || end - start > 3 {
        return None;
    }
    if end - start > 1 && s[start] == 0x30 {
        return None;
    }
    let mut value: u32 = 0;
    let mut p = start;
    while p < end
        invariant
            start <= p <= end,
            end - start <= 3,
            end <= s@.len(),
            t == s@.subrange(start as int, end as int),
            value == decimal(s@.subrange(start as int, p as int)),
            value < 1000,
            p - start <= 3,
            p == start ==> value == 0,
            p - start <= 1 ==> value < 10,
            p - start <= 2 ==> value < 100,
            forall|x: int| start <= x < p ==> is_digit(#[trigger] s@[x]),
        decreases end - p,
    {
        let b = s[p];
        if b < 0x30 || b > 0x39 {
            assert(t[p - start] == b);
            return None;
        }
        assert(s@.subrange(start as int, p + 1).drop_last() =~= s@.subrange(start as int, p as int));
        value = value * 10 + (b - 0x30) as u32;
        p = p + 1;
    }
    if value > 255 {
        return None;
    }
    Some(value as u8)
}

/// The four octets of `s`, if `s` is a dotted quad.
pub fn parse_ipv4(s: &[u8]) -> (r: Option<[u8; 4]>)
    ensures
        match dotted_quad(s@) {
            Some(o) => r matches Some(a) && a@ == o,
            None => r is None,
        },
{
    let n = s.len();
    let i = find_dot(s, 0);
    if i >= n {
        return None;
    }
    let j = find_dot(s, i + 1);
    if j >= n {
        return None;
    }
    let k = find_dot(s, j + 1);
    if k >= n {
        return None;
    }
    let a = match parse_octet(s, 0, i) {
        Some(v) => v,
        None => return None,
    };
    let b = match parse_octet(s, i + 1, j) {
        Some(v) => v,
        None => return None,
    };
    let c = match parse_octet(s, j + 1, k) {
        Some(v) => v,
        None => return None,
    };
    let d = match parse_octet(s, k + 1, n) {
        Some(v) => v,
        None => return None,
    };
    let r = [a, b, c, d];
    assert(r@ =~= dotted_quad(s@)->Some_0);
    Some(r)
}

} // verus!
