//! Channel selector expressions: `all`, a single index, or a range such as
//! `2..5`, `2..=5`, `..3` or `5..`.
use vstd::prelude::*;
use vstd::string::*;

use crate::error::Error;

verus! {

/// Highest channel index on the board.
pub const MAX_CHANNEL: u8 = 7;

pub open spec fn is_digit(c: char) -> bool {
    '0' <= c && c <= '9'
}

pub open spec fn digit_value(c: char) -> nat {
    (c as u32 - '0' as u32) as nat
}

/// Decimal value of a sequence of digits.
pub open spec fn decimal_value(s: Seq<char>) -> nat
    decreases s.len(),
{
    if s.len() == 0 {
        0
    } else {
        decimal_value(s.drop_last()) * 10 + digit_value(s.last())
    }
}

pub open spec fn all_digits(s: Seq<char>) -> bool {
    forall|i: int| 0 <= i < s.len() ==> is_digit(#[trigger] s[i])
}

/// What reading `s` as a byte-sized unsigned integer yields: an optional `+`
/// and then one or more digits whose value is at most 255.
pub open spec fn u8_of(s: Seq<char>) -> Option<u8> {
    let d = if s.len() > 0 && s[0] == '+' {
        s.drop_first()
    } else {
        s
    };
    if d.len() > 0 && all_digits(d) && decimal_value(d) <= 255 {
        Some(decimal_value(d) as u8)
    } else {
        None
    }
}

/// Number of consecutive digits in `s` starting at position `p`.
pub open spec fn digit_run(s: Seq<char>, p: int) -> nat
    decreases s.len() - p,
{
    if 0 <= p < s.len() && is_digit(s[p]) {
        1 + digit_run(s, p + 1)
    } else {
        0
    }
}

/// Whether a range expression (digits, `..`, an optional `=`, digits; both
/// digit groups optional) starts at position `p` of `s`.
pub open spec fn range_at(s: Seq<char>, p: int) -> bool {
    let q = p + digit_run(s, p);
    0 <= p && q + 2 <= s.len() && s[q] == '.' && s[q + 1] == '.'
}

/// The leftmost position at or after `p` where a range expression starts.
pub open spec fn first_range_from(s: Seq<char>, p: int) -> Option<int>
    decreases s.len() - p,
{
    if p < 0 || p >= s.len() {
        None
    } else if range_at(s, p) {
        Some(p)
    } else {
        first_range_from(s, p + 1)
    }
}

/// The ascending channels `lo, lo + 1, ..., hi - 1`.
pub open spec fn channels_between(lo: int, hi: int) -> Seq<u8> {
    if hi <= lo {
        Seq::empty()
    } else {
        Seq::new((hi - lo) as nat, |i: int| (lo + i) as u8)
    }
}

/// The channels selected by the range expression that starts at `p`.
/// A missing start is 0 and a missing end is the last channel; the range
/// includes its end when `=` is written or either bound is missing. It is
/// rejected when its start exceeds its end or its end exceeds the last
/// channel.
pub open spec fn range_channels(s: Seq<char>, p: int) -> Option<Seq<u8>> {
    let q = p + digit_run(s, p);
    let eq = q + 2 < s.len() && s[q + 2] == '=';
    let r = if eq {
        q + 3
    } else {
        q + 2
    };
    let e = digit_run(s, r);
    let start: nat = if q > p {
        decimal_value(s.subrange(p, q))
    } else {
        0
    };
    let end: nat = if e > 0 {
        decimal_value(s.subrange(r, r + e))
    } else {
        MAX_CHANNEL as nat
    };
    if start > end || end > MAX_CHANNEL {
        None
    } else if eq || e == 0 || q == p {
        Some(channels_between(start as int, end as int + 1))
    } else {
        Some(channels_between(start as int, end as int))
    }
}

/// The channels that a selector expression names, or `None` where it is
/// rejected.
pub open spec fn relaylist_of(s: Seq<char>) -> Option<Seq<u8>> {
    if s == seq!['a', 'l', 'l'] {
        Some(channels_between(0, MAX_CHANNEL + 1))
    } else if u8_of(s) is Some && u8_of(s)->0 <= MAX_CHANNEL {
        Some(seq![u8_of(s)->0])
    } else {
        match first_range_from(s, 0) {
            Some(p) => range_channels(s, p),
            None => None,
        }
    }
}

/// A single digit naming a channel selects exactly that channel, and `all`
/// selects every channel in ascending order.
pub proof fn lemma_single_channel_and_all(c: char)
    requires
        is_digit(c),
        digit_value(c) <= MAX_CHANNEL,
    ensures
        relaylist_of(seq![c]) == Some(seq![digit_value(c) as u8]),
        relaylist_of(seq!['a', 'l', 'l']) == Some(seq![0u8, 1u8, 2u8, 3u8, 4u8, 5u8, 6u8, 7u8]),
{
    let s = seq![c];
    assert(s.drop_last() =~= Seq::<char>::empty());
    assert(decimal_value(Seq::<char>::empty()) == 0);
    assert(decimal_value(s) == digit_value(c));
    assert(s != seq!['a', 'l', 'l']);
    assert(u8_of(s) == Some(digit_value(c) as u8));
    assert(channels_between(0, MAX_CHANNEL + 1) =~= seq![0u8, 1u8, 2u8, 3u8, 4u8, 5u8, 6u8, 7u8]);
}

fn is_digit_char(c: char) -> (r: bool)
    ensures
        r == is_digit(c),
{
    '0' <= c && c <= '9'
}

/// The value of the digits `s[from..to]`, capped at 256.
fn digits_value(s: &str, from: usize, to: usize) -> (v: u32)
    requires
        from <= to <= s@.len(),
        all_digits(s@.subrange(from as int, to as int)),
    ensures
        v as nat == if decimal_value(s@.subrange(from as int, to as int)) <= 255 {
            decimal_value(s@.subrange(from as int, to as int))
        } else {
            256
        },
{
    let mut v: u32 = 0;
    let mut i: usize = from;
    while i < to
        invariant
            from <= i <= to <= s@.len(),
            all_digits(s@.subrange(from as int, to as int)),
            v as nat == if decimal_value(s@.subrange(from as int, i as int)) <= 255 {
                decimal_value(s@.subrange(from as int, i as int))
            } else {
                256
            },
        decreases to - i,
    {
        let c = s.get_char(i);
        assert(is_digit(s@.subrange(from as int, to as int)[i - from]));
        let ghost pre = s@.subrange(from as int, i as int);
        let ghost next = s@.subrange(from as int, i + 1);
        assert(next.drop_last() =~= pre);
        assert(next.last() == c);
        let d = c as u32 - '0' as u32;
        if v <= 255 {
            v = v * 10 + d;
            if v > 255 {
                v = 256;
            }
        } else {
            assert(decimal_value(next) >= decimal_value(pre)) by (nonlinear_arith)
                requires
                    decimal_value(next) == decimal_value(pre) * 10 + digit_value(c),
            ;
        }
        i = i + 1;
    }
    v
}

/// End of the run of digits that starts at `p`.
fn run_end(s: &str, n: usize, p: usize) -> (q: usize)
    requires
        n == s@.len(),
        p <= n,
    ensures
        q == p + digit_run(s@, p as int),
        q <= n,
        all_digits(s@.subrange(p as int, q as int)),
        q < n ==> !is_digit(s@[q as int]),
{
    let mut q: usize = p;
    while q < n && is_digit_char(s.get_char(q))
        invariant
            n == s@.len(),
            p <= q <= n,
            digit_run(s@, p as int) == (q - p) + digit_run(s@, q as int),
            all_digits(s@.subrange(p as int, q as int)),
        decreases n - q,
    {
        assert(s@.subrange(p as int, q + 1) =~= s@.subrange(p as int, q as int).push(s@[q as int]));
        q = q + 1;
    }
    q
}

/// Reads `s` as a byte-sized unsigned integer, as `u8`'s `FromStr` does.
fn parse_u8(s: &str) -> (r: Option<u8>)
    ensures
        r == u8_of(s@),
{
    let n = s.unicode_len();
    let from: usize = if n > 0 && s.get_char(0) == '+' {
        1
    } else {
        0
    };
    let ghost d = s@.subrange(from as int, n as int);
    assert(d =~= if s@.len() > 0 && s@[0] == '+' {
        s@.drop_first()
    } else {
        s@
    });
    if from == n {
        return None;
    }
    let q = run_end(s, n, from);
    if q != n {
        assert(!is_digit(d[q - from]));
        return None;
    }
    let v = digits_value(s, from, n);
    if v <= 255 {
        Some(v as u8)
    } else {
        None
    }
}

fn is_all(s: &str) -> (r: bool)
    ensures
        r == (s@ == seq!['a', 'l', 'l']),
{
    if s.unicode_len() != 3 {
        return false;
    }
    let r = s.get_char(0) == 'a' && s.get_char(1) == 'l' && s.get_char(2) == 'l';
    if r {
        assert(s@ =~= seq!['a', 'l', 'l']);
    }
    r
}

/// Pushes `lo, ..., hi - 1` onto `v`.
fn push_channels(v: &mut Vec<u8>, lo: u8, hi: u8)
    requires
        lo <= hi,
    ensures
        final(v)@ == old(v)@ + channels_between(lo as int, hi as int),
{
    let ghost start = v@;
    let mut c: u8 = lo;
    while c < hi
        invariant
            lo <= c <= hi,
            v@ =~= start + channels_between(lo as int, c as int),
        decreases hi - c,
    {
        v.push(c);
        c = c + 1;
    }
}

/// Parses a channel selector expression into the channels it names, in order.
pub fn parse_relaylist(src: &str) -> (r: Result<Vec<u8>, Error>)
    ensures
        r is Ok <==> relaylist_of(src@) is Some,
        r matches Ok(v) ==> v@ == relaylist_of(src@)->0,
        r matches Err(e) ==> e matches Error::Parse(x) && x@ == src@,
{
    let mut v: Vec<u8> = Vec::new();
    if is_all(src) {
        push_channels(&mut v, 0, MAX_CHANNEL + 1);
        return Ok(v);
    }
    match parse_u8(src) {
        Some(idx) => {
            if idx <= MAX_CHANNEL {
                v.push(idx);
                assert(v@ =~= seq![idx]);
                return Ok(v);
            }
        },
        None => {},
    }
    let n = src.unicode_len();
    let mut p: usize = 0;
    while p < n
        invariant
            n == src@.len(),
            p <= n,
            first_range_from(src@, 0) == first_range_from(src@, p as int),
            v@.len() == 0,
        decreases n - p,
    {
        let q = run_end(src, n, p);
        if n - q >= 2 && src.get_char(q) == '.' && src.get_char(q + 1) == '.' {
            let eq = n - q > 2 && src.get_char(q + 2) == '=';
            let r = if eq {
                q + 3
            } else {
                q + 2
            };
            let e = run_end(src, n, r);
            // A bound above 255 reads as 256, which fails either check
            // below exactly as its true value does.
            let start: u32 = if q > p {
                digits_value(src, p, q)
            } else {
                0
            };
            let end: u32 = if e > r {
                digits_value(src, r, e)
            } else {
                MAX_CHANNEL as u32
            };
            if start > end || end > MAX_CHANNEL as u32 {
                return Err(Error::Parse(src.to_owned()));
            }
            if eq || e == r || q == p {
                push_channels(&mut v, start as u8, end as u8 + 1);
            } else {
                push_channels(&mut v, start as u8, end as u8);
            }
            assert(v@ =~= range_channels(src@, p as int)->0);
            return Ok(v);
        }
        p = p + 1;
    }
    Err(Error::Parse(src.to_owned()))
}

} // verus!
