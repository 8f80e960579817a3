//! Scanning of ASCII-delimited byte text: the building blocks of the parsers
//! for the border router's command output.

use vstd::prelude::*;
use vstd::slice::slice_subrange;

verus! {

/// `i` is the position of the first `b` in `s`, or `s.len()` when `s` holds
/// no `b`.
pub open spec fn is_first(s: Seq<u8>, b: u8, i: int) -> bool {
    &&& 0 <= i <= s.len()
    &&& i < s.len() ==> s[i] == b
    &&& forall|k: int| 0 <= k < i ==> s[k] != b
}

/// Position of the first `b` in `s`, or `s.len()` when there is none.
pub open spec fn index_of(s: Seq<u8>, b: u8) -> int {
    choose|i: int| is_first(s, b, i)
}

/// There is exactly one first position.
pub proof fn lemma_index_of(s: Seq<u8>, b: u8, i: int)
    requires
        is_first(s, b, i),
    ensures
        index_of(s, b) == i,
{
    let j = index_of(s, b);
    assert(is_first(s, b, j));
    if j < i {
        assert(s[j] != b);
    } else if i < j {
        assert(s[i] != b);
    }
}

/// `i` is the position of the first occurrence of the two bytes `a`, `b` in
/// `s`, or `s.len()` when they do not occur.
pub open spec fn is_first_pair(s: Seq<u8>, a: u8, b: u8, i: int) -> bool {
    &&& 0 <= i <= s.len()
    &&& i < s.len() ==> i + 1 < s.len() && s[i] == a && s[i + 1] == b
    &&& forall|k: int| 0 <= k < i && k + 1 < s.len() ==> !(s[k] == a && #[trigger] s[k + 1] == b)
}

/// Position of the first `a`, `b` in `s`, or `s.len()` when there is none.
pub open spec fn pair_index_of(s: Seq<u8>, a: u8, b: u8) -> int {
    choose|i: int| is_first_pair(s, a, b, i)
}

/// There is exactly one first position of a pair.
pub proof fn lemma_pair_index_of(s: Seq<u8>, a: u8, b: u8, i: int)
    requires
        is_first_pair(s, a, b, i),
    ensures
        pair_index_of(s, a, b) == i,
{
    let j = pair_index_of(s, a, b);
    assert(is_first_pair(s, a, b, j));
    if j < i {
        assert(!(s[j] == a && s[j + 1] == b));
    } else if i < j {
        assert(!(s[i] == a && s[i + 1] == b));
    }
}

/// ASCII white space: space, tab, line feed, vertical tab, form feed,
/// carriage return.
pub open spec fn is_space(b: u8) -> bool {
    b == 0x20 || (0x09 <= b <= 0x0d)
}

/// `s` without its leading white space.
pub open spec fn trim_start(s: Seq<u8>) -> Seq<u8>
    decreases s.len(),
{
    if s.len() > 0 && is_space(s[0]) {
        trim_start(s.drop_first())
    } else {
        s
    }
}

/// `s` without its trailing white space.
pub open spec fn trim_end(s: Seq<u8>) -> Seq<u8>
    decreases s.len(),
{
    if s.len() > 0 && is_space(s.last()) {
        trim_end(s.drop_last())
    } else {
        s
    }
}

/// `s` without white space at either end.
pub open spec fn trim(s: Seq<u8>) -> Seq<u8> {
    trim_end(trim_start(s))
}

/// Whether `s` ends with `pat`.
pub open spec fn ends_with(s: Seq<u8>, pat: Seq<u8>) -> bool {
    s.len() >= pat.len() && s.subrange(s.len() - pat.len(), s.len() as int) == pat
}

/// Whether `s` starts with `pat`.
pub open spec fn starts_with(s: Seq<u8>, pat: Seq<u8>) -> bool {
    s.len() >= pat.len() && s.subrange(0, pat.len() as int) == pat
}

/// `s` with every repetition of the non-empty `pat` at its end removed.
pub open spec fn strip_suffix_all(s: Seq<u8>, pat: Seq<u8>) -> Seq<u8>
    decreases s.len(),
{
    if pat.len() > 0 && ends_with(s, pat) {
        strip_suffix_all(s.subrange(0, s.len() - pat.len()), pat)
    } else {
        s
    }
}

/// `s` with every repetition of the non-empty `pat` at its start removed.
pub open spec fn strip_prefix_all(s: Seq<u8>, pat: Seq<u8>) -> Seq<u8>
    decreases s.len(),
{
    if pat.len() > 0 && starts_with(s, pat) {
        strip_prefix_all(s.subrange(pat.len() as int, s.len() as int), pat)
    } else {
        s
    }
}

/// Value of one hexadecimal digit, in either case.
pub open spec fn hex_digit(b: u8) -> Option<u8> {
    if 0x30 <= b <= 0x39 {
        Some((b - 0x30) as u8)
    } else if 0x61 <= b <= 0x66 {
        Some((b - 0x61 + 10) as u8)
    } else if 0x41 <= b <= 0x46 {
        Some((b - 0x41 + 10) as u8)
    } else {
        None
    }
}

/// Whether every byte of `s` is a hexadecimal digit.
pub open spec fn all_hex(s: Seq<u8>) -> bool {
    forall|i: int| 0 <= i < s.len() ==> (#[trigger] hex_digit(s[i])) is Some
}

/// The number that the hexadecimal digits of `s` write, most significant
/// digit first.
pub open spec fn hex_number(s: Seq<u8>) -> nat
    decreases s.len(),
{
    if s.len() == 0 {
        0
    } else {
        hex_number(s.drop_last()) * 16 + hex_digit(s.last()).unwrap_or(0) as nat
    }
}

/// A 16-bit group written as one to four hexadecimal digits.
pub open spec fn hex_group(s: Seq<u8>) -> Option<u16> {
    if 1 <= s.len() <= 4 && all_hex(s) {
        Some(hex_number(s) as u16)
    } else {
        None
    }
}

/// A number of at most four hexadecimal digits fits sixteen bits.
pub proof fn lemma_hex_number_bound(s: Seq<u8>)
    requires
        s.len() <= 4,
    ensures
        hex_number(s) < 0x1_0000,
        s.len() <= 3 ==> hex_number(s) < 0x1000,
        s.len() <= 2 ==> hex_number(s) < 0x100,
        s.len() <= 1 ==> hex_number(s) < 0x10,
        s.len() == 0 ==> hex_number(s) == 0,
    decreases s.len(),
{
    if s.len() > 0 {
        lemma_hex_number_bound(s.drop_last());
    }
}

/// Position of the first `b` in `s`, or `s.len()`.
pub fn find_byte(s: &[u8], b: u8) -> (i: usize)
    ensures
        is_first(s@, b, i as int),
        i as int == index_of(s@, b),
{
    let mut i: usize = 0;
    while i < s.len() && s[i] != b
        invariant
            i <= s@.len(),
            forall|k: int| 0 <= k < i ==> s@[k] != b,
        decreases s@.len() - i,
    {
        i = i + 1;
    }
    proof {
        lemma_index_of(s@, b, i as int);
    }
    i
}

/// Position of the first `a`, `b` in `s`, or `s.len()`.
pub fn find_pair(s: &[u8], a: u8, b: u8) -> (i: usize)
    ensures
        is_first_pair(s@, a, b, i as int),
        i as int == pair_index_of(s@, a, b),
{
    let n = s.len();
    let mut i: usize = 0;
    while n - i >= 2 && !(s[i] == a && s[i + 1] == b)
        invariant
            n == s@.len(),
            i <= n,
            forall|k: int| 0 <= k < i && k + 1 < n ==> !(s@[k] == a && #[trigger] s@[k + 1] == b),
        decreases n - i,
    {
        i = i + 1;
    }
    let r = if n - i >= 2 {
        i
    } else {
        n
    };
    proof {
        lemma_pair_index_of(s@, a, b, r as int);
    }
    r
}

/// The part of `s` between its leading and trailing white space.
pub fn trim_bytes(s: &[u8]) -> (out: &[u8])
    ensures
        out@ == trim(s@),
{
    let n = s.len();
    let mut start: usize = 0;
    assert(s@.subrange(0, n as int) =~= s@);
    while start < n && byte_is_space(s[start])
        invariant
            n == s@.len(),
            start <= n,
            trim_start(s@) == trim_start(s@.subrange(start as int, n as int)),
        decreases n - start,
    {
        proof {
            let cur = s@.subrange(start as int, n as int);
            assert(cur.drop_first() =~= s@.subrange(start + 1, n as int));
        }
        start = start + 1;
    }
    let ghost front = s@.subrange(start as int, n as int);
    assert(trim_start(s@) == front);
    let mut end: usize = n;
    while end > start && byte_is_space(s[end - 1])
        invariant
            n == s@.len(),
            start <= end <= n,
            front == s@.subrange(start as int, n as int),
            trim_end(front) == trim_end(s@.subrange(start as int, end as int)),
        decreases end,
    {
        proof {
            let cur = s@.subrange(start as int, end as int);
            assert(cur.drop_last() =~= s@.subrange(start as int, end - 1));
        }
        end = end - 1;
    }
    slice_subrange(s, start, end)
}

/// Whether `b` is ASCII white space.
pub fn byte_is_space(b: u8) -> (r: bool)
    ensures
        r == is_space(b),
{
    b == 0x20 || (0x09 <= b && b <= 0x0d)
}

/// The bytes of the marker that ends the border router's command output.
pub open spec fn done_marker() -> Seq<u8> {
    seq![0x44u8, 0x6f, 0x6e, 0x65]
}

/// A sequence ends with the marker exactly when its last four bytes spell it.
pub proof fn lemma_ends_with_done(s: Seq<u8>)
    ensures
        ends_with(s, done_marker()) <==> (s.len() >= 4 && s[s.len() - 4] == 0x44 && s[s.len() - 3]
            == 0x6f && s[s.len() - 2] == 0x6e && s[s.len() - 1] == 0x65),
{
    let m = done_marker();
    assert(m.len() == 4 && m[0] == 0x44 && m[1] == 0x6f && m[2] == 0x6e && m[3] == 0x65);
    if s.len() >= 4 {
        let tail = s.subrange(s.len() - 4, s.len() as int);
        assert(tail[0] == s[s.len() - 4] && tail[1] == s[s.len() - 3] && tail[2] == s[s.len() - 2]
            && tail[3] == s[s.len() - 1]);
        if s[s.len() - 4] == 0x44 && s[s.len() - 3] == 0x6f && s[s.len() - 2] == 0x6e && s[s.len()
            - 1] == 0x65 {
            assert(tail =~= m);
        }
    }
}

/// `s` without the `Done` markers at its end.
pub fn strip_done(s: &[u8]) -> (out: &[u8])
    ensures
        out@ == strip_suffix_all(s@, done_marker()),
{
    let mut end: usize = s.len();
    assert(s@.subrange(0, end as int) =~= s@);
    while end >= 4 && s[end - 4] == 0x44 && s[end - 3] == 0x6f && s[end - 2] == 0x6e && s[end - 1]
        == 0x65
        invariant
            end <= s@.len(),
            strip_suffix_all(s@, done_marker()) == strip_suffix_all(
                s@.subrange(0, end as int),
                done_marker(),
            ),
        decreases end,
    {
        proof {
            let cur = s@.subrange(0, end as int);
            lemma_ends_with_done(cur);
            assert(cur.subrange(0, cur.len() - 4) =~= s@.subrange(0, end - 4));
        }
        end = end - 4;
    }
    proof {
        lemma_ends_with_done(s@.subrange(0, end as int));
    }
    slice_subrange(s, 0, end)
}

/// The two bytes that part a routing locator from its address.
pub open spec fn colon_space() -> Seq<u8> {
    seq![0x3au8, 0x20]
}

/// A sequence starts with the separator exactly when its first two bytes
/// spell it.
pub proof fn lemma_starts_with_colon_space(s: Seq<u8>)
    ensures
        starts_with(s, colon_space()) <==> (s.len() >= 2 && s[0] == 0x3a && s[1] == 0x20),
{
    let m = colon_space();
    assert(m.len() == 2 && m[0] == 0x3a && m[1] == 0x20);
    if s.len() >= 2 {
        let head = s.subrange(0, 2);
        assert(head[0] == s[0] && head[1] == s[1]);
        if s[0] == 0x3a && s[1] == 0x20 {
            assert(head =~= m);
        }
    }
}

/// `s` without the `": "` separators at its start.
pub fn strip_colon_space(s: &[u8]) -> (out: &[u8])
    ensures
        out@ == strip_prefix_all(s@, colon_space()),
{
    let n = s.len();
    let mut start: usize = 0;
    assert(s@.subrange(0, n as int) =~= s@);
    while n - start >= 2 && s[start] == 0x3a && s[start + 1] == 0x20
        invariant
            n == s@.len(),
            start <= n,
            strip_prefix_all(s@, colon_space()) == strip_prefix_all(
                s@.subrange(start as int, n as int),
                colon_space(),
            ),
        decreases n - start,
    {
        proof {
            let cur = s@.subrange(start as int, n as int);
            lemma_starts_with_colon_space(cur);
            assert(cur.subrange(2, cur.len() as int) =~= s@.subrange(start + 2, n as int));
        }
        start = start + 2;
    }
    proof {
        lemma_starts_with_colon_space(s@.subrange(start as int, n as int));
    }
    slice_subrange(s, start, n)
}

/// Value of one hexadecimal digit.
pub fn hex_digit_value(b: u8) -> (r: Option<u8>)
    ensures
        r == hex_digit(b),
{
    if 0x30 <= b && b <= 0x39 {
        Some(b - 0x30)
    } else if 0x61 <= b && b <= 0x66 {
        Some(b - 0x61 + 10)
    } else if 0x41 <= b && b <= 0x46 {
        Some(b - 0x41 + 10)
    } else {
        None
    }
}

/// Reads a 16-bit group of one to four hexadecimal digits.
pub fn parse_hex_group(s: &[u8]) -> (r: Option<u16>)
    ensures
        r == hex_group(s@),
{
    let n = s.len();
    if n == 0 || n > 4 {
        return None;
    }
    let mut acc: u16 = 0;
    let mut i: usize = 0;
    while i < n
        invariant
            n == s@.len(),
            1 <= n <= 4,
            i <= n,
            all_hex(s@.subrange(0, i as int)),
            acc == hex_number(s@.subrange(0, i as int)),
        decreases n - i,
    {
        let ghost before = s@.subrange(0, i as int);
        let ghost after = s@.subrange(0, i + 1);
        proof {
            assert(after.drop_last() =~= before);
            assert(after.last() == s@[i as int]);
            lemma_hex_number_bound(before);
        }
        match hex_digit_value(s[i]) {
            None => {
                assert(!all_hex(s@));
                return None;
            },
            Some(d) => {
                proof {
                    assert forall|k: int| 0 <= k < after.len() implies (#[trigger] hex_digit(
                        after[k],
                    )) is Some by {
                        if k < i {
                            assert(before[k] == after[k]);
                        }
                    }
                }
                acc = acc * 16 + d as u16;
            },
        }
        i = i + 1;
    }
    assert(s@.subrange(0, n as int) =~= s@);
    Some(acc)
}

} // verus!
