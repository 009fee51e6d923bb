//! Verified helpers for character-sequence scanning and decimal formatting.
//!
//! Executable functions mirror recursive specification functions over
//! `Seq<char>` views, so contracts elsewhere can speak of views directly.

use vstd::prelude::*;

verus! {

/// Relies on std's String::push: appends exactly one character.
#[verifier::external_body]
pub fn push_char(s: &mut String, c: char)
    ensures
        final(s)@ == old(s)@.push(c),
{
    s.push(c);
}

pub fn str_to_string(s: &str) -> (r: String)
    ensures
        r@ == s@,
{
    String::from_str(s)
}

pub fn str_eq(a: &str, b: &str) -> (r: bool)
    ensures
        r == (a@ == b@),
{
    let an = a.unicode_len();
    let bn = b.unicode_len();
    if an != bn {
        return false;
    }
    let mut i: usize = 0;
    while i < an
        invariant
            an == a@.len(),
            an == b@.len(),
            i <= an,
            forall|j: int| 0 <= j < i ==> a@[j] == b@[j],
        decreases an - i,
    {
        if a.get_char(i) != b.get_char(i) {
            return false;
        }
        i += 1;
    }
    proof {
        assert(a@ =~= b@);
    }
    true
}

pub fn starts_with_str(s: &str, p: &str) -> (r: bool)
    ensures
        r == p@.is_prefix_of(s@),
{
    let pn = p.unicode_len();
    let sn = s.unicode_len();
    if pn > sn {
        return false;
    }
    let mut i: usize = 0;
    while i < pn
        invariant
            pn == p@.len(),
            sn == s@.len(),
            pn <= sn,
            i <= pn,
            forall|j: int| 0 <= j < i ==> p@[j] == s@[j],
        decreases pn - i,
    {
        if p.get_char(i) != s.get_char(i) {
            proof {
                assert(p@.is_prefix_of(s@) ==> p@[i as int] == s@.subrange(0, p@.len() as int)[i as int]);
            }
            return false;
        }
        i += 1;
    }
    proof {
        assert(p@ =~= s@.subrange(0, p@.len() as int));
    }
    true
}

/// The pattern `p` occurs in `s` at position `i`.
pub open spec fn occurs_at(s: Seq<char>, p: Seq<char>, i: int) -> bool {
    0 <= i && i + p.len() <= s.len() && p =~= s.subrange(i, i + p.len())
}

pub fn contains_at(s: &str, p: &str, i: usize) -> (r: bool)
    ensures
        r == occurs_at(s@, p@, i as int),
{
    let pn = p.unicode_len();
    let sn = s.unicode_len();
    if pn > sn || i > sn - pn {
        return false;
    }
    let mut j: usize = 0;
    while j < pn
        invariant
            pn == p@.len(),
            sn == s@.len(),
            i + pn <= sn,
            j <= pn,
            forall|k: int| 0 <= k < j ==> p@[k] == s@[i + k],
        decreases pn - j,
    {
        if p.get_char(j) != s.get_char(i + j) {
            proof {
                assert(occurs_at(s@, p@, i as int) ==> p@[j as int] == s@.subrange(
                    i as int,
                    i + p@.len(),
                )[j as int]);
            }
            return false;
        }
        j += 1;
    }
    proof {
        assert(p@ =~= s@.subrange(i as int, i + p@.len()));
    }
    true
}

/// Position of the first occurrence of `p` in `s`, if any.
pub open spec fn first_match(s: Seq<char>, p: Seq<char>) -> Option<int>
    decreases s.len(),
{
    if p.is_prefix_of(s) {
        Some(0int)
    } else if s.len() == 0 {
        None
    } else {
        match first_match(s.drop_first(), p) {
            Some(i) => Some(i + 1),
            None => None,
        }
    }
}

pub fn find_sub(s: &str, p: &str) -> (r: Option<usize>)
    ensures
        match r {
            Some(i) => first_match(s@, p@) == Some(i as int) && i + p@.len() <= s@.len(),
            None => first_match(s@, p@) is None,
        },
    decreases s@.len(),
{
    if contains_at(s, p, 0) {
        proof {
            assert(p@ =~= s@.subrange(0, p@.len() as int));
        }
        return Some(0);
    }
    let n = s.unicode_len();
    if n == 0 {
        return None;
    }
    proof {
        assert(!p@.is_prefix_of(s@));
    }
    let rest = s.substring_char(1, n);
    proof {
        assert(rest@ =~= s@.drop_first());
    }
    match find_sub(rest, p) {
        Some(i) => Some(i + 1),
        None => None,
    }
}

pub fn contains_sub(s: &str, p: &str) -> (r: bool)
    ensures
        r == (first_match(s@, p@) is Some),
{
    find_sub(s, p).is_some()
}

/// The characters with the Unicode white-space property.
pub open spec fn spec_is_space(c: char) -> bool {
    c == ' ' || c == '\t' || c == '\n' || c == '\r' || c == '\u{b}' || c == '\u{c}' || c
        == '\u{85}' || c == '\u{a0}' || c == '\u{1680}' || ('\u{2000}' as u32 <= c as u32 && c
        as u32 <= '\u{200a}' as u32) || c == '\u{2028}' || c == '\u{2029}' || c == '\u{202f}' || c
        == '\u{205f}' || c == '\u{3000}'
}

pub fn is_space(c: char) -> (r: bool)
    ensures
        r == spec_is_space(c),
{
    c == ' ' || c == '\t' || c == '\n' || c == '\r' || c == '\u{b}' || c == '\u{c}' || c == '\u{85}'
        || c == '\u{a0}' || c == '\u{1680}' || ('\u{2000}' as u32 <= c as u32 && c as u32
        <= '\u{200a}' as u32) || c == '\u{2028}' || c == '\u{2029}' || c == '\u{202f}' || c
        == '\u{205f}' || c == '\u{3000}'
}

/// Index of the first white-space character, or the length if there is none.
pub open spec fn first_space(s: Seq<char>) -> int
    decreases s.len(),
{
    if s.len() == 0 {
        0
    } else if spec_is_space(s[0]) {
        0
    } else {
        1 + first_space(s.drop_first())
    }
}

pub fn find_space(s: &str) -> (r: usize)
    ensures
        r as int == first_space(s@),
        r <= s@.len(),
    decreases s@.len(),
{
    let n = s.unicode_len();
    if n == 0 {
        0
    } else if is_space(s.get_char(0)) {
        0
    } else {
        let rest = s.substring_char(1, n);
        proof {
            assert(rest@ =~= s@.drop_first());
        }
        1 + find_space(rest)
    }
}

/// Index of the first character that is not white space, or the length if
/// all are.
pub open spec fn first_non_space(s: Seq<char>) -> int
    decreases s.len(),
{
    if s.len() == 0 {
        0
    } else if !spec_is_space(s[0]) {
        0
    } else {
        1 + first_non_space(s.drop_first())
    }
}

pub fn find_non_space(s: &str) -> (r: usize)
    ensures
        r as int == first_non_space(s@),
        r <= s@.len(),
    decreases s@.len(),
{
    let n = s.unicode_len();
    if n == 0 {
        0
    } else if !is_space(s.get_char(0)) {
        0
    } else {
        let rest = s.substring_char(1, n);
        proof {
            assert(rest@ =~= s@.drop_first());
        }
        1 + find_non_space(rest)
    }
}

/// The string with its leading white space removed.
pub open spec fn spec_trim_start(s: Seq<char>) -> Seq<char> {
    s.skip(first_non_space(s))
}

pub fn trim_start_chars(s: &str) -> (r: &str)
    ensures
        r@ == spec_trim_start(s@),
{
    let n = s.unicode_len();
    let k = find_non_space(s);
    let r = s.substring_char(k, n);
    proof {
        assert(r@ =~= s@.skip(first_non_space(s@)));
    }
    r
}

/// Index of the first occurrence of `c`, or the length if there is none.
pub open spec fn first_char(s: Seq<char>, c: char) -> int
    decreases s.len(),
{
    if s.len() == 0 {
        0
    } else if s[0] == c {
        0
    } else {
        1 + first_char(s.drop_first(), c)
    }
}

pub fn find_char(s: &str, c: char) -> (r: usize)
    ensures
        r as int == first_char(s@, c),
        r <= s@.len(),
    decreases s@.len(),
{
    let n = s.unicode_len();
    if n == 0 {
        0
    } else if s.get_char(0) == c {
        0
    } else {
        let rest = s.substring_char(1, n);
        proof {
            assert(rest@ =~= s@.drop_first());
        }
        1 + find_char(rest, c)
    }
}

pub open spec fn dec_digit(d: int) -> char {
    if d == 0 {
        '0'
    } else if d == 1 {
        '1'
    } else if d == 2 {
        '2'
    } else if d == 3 {
        '3'
    } else if d == 4 {
        '4'
    } else if d == 5 {
        '5'
    } else if d == 6 {
        '6'
    } else if d == 7 {
        '7'
    } else if d == 8 {
        '8'
    } else {
        '9'
    }
}

/// Decimal digit string of a non-negative integer, most significant first.
pub open spec fn spec_dec(n: int) -> Seq<char>
    recommends
        n >= 0,
    decreases n,
{
    if n < 10 {
        seq![dec_digit(n)]
    } else {
        spec_dec(n / 10).push(dec_digit(n % 10))
    }
}

fn dec_digit_char(d: u64) -> (r: char)
    requires
        d < 10,
    ensures
        r == dec_digit(d as int),
{
    if d == 0 {
        '0'
    } else if d == 1 {
        '1'
    } else if d == 2 {
        '2'
    } else if d == 3 {
        '3'
    } else if d == 4 {
        '4'
    } else if d == 5 {
        '5'
    } else if d == 6 {
        '6'
    } else if d == 7 {
        '7'
    } else if d == 8 {
        '8'
    } else {
        '9'
    }
}

pub fn push_dec_u64(s: &mut String, n: u64)
    ensures
        final(s)@ == old(s)@ + spec_dec(n as int),
    decreases n,
{
    if n >= 10 {
        push_dec_u64(s, n / 10);
        let c = dec_digit_char(n % 10);
        push_char(s, c);
    } else {
        let c = dec_digit_char(n);
        push_char(s, c);
        proof {
            assert(old(s)@.push(c) =~= old(s)@ + spec_dec(n as int));
        }
    }
}

pub fn u64_to_string(n: u64) -> (r: String)
    ensures
        r@ == spec_dec(n as int),
{
    let mut s = String::new();
    push_dec_u64(&mut s, n);
    proof {
        assert(Seq::<char>::empty() + spec_dec(n as int) =~= spec_dec(n as int));
    }
    s
}

/// Decimal string of an integer, with a leading minus sign when negative.
pub open spec fn spec_dec_signed(n: int) -> Seq<char> {
    if n < 0 {
        seq!['-'] + spec_dec(-n)
    } else {
        spec_dec(n)
    }
}

pub fn i64_to_string(n: i64) -> (r: String)
    ensures
        r@ == spec_dec_signed(n as int),
{
    if n < 0 {
        let mag: u64 = ((-(n + 1)) as u64) + 1;
        let mut s = String::new();
        push_char(&mut s, '-');
        push_dec_u64(&mut s, mag);
        proof {
            assert(Seq::<char>::empty().push('-') + spec_dec(mag as int) =~= spec_dec_signed(
                n as int,
            ));
        }
        s
    } else {
        u64_to_string(n as u64)
    }
}

} // verus!
