//! Executable scanning over characters. Each routine works on a range of a
//! character vector and is proved to compute the corresponding function of
//! [`crate::text`].

use crate::text::{
    decimal, digit, find, is_whitespace, position, tokens, trim, trim_end, trim_start, word_len,
};
use vstd::prelude::*;
use vstd::string::*;
use vstd::utf8::{encode_utf8, encode_utf8_decode_utf8};

verus! {

/// Whether `c` is a whitespace character.
pub fn char_is_whitespace(c: char) -> (res: bool)
    ensures
        res == is_whitespace(c),
{
    let u: u32 = c as u32;
    (0x09 <= u && u <= 0x0D) || u == 0x20 || u == 0x85 || u == 0xA0 || u == 0x1680 || (0x2000
        <= u && u <= 0x200A) || u == 0x2028 || u == 0x2029 || u == 0x202F || u == 0x205F || u
        == 0x3000
}

/// The characters of a string, in order.
pub fn chars_of(s: &str) -> (res: Vec<char>)
    ensures
        res@ == s@,
{
    let mut chars: Vec<char> = Vec::new();
    for c in it: s.chars()
        invariant
            chars@ == it.seq().take(it.index()),
            it.seq() == s@,
    {
        chars.push(c);
    }
    chars
}

/// Whether two strings hold the same text.
pub fn same_text(a: &str, b: &str) -> (res: bool)
    ensures
        res == (a@ == b@),
{
    let x = a.as_bytes();
    let y = b.as_bytes();
    proof {
        encode_utf8_decode_utf8(a@);
        encode_utf8_decode_utf8(b@);
    }
    if x.len() != y.len() {
        return false;
    }
    let mut i: usize = 0;
    while i < x.len()
        invariant
            i <= x.len(),
            x.len() == y.len(),
            x@ == encode_utf8(a@),
            y@ == encode_utf8(b@),
            forall|j: int| 0 <= j < i ==> x@[j] == y@[j],
        decreases x.len() - i,
    {
        if x[i] != y[i] {
            assert(x@[i as int] != y@[i as int]);
            return false;
        }
        i += 1;
    }
    assert(x@ =~= y@);
    true
}

/// The characters of `s` from index `from` up to `to`, as a string.
pub fn substring(s: &str, from: usize, to: usize) -> (res: String)
    requires
        from <= to <= s@.len(),
    ensures
        res@ == s@.subrange(from as int, to as int),
{
    s.substring_char(from, to).to_owned()
}

/// Whether `text` begins with `prefix`.
pub fn starts_with(text: &Vec<char>, prefix: &Vec<char>) -> (res: bool)
    ensures
        res == prefix@.is_prefix_of(text@),
{
    if prefix.len() > text.len() {
        return false;
    }
    let mut i: usize = 0;
    while i < prefix.len()
        invariant
            i <= prefix.len() <= text.len(),
            forall|j: int| 0 <= j < i ==> text@[j] == prefix@[j],
        decreases prefix.len() - i,
    {
        if text[i] != prefix[i] {
            assert(text@.subrange(0, prefix@.len() as int)[i as int] != prefix@[i as int]);
            return false;
        }
        i += 1;
    }
    assert(prefix@ =~= text@.subrange(0, prefix@.len() as int));
    true
}

/// The first index in `from..to` at which `c` stands, or `to` if it stands nowhere
/// in that range.
pub fn find_char(chars: &Vec<char>, from: usize, to: usize, c: char) -> (res: usize)
    requires
        from <= to <= chars.len(),
    ensures
        from <= res <= to,
        res - from == position(chars@.subrange(from as int, to as int), c),
{
    let mut i: usize = from;
    while i < to && chars[i] != c
        invariant
            from <= i <= to <= chars.len(),
            position(chars@.subrange(from as int, to as int), c) == (i - from) + position(
                chars@.subrange(i as int, to as int),
                c,
            ),
        decreases to - i,
    {
        assert(chars@.subrange(i as int, to as int).drop_first() =~= chars@.subrange(
            i as int + 1,
            to as int,
        ));
        i += 1;
    }
    i
}

/// The range within `from..to` that is left when the whitespace on either side
/// is removed.
pub fn trim_range(chars: &Vec<char>, from: usize, to: usize) -> (res: (usize, usize))
    requires
        from <= to <= chars.len(),
    ensures
        from <= res.0 <= res.1 <= to,
        chars@.subrange(res.0 as int, res.1 as int) == trim(
            chars@.subrange(from as int, to as int),
        ),
{
    let mut a: usize = from;
    while a < to && char_is_whitespace(chars[a])
        invariant
            from <= a <= to <= chars.len(),
            trim_start(chars@.subrange(from as int, to as int)) == trim_start(
                chars@.subrange(a as int, to as int),
            ),
        decreases to - a,
    {
        assert(chars@.subrange(a as int, to as int).drop_first() =~= chars@.subrange(
            a as int + 1,
            to as int,
        ));
        a += 1;
    }
    let mut b: usize = to;
    while a < b && char_is_whitespace(chars[b - 1])
        invariant
            a <= b <= to <= chars.len(),
            trim_end(chars@.subrange(a as int, to as int)) == trim_end(
                chars@.subrange(a as int, b as int),
            ),
        decreases b - a,
    {
        assert(chars@.subrange(a as int, b as int).drop_last() =~= chars@.subrange(
            a as int,
            b as int - 1,
        ));
        b -= 1;
    }
    (a, b)
}

/// The text that each of `ranges` selects from `chars`.
pub open spec fn selected(chars: Seq<char>, ranges: Seq<(usize, usize)>) -> Seq<Seq<char>> {
    ranges.map_values(|r: (usize, usize)| chars.subrange(r.0 as int, r.1 as int))
}

/// The ranges of the words that stand in `from..to`, in order.
pub fn word_ranges(chars: &Vec<char>, from: usize, to: usize) -> (res: Vec<(usize, usize)>)
    requires
        from <= to <= chars.len(),
    ensures
        selected(chars@, res@) == tokens(chars@.subrange(from as int, to as int)),
        forall|i: int| 0 <= i < res.len() ==> from <= (#[trigger] res[i]).0 <= res[i].1 <= to,
{
    let mut ranges: Vec<(usize, usize)> = Vec::new();
    let mut pos: usize = from;
    assert(selected(chars@, ranges@) =~= Seq::<Seq<char>>::empty());
    while pos < to
        invariant
            from <= pos <= to <= chars.len(),
            tokens(chars@.subrange(from as int, to as int)) == selected(chars@, ranges@)
                + tokens(chars@.subrange(pos as int, to as int)),
            forall|i: int|
                0 <= i < ranges.len() ==> from <= (#[trigger] ranges[i]).0 <= ranges[i].1 <= to,
        decreases to - pos,
    {
        let ghost rest = chars@.subrange(pos as int, to as int);
        if char_is_whitespace(chars[pos]) {
            assert(rest.drop_first() =~= chars@.subrange(pos as int + 1, to as int));
            pos += 1;
        } else {
            let start: usize = pos;
            while pos < to && !char_is_whitespace(chars[pos])
                invariant
                    start <= pos <= to <= chars.len(),
                    word_len(rest) == (pos - start) + word_len(
                        chars@.subrange(pos as int, to as int),
                    ),
                    rest == chars@.subrange(start as int, to as int),
                decreases to - pos,
            {
                assert(chars@.subrange(pos as int, to as int).drop_first() =~= chars@.subrange(
                    pos as int + 1,
                    to as int,
                ));
                pos += 1;
            }
            let ghost before = selected(chars@, ranges@);
            ranges.push((start, pos));
            proof {
                let n = word_len(rest) as int;
                assert(n == pos - start);
                assert(rest.take(n) =~= chars@.subrange(start as int, pos as int));
                assert(rest.skip(n) =~= chars@.subrange(pos as int, to as int));
                assert(selected(chars@, ranges@) =~= before + seq![rest.take(n)]);
            }
        }
    }
    ranges
}

/// The index at which `pattern` first occurs in `chars`, if it occurs at all.
pub fn find_pattern(chars: &Vec<char>, pattern: &Vec<char>) -> (res: Option<usize>)
    ensures
        match find(chars@, pattern@) {
            Some(i) => res == Some(i as usize) && i + pattern@.len() <= chars@.len(),
            None => res is None,
        },
{
    let n: usize = chars.len();
    let mut i: usize = 0;
    assert(chars@.subrange(0, n as int) =~= chars@);
    loop
        invariant
            i <= n == chars.len(),
            match find(chars@.subrange(i as int, n as int), pattern@) {
                Some(k) => find(chars@, pattern@) == Some((k + i) as nat),
                None => find(chars@, pattern@) is None,
            },
        decreases n - i,
    {
        let ghost rest = chars@.subrange(i as int, n as int);
        if occurs_at(chars, i, pattern) {
            assert(chars@.subrange(i as int, n as int) =~= chars@.skip(i as int));
            return Some(i);
        }
        if i == n {
            return None;
        }
        assert(rest.drop_first() =~= chars@.subrange(i as int + 1, n as int));
        i += 1;
    }
}

/// Whether `pattern` stands in `chars` at index `at`.
fn occurs_at(chars: &Vec<char>, at: usize, pattern: &Vec<char>) -> (res: bool)
    requires
        at <= chars.len(),
    ensures
        res == pattern@.is_prefix_of(chars@.skip(at as int)),
{
    if pattern.len() > chars.len() - at {
        return false;
    }
    let ghost rest = chars@.skip(at as int);
    let mut j: usize = 0;
    while j < pattern.len()
        invariant
            at <= chars.len(),
            j <= pattern.len() <= chars.len() - at,
            rest == chars@.skip(at as int),
            forall|k: int| 0 <= k < j ==> rest[k] == pattern@[k],
        decreases pattern.len() - j,
    {
        if chars[at + j] != pattern[j] {
            assert(rest.subrange(0, pattern@.len() as int)[j as int] != pattern@[j as int]);
            return false;
        }
        j += 1;
    }
    assert(pattern@ =~= rest.subrange(0, pattern@.len() as int));
    true
}

/// The string that writes one decimal digit.
fn digit_text(d: usize) -> (res: &'static str)
    requires
        d < 10,
    ensures
        res@ == seq![digit(d as nat)],
{
    proof {
        reveal_strlit("0");
        reveal_strlit("1");
        reveal_strlit("2");
        reveal_strlit("3");
        reveal_strlit("4");
        reveal_strlit("5");
        reveal_strlit("6");
        reveal_strlit("7");
        reveal_strlit("8");
        reveal_strlit("9");
    }
    let text = if d == 0 {
        "0"
    } else if d == 1 {
        "1"
    } else if d == 2 {
        "2"
    } else if d == 3 {
        "3"
    } else if d == 4 {
        "4"
    } else if d == 5 {
        "5"
    } else if d == 6 {
        "6"
    } else if d == 7 {
        "7"
    } else if d == 8 {
        "8"
    } else {
        "9"
    };
    assert(text@ =~= seq![digit(d as nat)]);
    text
}

/// Appends `n`, written in decimal, to `out`.
pub fn push_decimal(out: &mut String, n: usize)
    ensures
        final(out)@ == old(out)@ + decimal(n as nat),
    decreases n,
{
    if n >= 10 {
        push_decimal(out, n / 10);
    }
    out.append(digit_text(n % 10));
    assert(final(out)@ =~= old(out)@ + decimal(n as nat));
}

/// `n` written in decimal.
pub fn decimal_string(n: usize) -> (res: String)
    ensures
        res@ == decimal(n as nat),
{
    let mut out = String::new();
    push_decimal(&mut out, n);
    assert(out@ =~= decimal(n as nat));
    out
}

} // verus!
