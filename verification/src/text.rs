//! Character-level text utilities shared by the configuration loader and the
//! chat-template normalizer: line splitting, trimming, joining, and decimal
//! parsing and formatting.

use vstd::prelude::*;
use vstd::std_specs::iter::IteratorSpec;

verus! {

/// The whitespace characters that trimming removes: space, tab and carriage
/// return. (Line feeds never occur inside a line.)
pub open spec fn is_space_char(c: char) -> bool {
    c == ' ' || c == '\t' || c == '\r'
}

/// `s` with leading whitespace removed.
pub open spec fn spec_trim_start(s: Seq<char>) -> Seq<char>
    decreases s.len(),
{
    if s.len() > 0 && is_space_char(s[0]) {
        spec_trim_start(s.drop_first())
    } else {
        s
    }
}

/// `s` with trailing whitespace removed.
pub open spec fn spec_trim_end(s: Seq<char>) -> Seq<char>
    decreases s.len(),
{
    if s.len() > 0 && is_space_char(s.last()) {
        spec_trim_end(s.drop_last())
    } else {
        s
    }
}

/// `s` with leading and trailing whitespace removed.
pub open spec fn spec_trim(s: Seq<char>) -> Seq<char> {
    spec_trim_end(spec_trim_start(s))
}

/// Index of the first occurrence of `c` in `s`, or -1 when absent.
pub open spec fn spec_find(s: Seq<char>, c: char) -> int
    decreases s.len(),
{
    if s.len() == 0 {
        -1
    } else if s[0] == c {
        0
    } else {
        let r = spec_find(s.drop_first(), c);
        if r < 0 {
            -1
        } else {
            r + 1
        }
    }
}

/// `spec_find` finds within the sequence, or reports absence.
pub proof fn lemma_find_bounds(s: Seq<char>, c: char)
    ensures
        -1 <= spec_find(s, c) < s.len(),
        spec_find(s, c) >= 0 ==> s[spec_find(s, c)] == c,
        spec_find(s, c) >= 0 ==> forall|j: int| 0 <= j < spec_find(s, c) ==> s[j] != c,
        spec_find(s, c) == -1 ==> forall|j: int| 0 <= j < s.len() ==> s[j] != c,
    decreases s.len(),
{
    if s.len() > 0 && s[0] != c {
        lemma_find_bounds(s.drop_first(), c);
        assert forall|j: int| 1 <= j < s.len() implies s[j] == s.drop_first()[j - 1] by {
        }
    }
}

/// The lines of `s`, split on line feeds. The line feeds themselves are not
/// part of any line; a trailing line feed yields a final empty line.
pub open spec fn spec_lines(s: Seq<char>) -> Seq<Seq<char>>
    decreases s.len(),
    via spec_lines_decreases
{
    let i = spec_find(s, '\n');
    if i < 0 {
        seq![s]
    } else {
        seq![s.take(i)] + spec_lines(s.skip(i + 1))
    }
}

#[via_fn]
proof fn spec_lines_decreases(s: Seq<char>) {
    lemma_find_bounds(s, '\n');
}

/// The concatenation of `parts`, with no separator.
pub open spec fn spec_concat(parts: Seq<Seq<char>>) -> Seq<char>
    decreases parts.len(),
{
    if parts.len() == 0 {
        Seq::empty()
    } else {
        parts[0] + spec_concat(parts.drop_first())
    }
}

/// The views of a sequence of character vectors.
pub open spec fn seq_views(parts: Seq<Vec<char>>) -> Seq<Seq<char>> {
    parts.map_values(|p: Vec<char>| p@)
}

pub proof fn lemma_concat_push(parts: Seq<Seq<char>>, last: Seq<char>)
    ensures
        spec_concat(parts.push(last)) == spec_concat(parts) + last,
    decreases parts.len(),
{
    if parts.len() == 0 {
        assert(parts.push(last).drop_first() =~= Seq::<Seq<char>>::empty());
        assert(parts.push(last)[0] == last);
        assert(spec_concat(parts.push(last)) == last + spec_concat(
            Seq::<Seq<char>>::empty(),
        ));
        assert(spec_concat(Seq::<Seq<char>>::empty()) == Seq::<char>::empty());
        assert(last + Seq::<char>::empty() =~= last);
        assert(spec_concat(parts) + last =~= last);
    } else {
        assert(parts.push(last)[0] == parts[0]);
        assert(parts.push(last).drop_first() =~= parts.drop_first().push(last));
        lemma_concat_push(parts.drop_first(), last);
        assert(spec_concat(parts.push(last)) == parts[0] + (spec_concat(parts.drop_first())
            + last));
        assert(parts[0] + (spec_concat(parts.drop_first()) + last) =~= (parts[0] + spec_concat(
            parts.drop_first(),
        )) + last);
    }
}

/// The characters of a string, in order.
pub fn chars_of(s: &str) -> (r: Vec<char>)
    ensures
        r@ == s@,
{
    broadcast use vstd::string::group_string_axioms;

    let mut it = s.chars();
    let mut r: Vec<char> = Vec::new();
    loop
        invariant
            it.decrease() is Some,
            r@ + it.remaining() == s@,
        ensures
            r@ == s@,
        decreases it.decrease()->0,
    {
        match it.next() {
            Some(c) => {
                r.push(c);
                proof {
                    assert(r@ + it.remaining() =~= s@);
                }
            },
            None => {
                proof {
                    assert(r@ =~= s@);
                }
                break ;
            },
        }
    }
    r
}

/// Relies on `core::iter::Iterator::collect` for `String`: the collected
/// string holds exactly the characters of the slice, in order.
#[verifier::external_body]
pub fn string_from_chars(v: &[char]) -> (r: String)
    ensures
        r@ == v@,
{
    v.iter().collect()
}

/// Whether `c` is trimmable whitespace.
pub fn is_space(c: char) -> (r: bool)
    ensures
        r == is_space_char(c),
{
    c == ' ' || c == '\t' || c == '\r'
}

pub proof fn lemma_trim_start_skip(s: Seq<char>, i: int)
    requires
        0 <= i <= s.len(),
        forall|j: int| 0 <= j < i ==> is_space_char(s[j]),
        i == s.len() || !is_space_char(s[i]),
    ensures
        spec_trim_start(s) == s.skip(i),
    decreases i,
{
    if i == 0 {
        assert(s.skip(0) =~= s);
    } else {
        assert(is_space_char(s[0]));
        lemma_trim_start_skip(s.drop_first(), i - 1);
        assert(s.drop_first().skip(i - 1) =~= s.skip(i));
    }
}

pub proof fn lemma_trim_end_take(s: Seq<char>, i: int)
    requires
        0 <= i <= s.len(),
        forall|j: int| i <= j < s.len() ==> is_space_char(s[j]),
        i == 0 || !is_space_char(s[i - 1]),
    ensures
        spec_trim_end(s) == s.take(i),
    decreases s.len() - i,
{
    if i == s.len() {
        assert(s.take(i) =~= s);
    } else {
        assert(is_space_char(s.last()));
        lemma_trim_end_take(s.drop_last(), i);
        assert(s.drop_last().take(i) =~= s.take(i));
    }
}

/// The slice with leading and trailing whitespace removed, as a fresh vector.
pub fn trim_chars(v: &[char]) -> (r: Vec<char>)
    ensures
        r@ == spec_trim(v@),
{
    let mut start: usize = 0;
    while start < v.len() && is_space(v[start])
        invariant
            0 <= start <= v@.len(),
            forall|j: int| 0 <= j < start ==> is_space_char(v@[j]),
        decreases v@.len() - start,
    {
        start = start + 1;
    }
    proof {
        lemma_trim_start_skip(v@, start as int);
    }
    let ghost t = v@.skip(start as int);
    let mut end: usize = v.len();
    while end > start && is_space(v[end - 1])
        invariant
            start <= end <= v@.len(),
            forall|j: int| end <= j < v@.len() ==> is_space_char(v@[j]),
        decreases end,
    {
        end = end - 1;
    }
    proof {
        lemma_trim_end_take(t, end - start);
        assert(t.take(end - start) =~= v@.subrange(start as int, end as int));
    }
    let mut r: Vec<char> = Vec::new();
    let mut i: usize = start;
    while i < end
        invariant
            start <= i <= end <= v@.len(),
            r@ == v@.subrange(start as int, i as int),
        decreases end - i,
    {
        r.push(v[i]);
        proof {
            assert(r@ =~= v@.subrange(start as int, i + 1));
        }
        i = i + 1;
    }
    r
}

/// Finding `c` past a prefix that lacks it lands just after the prefix.
pub proof fn lemma_find_concat(a: Seq<char>, c: char, b: Seq<char>)
    requires
        spec_find(a, c) == -1,
    ensures
        spec_find(a + seq![c] + b, c) == a.len(),
    decreases a.len(),
{
    let s = a + seq![c] + b;
    if a.len() == 0 {
        assert(s[0] == c);
    } else {
        lemma_find_bounds(a, c);
        assert(s[0] == a[0]);
        assert(s[0] != c);
        assert(s.drop_first() =~= a.drop_first() + seq![c] + b);
        lemma_find_concat(a.drop_first(), c, b);
    }
}

/// Splitting off one full line: a line-feed-free prefix becomes the first line.
pub proof fn lemma_lines_prefix(cur: Seq<char>, rest: Seq<char>)
    requires
        spec_find(cur, '\n') == -1,
    ensures
        spec_lines(cur + seq!['\n'] + rest) == seq![cur] + spec_lines(rest),
{
    let s = cur + seq!['\n'] + rest;
    lemma_find_concat(cur, '\n', rest);
    assert(s.take(cur.len() as int) =~= cur);
    assert(s.skip(cur.len() as int + 1) =~= rest);
}

/// The lines of `v`, split on line feeds.
pub fn split_lines(v: &[char]) -> (r: Vec<Vec<char>>)
    ensures
        seq_views(r@) == spec_lines(v@),
{
    let mut acc: Vec<Vec<char>> = Vec::new();
    let mut cur: Vec<char> = Vec::new();
    let mut i: usize = 0;
    proof {
        assert(seq_views(acc@) =~= Seq::<Seq<char>>::empty());
        assert(cur@ + v@.skip(0) =~= v@);
        assert(seq_views(acc@) + spec_lines(cur@ + v@.skip(0)) =~= spec_lines(v@));
    }
    while i < v.len()
        invariant
            0 <= i <= v@.len(),
            spec_find(cur@, '\n') == -1,
            spec_lines(v@) == seq_views(acc@) + spec_lines(cur@ + v@.skip(i as int)),
        decreases v@.len() - i,
    {
        let c = v[i];
        if c == '\n' {
            proof {
                assert(cur@ + v@.skip(i as int) =~= cur@ + seq!['\n'] + v@.skip(i + 1));
                lemma_lines_prefix(cur@, v@.skip(i + 1));
            }
            acc.push(cur);
            cur = Vec::new();
            proof {
                assert(seq_views(acc@) =~= seq_views(acc@.drop_last()).push(acc@.last()@));
                assert(seq_views(acc@) + spec_lines(v@.skip(i + 1)) =~= seq_views(acc@.drop_last())
                    + (seq![acc@.last()@] + spec_lines(v@.skip(i + 1))));
                assert(cur@ + v@.skip(i + 1) =~= v@.skip(i + 1));
            }
        } else {
            let ghost prev = cur@;
            cur.push(c);
            proof {
                lemma_find_bounds(prev, '\n');
                lemma_find_bounds(cur@, '\n');
                assert(cur@ + v@.skip(i + 1) =~= prev + v@.skip(i as int));
            }
        }
        i = i + 1;
    }
    proof {
        assert(cur@ + v@.skip(i as int) =~= cur@);
    }
    acc.push(cur);
    proof {
        assert(seq_views(acc@) =~= seq_views(acc@.drop_last()).push(acc@.last()@));
        assert(seq_views(acc@) =~= spec_lines(v@));
    }
    acc
}

/// Appends every character of `part` to `out`.
pub fn push_all(out: &mut Vec<char>, part: &[char])
    ensures
        final(out)@ == old(out)@ + part@,
{
    let mut i: usize = 0;
    while i < part.len()
        invariant
            0 <= i <= part@.len(),
            out@ == old(out)@ + part@.take(i as int),
        decreases part@.len() - i,
    {
        out.push(part[i]);
        proof {
            assert(out@ =~= old(out)@ + part@.take(i + 1));
        }
        i = i + 1;
    }
    proof {
        assert(out@ =~= old(out)@ + part@);
    }
}

/// The concatenation of all the given parts, in order, with no separator.
pub fn concat_all(parts: &Vec<Vec<char>>) -> (r: Vec<char>)
    ensures
        r@ == spec_concat(seq_views(parts@)),
{
    let mut r: Vec<char> = Vec::new();
    let mut i: usize = 0;
    while i < parts.len()
        invariant
            0 <= i <= parts@.len(),
            r@ == spec_concat(seq_views(parts@.take(i as int))),
        decreases parts@.len() - i,
    {
        push_all(&mut r, parts[i].as_slice());
        proof {
            assert(seq_views(parts@.take(i + 1)) =~= seq_views(parts@.take(i as int)).push(
                parts@[i as int]@,
            ));
            lemma_concat_push(seq_views(parts@.take(i as int)), parts@[i as int]@);
        }
        i = i + 1;
    }
    proof {
        assert(parts@.take(parts@.len() as int) =~= parts@);
    }
    r
}

/// Whether the characters of `v` spell exactly the string `s`.
pub fn chars_eq_str(v: &[char], s: &str) -> (r: bool)
    ensures
        r == (v@ == s@),
{
    let sc = chars_of(s);
    if v.len() != sc.len() {
        proof {
            assert(v@ != s@);
        }
        return false;
    }
    let mut i: usize = 0;
    while i < v.len()
        invariant
            0 <= i <= v@.len(),
            v@.len() == sc@.len(),
            sc@ == s@,
            forall|j: int| 0 <= j < i ==> v@[j] == sc@[j],
        decreases v@.len() - i,
    {
        if v[i] != sc[i] {
            proof {
                assert(v@[i as int] != s@[i as int]);
            }
            return false;
        }
        i = i + 1;
    }
    proof {
        assert(v@ =~= s@);
    }
    true
}

/// Whether `c` is a decimal digit.
pub open spec fn is_digit_char(c: char) -> bool {
    48 <= c as u32 <= 57
}

/// The numeric value of a digit character.
pub open spec fn digit_val(c: char) -> int {
    c as u32 - 48
}

/// The value of an all-digit sequence read as a decimal numeral.
pub open spec fn dec_val(s: Seq<char>) -> int
    decreases s.len(),
{
    if s.len() == 0 {
        0
    } else {
        dec_val(s.drop_last()) * 10 + digit_val(s.last())
    }
}

/// Whether every character of `s` is a decimal digit.
pub open spec fn all_digits(s: Seq<char>) -> bool {
    forall|j: int| 0 <= j < s.len() ==> is_digit_char(s[j])
}

/// What parsing an unsigned 16-bit decimal numeral yields: the numeral may
/// carry one leading plus sign, must be otherwise all digits and non-empty,
/// and must not exceed the 16-bit range.
pub open spec fn spec_parse_u16(s: Seq<char>) -> Option<u16> {
    let t = if s.len() > 0 && s[0] == '+' {
        s.drop_first()
    } else {
        s
    };
    if t.len() > 0 && all_digits(t) && dec_val(t) <= 65535 {
        Some(dec_val(t) as u16)
    } else {
        None
    }
}

proof fn lemma_dec_val_nonneg(s: Seq<char>)
    requires
        all_digits(s),
    ensures
        dec_val(s) >= 0,
    decreases s.len(),
{
    if s.len() > 0 {
        assert(all_digits(s.drop_last()));
        lemma_dec_val_nonneg(s.drop_last());
    }
}

proof fn lemma_dec_val_extend_large(s: Seq<char>, i: int)
    requires
        all_digits(s),
        0 <= i <= s.len(),
        dec_val(s.take(i)) > 65535,
    ensures
        dec_val(s) > 65535,
    decreases s.len() - i,
{
    if i == s.len() {
        assert(s.take(i) =~= s);
    } else {
        assert(s.take(i + 1).drop_last() =~= s.take(i));
        assert(all_digits(s.take(i + 1)));
        assert(dec_val(s.take(i + 1)) == dec_val(s.take(i)) * 10 + digit_val(s.take(i + 1).last()));
        lemma_dec_val_extend_large(s, i + 1);
    }
}

/// Parses an unsigned 16-bit decimal numeral.
pub fn parse_u16(v: &[char]) -> (r: Option<u16>)
    ensures
        r == spec_parse_u16(v@),
{
    let start: usize = if v.len() > 0 && v[0] == '+' {
        1
    } else {
        0
    };
    let ghost t = if v@.len() > 0 && v@[0] == '+' {
        v@.drop_first()
    } else {
        v@
    };
    proof {
        assert(t =~= v@.skip(start as int));
    }
    if v.len() == start {
        return None;
    }
    let mut acc: u32 = 0;
    let mut i: usize = start;
    while i < v.len()
        invariant
            start <= i <= v@.len(),
            start < v@.len(),
            start == (if v@.len() > 0 && v@[0] == '+' {
                1int
            } else {
                0int
            }),
            t == (if v@.len() > 0 && v@[0] == '+' {
                v@.drop_first()
            } else {
                v@
            }),
            t == v@.skip(start as int),
            acc <= 65535,
            all_digits(t.take(i - start)),
            acc == dec_val(t.take(i - start)),
        decreases v@.len() - i,
    {
        let c = v[i];
        let u = c as u32;
        if !(48 <= u && u <= 57) {
            proof {
                assert(t[i - start] == v@[i as int]);
                assert(!is_digit_char(t[i - start]));
            }
            return None;
        }
        let d = u - 48;
        let ghost k = i - start;
        proof {
            assert(t.take(k + 1).drop_last() =~= t.take(k as int));
            assert(t.take(k + 1).last() == v@[i as int]);
            assert(dec_val(t.take(k + 1)) == dec_val(t.take(k as int)) * 10 + digit_val(
                t.take(k + 1).last(),
            ));
            assert forall|j: int| 0 <= j < k + 1 implies is_digit_char(#[trigger] t.take(k + 1)[j]) by {
                if j < k {
                    assert(t.take(k + 1)[j] == t.take(k as int)[j]);
                    assert(is_digit_char(t.take(k as int)[j]));
                } else {
                    assert(t.take(k + 1)[j] == v@[i as int]);
                }
            }
            assert(all_digits(t.take(k + 1)));
        }
        acc = acc * 10 + d;
        i = i + 1;
        if acc > 65535 {
            proof {
                assert(i - start == k + 1);
                assert(dec_val(t.take(k + 1)) == acc);
                if all_digits(t) {
                    lemma_dec_val_extend_large(t, k + 1);
                }
            }
            return None;
        }
    }
    proof {
        assert(t.take(i - start) =~= t);
    }
    Some(acc as u16)
}

/// The character for a digit value.
pub open spec fn digit_char(d: int) -> char {
    ((d + 48) as u8) as char
}

/// The decimal numeral for `n`: no sign, no leading zero except for zero
/// itself.
pub open spec fn dec_repr(n: int) -> Seq<char>
    decreases n,
{
    if n < 10 {
        seq![digit_char(n)]
    } else {
        dec_repr(n / 10).push(digit_char(n % 10))
    }
}

/// The decimal numeral reads back as the number it was written from.
pub proof fn lemma_dec_repr_val(n: int)
    requires
        0 <= n,
    ensures
        dec_repr(n).len() >= 1,
        all_digits(dec_repr(n)),
        dec_val(dec_repr(n)) == n,
        dec_repr(n)[0] != '+',
    decreases n,
{
    if n < 10 {
        assert(digit_char(n) as u32 == n + 48);
        assert(dec_repr(n).drop_last() =~= Seq::<char>::empty());
        assert(dec_val(dec_repr(n)) == dec_val(Seq::<char>::empty()) * 10 + digit_val(
            dec_repr(n).last(),
        ));
    } else {
        lemma_dec_repr_val(n / 10);
        assert(0 <= n % 10 < 10);
        assert(digit_char(n % 10) as u32 == n % 10 + 48);
        assert(dec_repr(n).drop_last() =~= dec_repr(n / 10));
    }
}

/// Writes `n` as a decimal numeral.
pub fn u16_to_chars(n: u16) -> (r: Vec<char>)
    ensures
        r@ == dec_repr(n as int),
{
    let mut digits: Vec<char> = Vec::new();
    let mut m: u16 = n;
    loop
        invariant_except_break
            dec_repr(n as int) == dec_repr(m as int) + digits@,
        ensures
            digits@ == dec_repr(n as int),
        decreases m,
    {
        let d = (m % 10) as u8 + 48;
        let ghost prev = digits@;
        digits.insert(0, d as char);
        proof {
            assert(digits@ =~= seq![digit_char(m as int % 10)] + prev);
        }
        if m < 10 {
            proof {
                assert(dec_repr(m as int) =~= seq![digit_char(m as int)]);
                assert(dec_repr(m as int) + prev =~= digits@);
            }
            break ;
        }
        proof {
            assert(dec_repr(m as int) =~= dec_repr(m as int / 10) + seq![
                digit_char(m as int % 10),
            ]);
            assert(dec_repr(m as int / 10) + digits@ =~= dec_repr(m as int) + prev);
        }
        m = m / 10;
    }
    digits
}

} // verus!
