//! Parts of texts.

use vstd::prelude::*;
use vstd::string::*;

verus! {

/// `std`'s `String::push`: the character goes behind the text.
pub assume_specification[ std::string::String::push ](s: &mut std::string::String, c: char)
    ensures
        final(s)@ == old(s)@.push(c),
;

/// The Unicode property `White_Space`.
pub open spec fn is_space(c: char) -> bool {
    ||| '\u{9}' <= c <= '\u{d}'
    ||| c == '\u{20}' || c == '\u{85}' || c == '\u{a0}' || c == '\u{1680}'
    ||| '\u{2000}' <= c <= '\u{200a}'
    ||| c == '\u{2028}' || c == '\u{2029}' || c == '\u{202f}' || c == '\u{205f}' || c == '\u{3000}'
}

/// `std`'s `char::is_whitespace`: the character has the Unicode property `White_Space`.
pub assume_specification[ char::is_whitespace ](c: char) -> (r: bool)
    ensures
        r == is_space(c),
;

/// The characters from place `from` up to, and without, place `to`.
pub fn part(s: &str, from: usize, to: usize) -> (r: String)
    requires
        from <= to <= s@.len(),
    ensures
        r@ == s@.subrange(from as int, to as int),
{
    let mut r = String::new();
    let mut i: usize = from;
    while i < to
        invariant
            from <= i <= to <= s@.len(),
            r@ == s@.subrange(from as int, i as int),
        decreases to - i,
    {
        assert(s@.subrange(from as int, i + 1) =~= s@.subrange(from as int, i as int).push(
            s@[i as int],
        ));
        r.push(s.get_char(i));
        i += 1;
    }
    r
}

/// `p` stands in `s` at place `i`.
pub open spec fn stands_at(s: Seq<char>, p: Seq<char>, i: int) -> bool {
    0 <= i && i + p.len() <= s.len() && s.subrange(i, i + p.len()) == p
}

/// Whether `p` stands in `s` at place `i`.
pub fn part_at(s: &str, p: &str, i: usize) -> (r: bool)
    requires
        i <= s@.len(),
    ensures
        r == stands_at(s@, p@, i as int),
{
    let n: usize = s.unicode_len();
    let len: usize = p.unicode_len();
    if len > n - i {
        return false;
    }
    let mut k: usize = 0;
    while k < len
        invariant
            k <= len,
            len == p@.len(),
            n == s@.len(),
            i + len <= n,
            forall|j: int| 0 <= j < k ==> #[trigger] p@[j] == s@[i + j],
        decreases len - k,
    {
        if s.get_char(i + k) != p.get_char(k) {
            assert(s@.subrange(i as int, i + len)[k as int] != p@[k as int]);
            return false;
        }
        k += 1;
    }
    assert(s@.subrange(i as int, i + len) =~= p@);
    true
}

pub open spec fn begins_with(s: Seq<char>, p: Seq<char>) -> bool {
    stands_at(s, p, 0)
}

/// The text without `p` before it.
pub open spec fn after_prefix(s: Seq<char>, p: Seq<char>) -> Seq<char> {
    if begins_with(s, p) {
        s.skip(p.len() as int)
    } else {
        s
    }
}

/// The text without `p` before it.
pub fn without_prefix(s: &str, p: &str) -> (r: String)
    ensures
        r@ == after_prefix(s@, p@),
{
    let n: usize = s.unicode_len();
    let from: usize = if part_at(s, p, 0) {
        p.unicode_len()
    } else {
        0
    };
    let r = part(s, from, n);
    assert(s@.subrange(p@.len() as int, s@.len() as int) =~= s@.skip(p@.len() as int));
    assert(s@.subrange(0, s@.len() as int) =~= s@);
    r
}

/// `p` stands somewhere in `s`.
pub open spec fn has_part(s: Seq<char>, p: Seq<char>) -> bool {
    exists|i: int| stands_at(s, p, i)
}

/// Whether `p` stands somewhere in `s`.
pub fn contains_part(s: &str, p: &str) -> (r: bool)
    ensures
        r == has_part(s@, p@),
{
    let n: usize = s.unicode_len();
    let mut i: usize = 0;
    while i < n
        invariant
            i <= n,
            n == s@.len(),
            forall|j: int| 0 <= j < i ==> !stands_at(s@, p@, j),
        decreases n - i,
    {
        if part_at(s, p, i) {
            return true;
        }
        i += 1;
    }
    let at_end = part_at(s, p, n);
    if !at_end {
        assert forall|j: int| !stands_at(s@, p@, j) by {
            if j < n {
            } else if j > n {
            }
        }
    }
    at_end
}

/// `s` with every `from` replaced by `to`, from the left.
pub open spec fn with_replaced(s: Seq<char>, from: Seq<char>, to: Seq<char>) -> Seq<char>
    decreases s.len(),
{
    if s.len() == 0 || from.len() == 0 {
        s
    } else if begins_with(s, from) {
        to + with_replaced(s.skip(from.len() as int), from, to)
    } else {
        seq![s[0]] + with_replaced(s.skip(1), from, to)
    }
}

/// The text with every `from` replaced by `to`.
pub fn replace_all(s: &str, from: &str, to: &str) -> (r: String)
    requires
        from@.len() > 0,
    ensures
        r@ == with_replaced(s@, from@, to@),
{
    let n: usize = s.unicode_len();
    let len: usize = from.unicode_len();
    let mut r = String::new();
    let mut i: usize = 0;
    assert(s@.skip(0) =~= s@);
    assert(r@ + with_replaced(s@.skip(0), from@, to@) =~= with_replaced(s@, from@, to@));
    while i < n
        invariant
            i <= n,
            n == s@.len(),
            len == from@.len(),
            len > 0,
            r@ + with_replaced(s@.skip(i as int), from@, to@) == with_replaced(s@, from@, to@),
        decreases n - i,
    {
        let ghost rest = s@.skip(i as int);
        let ghost before = r@;
        let at = part_at(s, from, i);
        proof {
            if i + len <= n {
                assert(rest.subrange(0, 0 + len) =~= s@.subrange(i as int, i + len));
            }
            assert(begins_with(rest, from@) == at);
        }
        if at {
            assert(rest.skip(len as int) =~= s@.skip(i + len));
            r.append(to);
            i += len;
            assert(r@ + with_replaced(s@.skip(i as int), from@, to@) =~= before + (to@
                + with_replaced(s@.skip(i as int), from@, to@)));
        } else {
            assert(rest.skip(1) =~= s@.skip(i + 1));
            r.push(s.get_char(i));
            i += 1;
            assert(r@ + with_replaced(s@.skip(i as int), from@, to@) =~= before + (seq![rest[0]]
                + with_replaced(s@.skip(i as int), from@, to@)));
        }
    }
    assert(with_replaced(s@.skip(i as int), from@, to@) =~= Seq::<char>::empty());
    assert(r@ + Seq::<char>::empty() =~= r@);
    r
}

/// The text holds whitespace only.
pub open spec fn blank(s: Seq<char>) -> bool {
    forall|i: int| 0 <= i < s.len() ==> is_space(#[trigger] s[i])
}

/// Whether the text holds whitespace only.
pub fn is_blank(s: &str) -> (r: bool)
    ensures
        r == blank(s@),
{
    let n: usize = s.unicode_len();
    let mut i: usize = 0;
    while i < n
        invariant
            i <= n,
            n == s@.len(),
            forall|j: int| 0 <= j < i ==> is_space(#[trigger] s@[j]),
        decreases n - i,
    {
        if !s.get_char(i).is_whitespace() {
            assert(!is_space(s@[i as int]));
            return false;
        }
        i += 1;
    }
    true
}

/// The text without the `c`s at its end.
pub open spec fn trimmed_end(s: Seq<char>, c: char) -> Seq<char>
    decreases s.len(),
{
    if s.len() > 0 && s.last() == c {
        trimmed_end(s.drop_last(), c)
    } else {
        s
    }
}

/// The text without the `c`s at its end.
pub fn trim_end(s: &str, c: char) -> (r: String)
    ensures
        r@ == trimmed_end(s@, c),
{
    let mut n: usize = s.unicode_len();
    assert(s@.take(n as int) =~= s@);
    while n > 0 && s.get_char(n - 1) == c
        invariant
            n <= s@.len(),
            trimmed_end(s@.take(n as int), c) == trimmed_end(s@, c),
        ensures
            n <= s@.len(),
            trimmed_end(s@.take(n as int), c) == trimmed_end(s@, c),
            n == 0 || s@[n - 1] != c,
        decreases n,
    {
        assert(s@.take(n as int).drop_last() =~= s@.take(n - 1));
        n -= 1;
    }
    let r = part(s, 0, n);
    assert(s@.subrange(0, n as int) =~= s@.take(n as int));
    r
}

/// The words of a text with one space between them.
pub open spec fn single_spaced(s: Seq<char>) -> Seq<char>
    decreases s.len(),
{
    if s.len() == 0 {
        s
    } else {
        let before = single_spaced(s.drop_last());
        if is_space(s.last()) {
            before
        } else if before.len() > 0 && is_space(s[s.len() - 2]) {
            before.push(' ').push(s.last())
        } else {
            before.push(s.last())
        }
    }
}

/// The words of a text with one space between them.
pub fn space_singly(s: &str) -> (r: String)
    ensures
        r@ == single_spaced(s@),
{
    let n: usize = s.unicode_len();
    let mut r = String::new();
    let mut empty = true;
    let mut after_space = false;
    let mut i: usize = 0;
    while i < n
        invariant
            i <= n,
            n == s@.len(),
            r@ == single_spaced(s@.take(i as int)),
            empty == (r@.len() == 0),
            after_space == (i > 0 && is_space(s@[i - 1])),
        decreases n - i,
    {
        let ghost t = s@.take(i + 1);
        assert(t.drop_last() =~= s@.take(i as int));
        assert(t.last() == s@[i as int]);
        assert(i > 0 ==> t[t.len() - 2] == s@[i - 1]);
        proof {
            if i == 0 {
                assert(s@.take(0).len() == 0);
            }
        }
        let c = s.get_char(i);
        if c.is_whitespace() {
            after_space = true;
        } else {
            if !empty && after_space {
                r.push(' ');
            }
            r.push(c);
            empty = false;
            after_space = false;
        }
        i += 1;
    }
    assert(s@.take(n as int) =~= s@);
    r
}

pub open spec fn is_digit(c: char) -> bool {
    '0' <= c <= '9'
}

pub open spec fn all_digits(s: Seq<char>) -> bool {
    forall|i: int| 0 <= i < s.len() ==> is_digit(#[trigger] s[i])
}

/// The number that decimal digits write.
pub open spec fn digits_value(s: Seq<char>) -> int
    decreases s.len(),
{
    if s.len() == 0 {
        0
    } else {
        digits_value(s.drop_last()) * 10 + (s.last() as int - '0' as int)
    }
}

/// The count that a text writes: decimal digits, with or without a plus sign before them.
pub open spec fn count_of(s: Seq<char>) -> Option<int> {
    let digits = after_prefix(s, seq!['+']);
    if digits.len() > 0 && all_digits(digits) && digits_value(digits) <= u64::MAX {
        Some(digits_value(digits))
    } else {
        None
    }
}

proof fn lemma_digits_grow(s: Seq<char>, i: int)
    requires
        all_digits(s),
        0 <= i <= s.len(),
    ensures
        0 <= digits_value(s.take(i)) <= digits_value(s),
    decreases s.len(),
{
    if i < s.len() {
        let t = s.drop_last();
        assert forall|j: int| 0 <= j < t.len() implies is_digit(#[trigger] t[j]) by {
            assert(t[j] == s[j]);
        }
        lemma_digits_grow(t, i);
        assert(t.take(i) =~= s.take(i));
        assert(is_digit(s.last()));
    } else {
        assert(s.take(i) =~= s);
        if s.len() > 0 {
            let t = s.drop_last();
            assert forall|j: int| 0 <= j < t.len() implies is_digit(#[trigger] t[j]) by {
                assert(t[j] == s[j]);
            }
            lemma_digits_grow(t, i - 1);
            assert(t.take(i - 1) =~= t);
            assert(is_digit(s.last()));
        }
    }
}

/// The count that a text writes, if it writes one.
pub fn parse_count(s: &str) -> (r: Option<u64>)
    ensures
        match r {
            Some(n) => count_of(s@) == Some(n as int),
            None => count_of(s@) is None,
        },
{
    proof {
        reveal_strlit("+");
        assert("+"@ =~= seq!['+']);
    }
    let digits = without_prefix(s, "+");
    let text = digits.as_str();
    let n: usize = text.unicode_len();
    if n == 0 {
        return None;
    }
    let ghost all = text@;
    let mut i: usize = 0;
    while i < n
        invariant
            i <= n,
            n == text@.len(),
            after_prefix(s@, seq!['+']) == text@,
            forall|j: int| 0 <= j < i ==> is_digit(#[trigger] text@[j]),
        decreases n - i,
    {
        let c = text.get_char(i);
        if c < '0' || c > '9' {
            assert(!is_digit(text@[i as int]));
            return None;
        }
        i += 1;
    }
    let mut value: u64 = 0;
    let mut k: usize = 0;
    while k < n
        invariant
            k <= n,
            n == text@.len(),
            all == text@,
            all_digits(all),
            after_prefix(s@, seq!['+']) == all,
            value == digits_value(all.take(k as int)),
        decreases n - k,
    {
        let c = text.get_char(k);
        let d: u64 = (c as u32 - '0' as u32) as u64;
        proof {
            assert(is_digit(all[k as int]));
            assert(all.take(k + 1).drop_last() =~= all.take(k as int));
            lemma_digits_grow(all, k + 1);
        }
        if value > (u64::MAX - d) / 10 {
            assert(value * 10 + d > u64::MAX);
            return None;
        }
        value = value * 10 + d;
        k += 1;
    }
    assert(all.take(n as int) =~= all);
    Some(value)
}

} // verus!
