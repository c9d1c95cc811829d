//! What texts must satisfy, however they are made.

use crate::text::parts::{
    after_prefix, all_digits, count_of, digits_value, has_part, is_digit, is_space, single_spaced,
    stands_at, trimmed_end, with_replaced,
};
use crate::text::{caseless, count_chars, digit_char, text_ignoring_case, text_le};
use vstd::prelude::*;

verus! {

proof fn lemma_count(n: nat)
    ensures
        count_chars(n).len() > 0,
        all_digits(count_chars(n)),
        digits_value(count_chars(n)) == n,
        n > 0 ==> count_chars(n)[0] != '0',
    decreases n,
{
    let s = count_chars(n);
    if n < 10 {
        assert(s.drop_last().len() == 0);
        assert(digits_value(s.drop_last()) == 0);
        assert(s.last() == digit_char(n));
    } else {
        lemma_count(n / 10);
        assert(s.drop_last() =~= count_chars(n / 10));
        assert(s.last() == digit_char(n % 10));
        assert forall|i: int| 0 <= i < s.len() implies is_digit(#[trigger] s[i]) by {
            if i < s.len() - 1 {
                assert(s[i] == count_chars(n / 10)[i]);
            }
        }
    }
}

/// A count is read back from its text, which begins with no zero unless it is one.
pub proof fn law_counts_are_read_back(n: nat)
    requires
        n <= u64::MAX,
    ensures
        count_of(count_chars(n)) == Some(n as int),
        n > 0 ==> count_chars(n)[0] != '0',
{
    lemma_count(n);
    let s = count_chars(n);
    assert(is_digit(s[0]));
    if stands_at(s, seq!['+'], 0) {
        assert(s.subrange(0, 1)[0] == '+');
    }
}

/// A trimmed text is the beginning of the text, does not end in the character, and lacks nothing else.
pub proof fn law_trimming_takes_from_the_end(s: Seq<char>, c: char)
    ensures
        ({
            let t = trimmed_end(s, c);
            &&& t.len() <= s.len() && t == s.take(t.len() as int)
            &&& t.len() > 0 ==> t.last() != c
            &&& forall|i: int| t.len() <= i < s.len() ==> #[trigger] s[i] == c
        }),
    decreases s.len(),
{
    if s.len() > 0 && s.last() == c {
        let rest = s.drop_last();
        law_trimming_takes_from_the_end(rest, c);
        let t = trimmed_end(s, c);
        assert(rest.take(t.len() as int) =~= s.take(t.len() as int));
        assert forall|i: int| t.len() <= i < s.len() implies #[trigger] s[i] == c by {
            if i < rest.len() {
                assert(rest[i] == s[i]);
            }
        }
    } else {
        assert(s.take(s.len() as int) =~= s);
    }
}

/// A text loses a prefix where it has it, and nothing where it has not.
pub proof fn law_prefixes_come_off(s: Seq<char>, p: Seq<char>)
    ensures
        after_prefix(p + s, p) == s,
        after_prefix(s, p) == s || p + after_prefix(s, p) == s,
        after_prefix(s, p) != s ==> p.len() > 0,
{
    assert((p + s).subrange(0, p.len() as int) =~= p);
    assert((p + s).skip(p.len() as int) =~= s);
    if stands_at(s, p, 0) {
        assert(p + s.skip(p.len() as int) =~= s);
        if p.len() == 0 {
            assert(s.skip(0) =~= s);
        }
    }
}

/// Where nothing is to be replaced nothing is; where a text begins with what is, that is replaced.
pub proof fn law_only_what_stands_there_is_replaced(
    s: Seq<char>,
    from: Seq<char>,
    to: Seq<char>,
)
    requires
        from.len() > 0,
    ensures
        !has_part(s, from) ==> with_replaced(s, from, to) == s,
        with_replaced(from + s, from, to) == to + with_replaced(s, from, to),
    decreases s.len(),
{
    let t = from + s;
    assert(t.subrange(0, from.len() as int) =~= from);
    assert(t.skip(from.len() as int) =~= s);
    if !has_part(s, from) && s.len() > 0 {
        assert(!stands_at(s, from, 0));
        let rest = s.skip(1);
        if has_part(rest, from) {
            let i = choose|i: int| stands_at(rest, from, i);
            assert(s.subrange(i + 1, i + 1 + from.len()) =~= rest.subrange(i, i + from.len()));
            assert(stands_at(s, from, i + 1));
        }
        law_only_what_stands_there_is_replaced(rest, from, to);
        assert(seq![s[0]] + rest =~= s);
    }
}

/// Letters differ from each other whatever their case, and a letter is the same in both.
pub proof fn law_case_is_that_of_letters(c: char, d: char)
    ensures
        'A' <= c <= 'Z' && d as int == c as int + 32 ==> caseless(c) == caseless(d),
        !('A' <= c <= 'Z') && !('A' <= d <= 'Z') ==> (caseless(c) == caseless(d) <==> c == d),
        'A' <= c <= 'Z' && 'A' <= d <= 'Z' ==> (caseless(c) == caseless(d) <==> c == d),
{
}

/// To be the same but for case goes both ways and on from one text to the next.
pub proof fn law_same_but_for_case_is_an_equality(a: Seq<char>, b: Seq<char>, c: Seq<char>)
    ensures
        text_ignoring_case(a, a),
        text_ignoring_case(a, b) == text_ignoring_case(b, a),
        text_ignoring_case(a, b) && text_ignoring_case(b, c) ==> text_ignoring_case(a, c),
        text_ignoring_case(a, b) ==> a.len() == b.len(),
{
    if text_ignoring_case(a, b) {
        assert forall|i: int| 0 <= i < b.len() implies caseless(#[trigger] b[i]) == caseless(
            a[i],
        ) by {
            assert(caseless(a[i]) == caseless(b[i]));
        }
    }
    if text_ignoring_case(b, a) {
        assert forall|i: int| 0 <= i < a.len() implies caseless(#[trigger] a[i]) == caseless(
            b[i],
        ) by {
            assert(caseless(b[i]) == caseless(a[i]));
        }
    }
    if text_ignoring_case(a, b) && text_ignoring_case(b, c) {
        assert forall|i: int| 0 <= i < a.len() implies caseless(#[trigger] a[i]) == caseless(
            c[i],
        ) by {
            assert(caseless(a[i]) == caseless(b[i]));
            assert(caseless(b[i]) == caseless(c[i]));
        }
    }
}

/// Texts are ordered by the first character in which they differ, and a beginning comes first.
pub proof fn law_texts_are_ordered_by_their_first_difference(a: Seq<char>, b: Seq<char>, k: int)
    requires
        0 <= k <= a.len() && k <= b.len(),
        forall|i: int| 0 <= i < k ==> #[trigger] a[i] == b[i],
        k < a.len() && k < b.len() ==> a[k] != b[k],
    ensures
        k == a.len() ==> text_le(a, b),
        k == b.len() && k < a.len() ==> !text_le(a, b),
        k < a.len() && k < b.len() ==> text_le(a, b) == ((a[k] as int) < (b[k] as int)),
    decreases a.len(),
{
    if k > 0 {
        assert(a[0] == b[0]);
        let x = a.drop_first();
        let y = b.drop_first();
        assert forall|i: int| 0 <= i < k - 1 implies #[trigger] x[i] == y[i] by {
            assert(a[i + 1] == b[i + 1]);
        }
        law_texts_are_ordered_by_their_first_difference(x, y, k - 1);
    }
}

/// The characters of the words, in order.
pub open spec fn letters(s: Seq<char>) -> Seq<char>
    decreases s.len(),
{
    if s.len() == 0 {
        s
    } else if is_space(s.last()) {
        letters(s.drop_last())
    } else {
        letters(s.drop_last()).push(s.last())
    }
}

/// A singly spaced text has the same characters in its words, begins and ends in one of them, and has
/// nothing but single blanks between them.
pub proof fn law_words_are_spaced_singly(s: Seq<char>)
    ensures
        ({
            let t = single_spaced(s);
            &&& letters(t) == letters(s)
            &&& t.len() <= s.len()
            &&& t.len() > 0 ==> !is_space(t[0]) && !is_space(t.last())
            &&& forall|i: int|
                0 <= i < t.len() && is_space(#[trigger] t[i]) ==> t[i] == ' '
            &&& forall|i: int|
                0 <= i < t.len() - 1 && is_space(#[trigger] t[i]) ==> !is_space(t[i + 1])
        }),
    decreases s.len(),
{
    if s.len() > 0 {
        let rest = s.drop_last();
        let before = single_spaced(rest);
        let t = single_spaced(s);
        law_words_are_spaced_singly(rest);
        let c = s.last();
        if is_space(c) {
        } else if before.len() > 0 && is_space(s[s.len() - 2]) {
            lemma_spaced_shorter(rest);
            assert(t.drop_last() =~= before.push(' '));
            assert(before.push(' ').drop_last() =~= before);
            assert(letters(before.push(' ')) == letters(before));
            assert(letters(t) == letters(before.push(' ')).push(c));
            assert(t[0] == before[0]);
            assert forall|i: int| 0 <= i < t.len() - 1 && is_space(#[trigger] t[i]) implies !is_space(
                t[i + 1],
            ) by {
                if i < before.len() - 1 {
                    assert(before[i] == t[i] && before[i + 1] == t[i + 1]);
                } else if i == before.len() - 1 {
                    assert(t[i] == before.last());
                }
            }
            assert forall|i: int| 0 <= i < t.len() && is_space(#[trigger] t[i]) implies t[i]
                == ' ' by {
                if i < before.len() {
                    assert(before[i] == t[i]);
                }
            }
        } else {
            assert(t.drop_last() =~= before);
            if before.len() > 0 {
                assert(t[0] == before[0]);
            }
            assert forall|i: int| 0 <= i < t.len() - 1 && is_space(#[trigger] t[i]) implies !is_space(
                t[i + 1],
            ) by {
                assert(before[i] == t[i]);
                if i < before.len() - 1 {
                    assert(before[i + 1] == t[i + 1]);
                }
            }
            assert forall|i: int| 0 <= i < t.len() && is_space(#[trigger] t[i]) implies t[i]
                == ' ' by {
                if i < before.len() {
                    assert(before[i] == t[i]);
                }
            }
        }
    }
}

/// A text that ends in a blank is shorter when it is singly spaced.
proof fn lemma_spaced_shorter(s: Seq<char>)
    ensures
        s.len() > 0 && is_space(s.last()) ==> single_spaced(s).len() < s.len(),
{
    if s.len() > 0 && is_space(s.last()) {
        lemma_spaced_length(s.drop_last());
    }
}

proof fn lemma_spaced_length(s: Seq<char>)
    ensures
        single_spaced(s).len() <= s.len(),
        s.len() > 0 && is_space(s.last()) ==> single_spaced(s).len() < s.len(),
    decreases s.len(),
{
    if s.len() > 0 {
        lemma_spaced_length(s.drop_last());
    }
}

} // verus!
