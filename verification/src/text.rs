//! Small helpers on texts.

use vstd::prelude::*;
use vstd::string::*;

pub mod laws;
pub mod parts;

verus! {

/// The text of an optional string.
pub open spec fn opt_text(o: Option<String>) -> Option<Seq<char>> {
    match o {
        Some(s) => Some(s@),
        None => None,
    }
}

/// The texts of a list of strings.
pub open spec fn texts(v: Seq<String>) -> Seq<Seq<char>> {
    v.map_values(|s: String| s@)
}

/// Whether two texts are the same.
pub fn same_text(a: &str, b: &str) -> (r: bool)
    ensures
        r == (a@ == b@),
{
    a.to_owned() == b.to_owned()
}

/// One text after another.
pub fn join2(a: &str, b: &str) -> (r: String)
    ensures
        r@ == a@ + b@,
{
    a.to_owned().concat(b)
}

pub fn clone_texts(v: &Vec<String>) -> (r: Vec<String>)
    ensures
        r@ == v@,
{
    let mut r: Vec<String> = Vec::new();
    let mut i: usize = 0;
    while i < v.len()
        invariant
            i <= v.len(),
            r@ == v@.take(i as int),
        decreases v.len() - i,
    {
        r.push(v[i].clone());
        i = i + 1;
        assert(r@ =~= v@.take(i as int));
    }
    assert(v@.take(i as int) =~= v@);
    r
}

pub fn clone_opt_text(o: &Option<String>) -> (r: Option<String>)
    ensures
        r == *o,
{
    match o {
        Some(s) => Some(s.clone()),
        None => None,
    }
}

/// Whether a text is in a list.
pub fn contains_text(v: &Vec<String>, text: &str) -> (r: bool)
    ensures
        r == texts(v@).contains(text@),
{
    let mut i: usize = 0;
    while i < v.len()
        invariant
            i <= v.len(),
            forall|j: int| 0 <= j < i ==> (#[trigger] texts(v@)[j]) != text@,
        decreases v.len() - i,
    {
        assert(texts(v@)[i as int] == v@[i as int]@);
        if same_text(v[i].as_str(), text) {
            return true;
        }
        i = i + 1;
    }
    assert(!texts(v@).contains(text@));
    false
}

/// The order of texts: by the first character in which they differ, a prefix first.
pub open spec fn text_le(a: Seq<char>, b: Seq<char>) -> bool
    decreases a.len(),
{
    if a.len() == 0 {
        true
    } else if b.len() == 0 {
        false
    } else if a[0] == b[0] {
        text_le(a.drop_first(), b.drop_first())
    } else {
        (a[0] as int) < (b[0] as int)
    }
}

pub proof fn lemma_text_le_total(a: Seq<char>, b: Seq<char>)
    ensures
        text_le(a, b) || text_le(b, a),
        text_le(a, b) && text_le(b, a) ==> a == b,
    decreases a.len(),
{
    if a.len() > 0 && b.len() > 0 {
        if a[0] == b[0] {
            lemma_text_le_total(a.drop_first(), b.drop_first());
            if text_le(a, b) && text_le(b, a) {
                assert(a =~= seq![a[0]] + a.drop_first());
                assert(b =~= seq![b[0]] + b.drop_first());
            }
        } else {
            assert(a[0] as int != b[0] as int);
        }
    } else if a.len() == 0 && b.len() == 0 {
        assert(a =~= b);
    }
}

pub proof fn lemma_text_le_transitive(a: Seq<char>, b: Seq<char>, c: Seq<char>)
    requires
        text_le(a, b),
        text_le(b, c),
    ensures
        text_le(a, c),
    decreases a.len(),
{
    if a.len() > 0 && b.len() > 0 && c.len() > 0 && a[0] == b[0] && b[0] == c[0] {
        lemma_text_le_transitive(a.drop_first(), b.drop_first(), c.drop_first());
    }
}

/// Whether `a` comes before `b` or is the same.
pub fn text_not_after(a: &str, b: &str) -> (r: bool)
    ensures
        r == text_le(a@, b@),
{
    let a_len: usize = a.unicode_len();
    let b_len: usize = b.unicode_len();
    let mut i: usize = 0;
    assert(a@.skip(0) =~= a@);
    assert(b@.skip(0) =~= b@);
    while i < a_len
        invariant
            i <= a_len,
            i <= b_len,
            a_len == a@.len(),
            b_len == b@.len(),
            text_le(a@, b@) == text_le(a@.skip(i as int), b@.skip(i as int)),
        decreases a_len - i,
    {
        if i >= b_len {
            return false;
        }
        let x: char = a.get_char(i);
        let y: char = b.get_char(i);
        assert(a@.skip(i as int)[0] == x);
        assert(b@.skip(i as int)[0] == y);
        if x != y {
            return (x as u32) < (y as u32);
        }
        assert(a@.skip(i as int).drop_first() =~= a@.skip(i + 1));
        assert(b@.skip(i as int).drop_first() =~= b@.skip(i + 1));
        i = i + 1;
    }
    true
}

pub open spec fn texts_sorted(s: Seq<Seq<char>>) -> bool {
    forall|i: int, j: int| 0 <= i < j < s.len() ==> #[trigger] text_le(s[i], s[j])
}

/// Puts a text into a sorted list.
fn insert_text(v: &mut Vec<String>, text: String)
    requires
        texts_sorted(texts(old(v)@)),
    ensures
        texts_sorted(texts(final(v)@)),
        texts(final(v)@).to_multiset() == texts(old(v)@).to_multiset().insert(text@),
        final(v)@.len() == old(v)@.len() + 1,
{
    let ghost before = texts(v@);
    let ghost item = text@;
    let len: usize = v.len();
    let mut k: usize = 0;
    while k < len && text_not_after(v[k].as_str(), text.as_str())
        invariant
            k <= len,
            len == v.len(),
            before == texts(v@),
            item == text@,
            forall|j: int| 0 <= j < k ==> text_le(#[trigger] before[j], item),
        decreases len - k,
    {
        assert(before[k as int] == v@[k as int]@);
        k = k + 1;
    }
    v.insert(k, text);
    proof {
        let after = texts(v@);
        assert(after =~= before.insert(k as int, item));
        if k < len {
            lemma_text_le_total(before[k as int], item);
        }
        assert forall|j: int| k <= j < len implies text_le(item, #[trigger] before[j]) by {
            if j > k {
                assert(text_le(before[k as int], before[j]));
                lemma_text_le_transitive(item, before[k as int], before[j]);
            }
        }
        assert forall|i: int, j: int| 0 <= i < j < after.len() implies #[trigger] text_le(
            after[i],
            after[j],
        ) by {
            if i < k && j < k {
                assert(text_le(before[i], before[j]));
            } else if i < k && j == k {
                assert(text_le(before[i], item));
            } else if i < k {
                assert(text_le(before[i], before[j - 1]));
            } else if i == k {
                assert(text_le(item, before[j - 1]));
            } else {
                assert(text_le(before[i - 1], before[j - 1]));
            }
        }
        before.to_multiset_ensures();
        lemma_insert_multiset(before, k as int, item);
    }
}

proof fn lemma_insert_multiset<A>(s: Seq<A>, k: int, a: A)
    requires
        0 <= k <= s.len(),
    ensures
        s.insert(k, a).to_multiset() == s.to_multiset().insert(a),
{
    let after = s.insert(k, a);
    after.to_multiset_ensures();
    s.to_multiset_ensures();
    assert(after.remove(k) =~= s);
    assert(after.to_multiset().remove(a) =~= s.to_multiset());
    assert(after[k] == a);
    assert(after.contains(a));
    assert(after.to_multiset().contains(a));
    assert(after.to_multiset() =~= s.to_multiset().insert(a));
}

/// The same texts in their order.
pub fn sorted_texts(v: &Vec<String>) -> (r: Vec<String>)
    ensures
        texts_sorted(texts(r@)),
        texts(r@).to_multiset() == texts(v@).to_multiset(),
        r@.len() == v@.len(),
{
    let ghost all = texts(v@);
    let mut r: Vec<String> = Vec::new();
    let mut i: usize = 0;
    assert(texts(r@) =~= Seq::empty());
    assert(all.take(0) =~= Seq::empty());
    while i < v.len()
        invariant
            i <= v.len(),
            all == texts(v@),
            texts_sorted(texts(r@)),
            r@.len() == i,
            texts(r@).to_multiset() == all.take(i as int).to_multiset(),
        decreases v.len() - i,
    {
        assert(all[i as int] == v@[i as int]@);
        insert_text(&mut r, v[i].clone());
        proof {
            assert(all.take(i + 1) =~= all.take(i as int).push(all[i as int]));
            all.take(i as int).to_multiset_ensures();
        }
        i = i + 1;
    }
    assert(all.take(i as int) =~= all);
    r
}

/// One decimal digit.
pub open spec fn digit_char(d: nat) -> char {
    if d == 0 {
        '0'
    } else if d == 1 {
        '1'
    } else if d == 2 {
        '2'
    } else if d == 3 {
        '3'
    } else if d == 4 {
        '4'
    } else if d == 5 {
        '5'
    } else if d == 6 {
        '6'
    } else if d == 7 {
        '7'
    } else if d == 8 {
        '8'
    } else {
        '9'
    }
}

/// A count, written in decimal.
pub open spec fn count_chars(n: nat) -> Seq<char>
    decreases n,
{
    if n < 10 {
        seq![digit_char(n)]
    } else {
        count_chars(n / 10).push(digit_char(n % 10))
    }
}

fn digit_text(d: u64) -> (r: &'static str)
    requires
        d < 10,
    ensures
        r@ == seq![digit_char(d as nat)],
{
    proof {
        reveal_strlit("0");
        reveal_strlit("1");
        reveal_strlit("2");
        reveal_strlit("3");
        reveal_strlit("4");
        reveal_strlit("5");
        reveal_strlit("6");
        reveal_strlit("7");
        reveal_strlit("8");
        reveal_strlit("9");
        assert("0"@ =~= seq!['0']);
        assert("1"@ =~= seq!['1']);
        assert("2"@ =~= seq!['2']);
        assert("3"@ =~= seq!['3']);
        assert("4"@ =~= seq!['4']);
        assert("5"@ =~= seq!['5']);
        assert("6"@ =~= seq!['6']);
        assert("7"@ =~= seq!['7']);
        assert("8"@ =~= seq!['8']);
        assert("9"@ =~= seq!['9']);
    }
    match d {
        0 => "0",
        1 => "1",
        2 => "2",
        3 => "3",
        4 => "4",
        5 => "5",
        6 => "6",
        7 => "7",
        8 => "8",
        _ => "9",
    }
}

/// A count, written in decimal.
pub fn count_text(n: u64) -> (r: String)
    ensures
        r@ == count_chars(n as nat),
{
    wide_count_text(n as u128)
}

/// A large count, written in decimal.
pub fn wide_count_text(n: u128) -> (r: String)
    ensures
        r@ == count_chars(n as nat),
    decreases n,
{
    let mut r = if n < 10 {
        String::new()
    } else {
        wide_count_text(n / 10)
    };
    let digit = digit_text((n % 10) as u64);
    let ghost before = r@;
    r.append(digit);
    assert(before + seq![digit_char((n % 10) as nat)] =~= before.push(digit_char((n % 10) as nat)));
    assert(n < 10 ==> before + seq![digit_char(n as nat)] =~= seq![digit_char(n as nat)]);
    r
}

pub open spec fn bool_chars(b: bool) -> Seq<char> {
    if b {
        "true"@
    } else {
        "false"@
    }
}

pub fn bool_text(b: bool) -> (r: &'static str)
    ensures
        r@ == bool_chars(b),
{
    if b {
        "true"
    } else {
        "false"
    }
}

/// Texts one after another, with `sep` between them.
pub open spec fn joined(s: Seq<Seq<char>>, sep: Seq<char>) -> Seq<char>
    decreases s.len(),
{
    if s.len() == 0 {
        Seq::empty()
    } else if s.len() == 1 {
        s[0]
    } else {
        joined(s.drop_last(), sep) + sep + s.last()
    }
}

pub fn join_texts(v: &Vec<String>, sep: &str) -> (r: String)
    ensures
        r@ == joined(texts(v@), sep@),
{
    let ghost all = texts(v@);
    let mut r = String::new();
    let mut i: usize = 0;
    while i < v.len()
        invariant
            i <= v.len(),
            all == texts(v@),
            r@ == joined(all.take(i as int), sep@),
        decreases v.len() - i,
    {
        assert(all.take(i + 1).drop_last() =~= all.take(i as int));
        assert(all.take(i + 1).last() == v@[i as int]@);
        let ghost before = r@;
        if i > 0 {
            r.append(sep);
        }
        r.append(v[i].as_str());
        assert(i == 0 ==> before + v@[i as int]@ =~= v@[i as int]@);
        i = i + 1;
    }
    assert(all.take(i as int) =~= all);
    r
}

/// A text as the standard library prints it for debugging: in quotes, special characters escaped.
pub uninterp spec fn quoted_chars(s: Seq<char>) -> Seq<char>;

/// `str`'s debug form, by `format!`.
#[verifier::external_body]
fn debug_text(s: &str) -> (r: String)
    ensures
        r@ == quoted_chars(s@),
{
    format!("{:?}", s)
}

/// A text in its debug form.
pub fn quoted_text(s: &str) -> (r: String)
    ensures
        r@ == quoted_chars(s@),
{
    debug_text(s)
}

pub open spec fn opt_quoted_chars(o: Option<Seq<char>>) -> Seq<char> {
    match o {
        Some(s) => "Some("@ + quoted_chars(s) + ")"@,
        None => "None"@,
    }
}

/// An optional text in its debug form.
pub fn opt_quoted_text(o: &Option<String>) -> (r: String)
    ensures
        r@ == opt_quoted_chars(opt_text(*o)),
{
    match o {
        Some(s) => {
            let mut r = "Some(".to_owned();
            r.append(debug_text(s.as_str()).as_str());
            r.append(")");
            r
        },
        None => "None".to_owned(),
    }
}

pub fn same_opt_text(a: &Option<String>, b: &Option<String>) -> (r: bool)
    ensures
        r == (opt_text(*a) == opt_text(*b)),
{
    match (a, b) {
        (Some(x), Some(y)) => same_text(x.as_str(), y.as_str()),
        (None, None) => true,
        _ => false,
    }
}

/// A list of one text where `b` holds, else of none.
pub open spec fn listed_if(b: bool, s: Seq<char>) -> Seq<Seq<char>> {
    if b {
        seq![s]
    } else {
        Seq::empty()
    }
}

/// Adds a text to a list.
pub fn push_text(v: &mut Vec<String>, text: String)
    ensures
        texts(final(v)@) == texts(old(v)@) + seq![text@],
{
    let ghost before = texts(v@);
    let ghost item = text@;
    v.push(text);
    assert(texts(v@) =~= before + seq![item]);
}

/// Adds a list of texts to another.
pub fn append_texts(v: &mut Vec<String>, more: &Vec<String>)
    ensures
        texts(final(v)@) == texts(old(v)@) + texts(more@),
{
    let ghost start = texts(v@);
    let ghost all = texts(more@);
    let mut i: usize = 0;
    assert(start + all.take(0) =~= start);
    while i < more.len()
        invariant
            i <= more.len(),
            all == texts(more@),
            texts(v@) == start + all.take(i as int),
        decreases more.len() - i,
    {
        push_text(v, more[i].clone());
        assert(start + all.take(i as int) + seq![all[i as int]] =~= start + all.take(i + 1));
        i = i + 1;
    }
    assert(all.take(i as int) =~= all);
}

/// A character without regard to the case of ASCII letters.
pub open spec fn caseless(c: char) -> int {
    if 'A' <= c <= 'Z' {
        c as int + 32
    } else {
        c as int
    }
}

/// Two texts are the same but for the case of ASCII letters.
pub open spec fn text_ignoring_case(a: Seq<char>, b: Seq<char>) -> bool {
    &&& a.len() == b.len()
    &&& forall|i: int| 0 <= i < a.len() ==> caseless(#[trigger] a[i]) == caseless(b[i])
}

fn caseless_code(c: char) -> (r: u32)
    ensures
        r == caseless(c),
{
    if 'A' <= c && c <= 'Z' {
        c as u32 + 32
    } else {
        c as u32
    }
}

/// Whether two texts are the same but for the case of ASCII letters.
pub fn same_ignoring_ascii_case(a: &str, b: &str) -> (r: bool)
    ensures
        r == text_ignoring_case(a@, b@),
{
    let len: usize = a.unicode_len();
    if len != b.unicode_len() {
        return false;
    }
    let mut i: usize = 0;
    while i < len
        invariant
            i <= len,
            len == a@.len(),
            len == b@.len(),
            forall|j: int| 0 <= j < i ==> caseless(#[trigger] a@[j]) == caseless(b@[j]),
        decreases len - i,
    {
        if caseless_code(a.get_char(i)) != caseless_code(b.get_char(i)) {
            assert(caseless(a@[i as int]) != caseless(b@[i as int]));
            return false;
        }
        i = i + 1;
    }
    true
}

} // verus!
