//! JSON values with the fields of every object in order.

use crate::json::encode::{fields_chars, items_chars, json_chars};
use crate::json::{
    field_at, find_field, lemma_field_at, same_fields, same_items, same_json, Json,
};
use crate::text::{
    lemma_text_le_total, sorted_texts, text_le, texts, texts_sorted,
};
use vstd::prelude::*;

verus! {

pub open spec fn names(fields: Seq<(String, Json)>) -> Seq<Seq<char>> {
    fields.map_values(|f: (String, Json)| f.0@)
}

/// No name occurs twice.
pub open spec fn distinct_names(fields: Seq<(String, Json)>) -> bool {
    forall|i: int, j: int|
        0 <= i < j < fields.len() ==> (#[trigger] fields[i]).0@ != (#[trigger] fields[j]).0@
}

/// In no object does a name occur twice.
pub open spec fn well_named(j: Json) -> bool
    decreases j,
{
    match j {
        Json::Array(v) => items_well_named(v@, v@.len()),
        Json::Object(fields) => distinct_names(fields@) && fields_well_named(
            fields@,
            fields@.len(),
        ),
        _ => true,
    }
}

pub open spec fn items_well_named(v: Seq<Json>, n: nat) -> bool
    decreases v, n,
{
    if n == 0 || n > v.len() {
        true
    } else {
        items_well_named(v, (n - 1) as nat) && well_named(v[n - 1])
    }
}

pub open spec fn fields_well_named(v: Seq<(String, Json)>, n: nat) -> bool
    decreases v, n,
{
    if n == 0 || n > v.len() {
        true
    } else {
        fields_well_named(v, (n - 1) as nat) && well_named(v[n - 1].1)
    }
}

/// `r` is the value `j` with the fields of every object in the order of their names.
pub open spec fn canonical_of(j: Json, r: Json) -> bool
    decreases j,
{
    match (j, r) {
        (Json::Null, Json::Null) => true,
        (Json::Bool(x), Json::Bool(y)) => x == y,
        (Json::Number(x), Json::Number(y)) => x@ == y@,
        (Json::String(x), Json::String(y)) => x@ == y@,
        (Json::Array(x), Json::Array(y)) => x@.len() == y@.len() && canonical_items(
            x@,
            y@,
            x@.len(),
        ),
        (Json::Object(x), Json::Object(y)) => {
            &&& x@.len() == y@.len()
            &&& distinct_names(y@)
            &&& texts_sorted(names(y@))
            &&& canonical_fields(x@, y@, x@.len())
        },
        _ => false,
    }
}

/// The first `n` items are put in order.
pub open spec fn canonical_items(x: Seq<Json>, y: Seq<Json>, n: nat) -> bool
    decreases x, n,
{
    if n == 0 || n > x.len() {
        true
    } else {
        canonical_items(x, y, (n - 1) as nat) && canonical_of(x[n - 1], y[n - 1])
    }
}

/// The first `n` fields stand in `y`, put in order.
pub open spec fn canonical_fields(
    x: Seq<(String, Json)>,
    y: Seq<(String, Json)>,
    n: nat,
) -> bool
    decreases x, n,
{
    if n == 0 || n > x.len() {
        true
    } else {
        let at = field_at(y, x[n - 1].0@);
        canonical_fields(x, y, (n - 1) as nat) && at < y.len() && canonical_of(x[n - 1].1, y[at].1)
    }
}

proof fn lemma_item(v: Seq<Json>, n: nat, i: int)
    requires
        items_well_named(v, n),
        0 <= i < n <= v.len(),
    ensures
        well_named(v[i]),
    decreases n,
{
    if i < n - 1 {
        lemma_item(v, (n - 1) as nat, i);
    }
}

proof fn lemma_field(v: Seq<(String, Json)>, n: nat, i: int)
    requires
        fields_well_named(v, n),
        0 <= i < n <= v.len(),
    ensures
        well_named(v[i].1),
    decreases n,
{
    if i < n - 1 {
        lemma_field(v, (n - 1) as nat, i);
    }
}

/// In a list without repeated names a field is found at its own place.
pub proof fn lemma_own_place(fields: Seq<(String, Json)>, i: int)
    requires
        distinct_names(fields),
        0 <= i < fields.len(),
    ensures
        field_at(fields, fields[i].0@) == i,
{
    lemma_field_at(fields, fields[i].0@);
    let at = field_at(fields, fields[i].0@);
    if at < i {
        assert(fields[at].0@ != fields[i].0@);
    } else if at > i {
        assert(fields[i].0@ != fields[i].0@);
    }
}

/// `r` holds the canonical values of the fields of `x` under the names `k`.
spec fn holds_values(x: Seq<(String, Json)>, k: Seq<Seq<char>>, r: Seq<(String, Json)>) -> bool {
    &&& r.len() == k.len()
    &&& forall|i: int| 0 <= i < r.len() ==> (#[trigger] r[i]).0@ == k[i]
    &&& forall|i: int| 0 <= i < k.len() ==> field_at(x, #[trigger] k[i]) < x.len()
    &&& forall|i: int|
        0 <= i < r.len() ==> canonical_of(x[field_at(x, k[i])].1, (#[trigger] r[i]).1)
}

proof fn lemma_canonical_fields(
    x: Seq<(String, Json)>,
    k: Seq<Seq<char>>,
    r: Seq<(String, Json)>,
    n: nat,
)
    requires
        n <= x.len(),
        distinct_names(x),
        holds_values(x, k, r),
        k.to_multiset() == names(x).to_multiset(),
    ensures
        canonical_fields(x, r, n),
    decreases n,
{
    if n > 0 {
        lemma_canonical_fields(x, k, r, (n - 1) as nat);
        let name = x[n - 1].0@;
        names(x).to_multiset_ensures();
        k.to_multiset_ensures();
        assert(names(x)[n - 1] == name);
        assert(names(x).contains(name));
        assert(names(x).to_multiset().count(name) > 0);
        assert(k.to_multiset().count(name) > 0);
        assert(k.contains(name));
        let i = choose|i: int| 0 <= i < k.len() && k[i] == name;
        lemma_field_at(r, name);
        assert(r[i].0@ == name);
        let at = field_at(r, name);
        assert(at <= i);
        assert(r[at].0@ == k[at]);
        lemma_own_place(x, n - 1);
    }
}

proof fn lemma_distinct_after_sort(
    x: Seq<(String, Json)>,
    k: Seq<Seq<char>>,
    r: Seq<(String, Json)>,
)
    requires
        distinct_names(x),
        holds_values(x, k, r),
        k.to_multiset() == names(x).to_multiset(),
    ensures
        distinct_names(r),
{
    let nx = names(x);
    assert(nx.no_duplicates()) by {
        assert forall|i: int, j: int| 0 <= i < nx.len() && 0 <= j < nx.len() && i != j implies nx[i]
            != nx[j] by {
            if i < j {
                assert(x[i].0@ != x[j].0@);
            } else {
                assert(x[j].0@ != x[i].0@);
            }
        }
    }
    nx.lemma_multiset_has_no_duplicates();
    k.lemma_multiset_has_no_duplicates_conv();
    assert forall|i: int, j: int| 0 <= i < j < r.len() implies (#[trigger] r[i]).0@ != (
    #[trigger] r[j]).0@ by {
        assert(k[i] != k[j]);
    }
}

proof fn lemma_fields_are_well_named(v: Seq<(String, Json)>, n: nat)
    requires
        n <= v.len(),
        forall|i: int| 0 <= i < n ==> well_named((#[trigger] v[i]).1),
    ensures
        fields_well_named(v, n),
    decreases n,
{
    if n > 0 {
        lemma_fields_are_well_named(v, (n - 1) as nat);
        assert(well_named(v[n - 1].1));
    }
}

/// In an object where one field was set, or added under a new name, no name occurs twice either.
pub proof fn lemma_set_field_is_well_named(
    before: Seq<(String, Json)>,
    after: Seq<(String, Json)>,
    at: int,
)
    requires
        distinct_names(before),
        fields_well_named(before, before.len()),
        0 <= at <= before.len(),
        after.len() == if at < before.len() {
            before.len()
        } else {
            before.len() + 1
        },
        forall|i: int| 0 <= i < before.len() && i != at ==> #[trigger] after[i] == before[i],
        at < before.len() ==> after[at].0@ == before[at].0@,
        at == before.len() ==> forall|i: int|
            0 <= i < before.len() ==> (#[trigger] before[i]).0@ != after[at].0@,
        well_named(after[at].1),
    ensures
        distinct_names(after),
        fields_well_named(after, after.len()),
{
    assert forall|i: int, j: int| 0 <= i < j < after.len() implies (#[trigger] after[i]).0@ != (
    #[trigger] after[j]).0@ by {
        if j < before.len() {
            assert(before[i].0@ != before[j].0@);
        } else {
            assert(before[i].0@ != after[at].0@);
        }
    }
    assert forall|i: int| 0 <= i < after.len() implies well_named((#[trigger] after[i]).1) by {
        if i != at {
            lemma_field(before, before.len(), i);
        }
    }
    lemma_fields_are_well_named(after, after.len());
}

/// The value with the fields of every object in the order of their names.
pub fn canonicalize_json_value(value: &Json) -> (r: Json)
    requires
        well_named(*value),
    ensures
        canonical_of(*value, r),
    decreases *value,
{
    match value {
        Json::Null => Json::Null,
        Json::Bool(b) => Json::Bool(*b),
        Json::Number(n) => Json::Number(n.clone()),
        Json::String(s) => Json::String(s.clone()),
        Json::Array(items) => {
            let mut out: Vec<Json> = Vec::new();
            let mut n: usize = 0;
            while n < items.len()
                invariant
                    n <= items.len(),
                    decreases_to!(*value => items@),
                    *value == Json::Array(*items),
                    items_well_named(items@, items@.len()),
                    out@.len() == n,
                    canonical_items(items@, out@, n as nat),
                decreases items.len() - n,
            {
                proof {
                    lemma_item(items@, items@.len(), n as int);
                }
                let item = canonicalize_json_value(&items[n]);
                let ghost before = out@;
                out.push(item);
                proof {
                    lemma_items_kept(items@, before, out@, n as nat);
                }
                n = n + 1;
            }
            Json::Array(out)
        },
        Json::Object(fields) => {
            let mut keys: Vec<String> = Vec::new();
            let mut n: usize = 0;
            while n < fields.len()
                invariant
                    n <= fields.len(),
                    keys@.len() == n,
                    forall|i: int| 0 <= i < n ==> (#[trigger] keys@[i])@ == fields@[i].0@,
                decreases fields.len() - n,
            {
                keys.push(fields[n].0.clone());
                n = n + 1;
            }
            assert(texts(keys@) =~= names(fields@));
            let sorted = sorted_texts(&keys);
            let ghost k = texts(sorted@);
            let mut out: Vec<(String, Json)> = Vec::new();
            let mut m: usize = 0;
            while m < sorted.len()
                invariant
                    m <= sorted.len(),
                    decreases_to!(*value => fields@),
                    *value == Json::Object(*fields),
                    distinct_names(fields@),
                    fields_well_named(fields@, fields@.len()),
                    k == texts(sorted@),
                    k.to_multiset() == names(fields@).to_multiset(),
                    holds_values(fields@, k.take(m as int), out@),
                decreases sorted.len() - m,
            {
                let at = find_field(fields, sorted[m].as_str());
                proof {
                    lemma_named(fields@, k, m as int);
                    assert(k[m as int] == sorted@[m as int]@);
                    lemma_field(fields@, fields@.len(), at as int);
                }
                let item = canonicalize_json_value(&fields[at].1);
                let ghost before = out@;
                out.push((sorted[m].clone(), item));
                proof {
                    let kk = k.take(m + 1);
                    assert forall|i: int| 0 <= i < out@.len() implies (#[trigger] out@[i]).0@
                        == kk[i] by {
                        if i < m {
                            assert(out@[i] == before[i]);
                            assert(kk[i] == k.take(m as int)[i]);
                        }
                    }
                    assert forall|i: int| 0 <= i < kk.len() implies field_at(
                        fields@,
                        #[trigger] kk[i],
                    ) < fields@.len() by {
                        if i < m {
                            assert(kk[i] == k.take(m as int)[i]);
                        }
                    }
                    assert forall|i: int| 0 <= i < out@.len() implies canonical_of(
                        fields@[field_at(fields@, kk[i])].1,
                        (#[trigger] out@[i]).1,
                    ) by {
                        if i < m {
                            assert(out@[i] == before[i]);
                            assert(kk[i] == k.take(m as int)[i]);
                        }
                    }
                }
                m = m + 1;
            }
            proof {
                assert(k.take(m as int) =~= k);
                lemma_canonical_fields(fields@, k, out@, fields@.len());
                lemma_distinct_after_sort(fields@, k, out@);
                assert(names(out@) =~= k);
                names(fields@).to_multiset_ensures();
                k.to_multiset_ensures();
            }
            Json::Object(out)
        },
    }
}

/// A sorted name is the name of a field.
proof fn lemma_named(x: Seq<(String, Json)>, k: Seq<Seq<char>>, i: int)
    requires
        0 <= i < k.len(),
        k.to_multiset() == names(x).to_multiset(),
    ensures
        field_at(x, k[i]) < x.len(),
{
    k.to_multiset_ensures();
    names(x).to_multiset_ensures();
    let name = k[i];
    assert(k.contains(name));
    assert(k.to_multiset().count(name) > 0);
    assert(names(x).to_multiset().count(name) > 0);
    assert(names(x).contains(name));
    let j = choose|j: int| 0 <= j < names(x).len() && names(x)[j] == k[i];
    assert(x[j].0@ == k[i]);
    lemma_field_at(x, k[i]);
}

proof fn lemma_items_kept(x: Seq<Json>, before: Seq<Json>, after: Seq<Json>, n: nat)
    requires
        n <= x.len(),
        before.len() >= n,
        after.len() > before.len(),
        forall|i: int| 0 <= i < n ==> after[i] == before[i],
        canonical_items(x, before, n),
    ensures
        canonical_items(x, after, n),
    decreases n,
{
    if n > 0 {
        lemma_items_kept(x, before, after, (n - 1) as nat);
        assert(after[n - 1] == before[n - 1]);
    }
}

/// Lists without repetition and of one length, one of which holds all of the other, hold the same.
proof fn lemma_same_members(s: Seq<Seq<char>>, t: Seq<Seq<char>>)
    requires
        s.no_duplicates(),
        t.no_duplicates(),
        s.len() == t.len(),
        forall|i: int| 0 <= i < s.len() ==> t.contains(#[trigger] s[i]),
    ensures
        forall|x: Seq<char>| s.contains(x) == t.contains(x),
{
    s.unique_seq_to_set();
    t.unique_seq_to_set();
    vstd::seq_lib::seq_to_set_is_finite(s);
    vstd::seq_lib::seq_to_set_is_finite(t);
    assert(s.to_set().subset_of(t.to_set()));
    vstd::set_lib::lemma_subset_equality(s.to_set(), t.to_set());
    assert forall|x: Seq<char>| s.contains(x) == t.contains(x) by {
        assert(s.to_set().contains(x) == s.contains(x));
        assert(t.to_set().contains(x) == t.contains(x));
    }
}

/// Sorted lists without repetition that hold the same are the same.
proof fn lemma_sorted_same(s: Seq<Seq<char>>, t: Seq<Seq<char>>, n: nat)
    requires
        texts_sorted(s),
        texts_sorted(t),
        s.no_duplicates(),
        t.no_duplicates(),
        s.len() == t.len(),
        forall|x: Seq<char>| s.contains(x) == t.contains(x),
        n <= s.len(),
    ensures
        s.take(n as int) == t.take(n as int),
    decreases n,
{
    if n > 0 {
        let k = n - 1;
        lemma_sorted_same(s, t, k as nat);
        assert forall|j: int| 0 <= j < k implies s[j] == t[j] by {
            assert(s.take(k)[j] == t.take(k)[j]);
        }
        assert(s.contains(s[k]) && t.contains(t[k]));
        let i = choose|i: int| 0 <= i < t.len() && t[i] == s[k];
        let j = choose|j: int| 0 <= j < s.len() && s[j] == t[k];
        if i < k {
            assert(s[i] == s[k]);
        }
        if j < k {
            assert(t[j] == t[k]);
        }
        if i > k && j > k {
            assert(text_le(t[k], t[i]));
            assert(text_le(s[k], s[j]));
            lemma_text_le_total(s[k], t[k]);
        }
        assert(s[k] == t[k]);
        assert(s.take(n as int) =~= s.take(k).push(s[k]));
        assert(t.take(n as int) =~= t.take(k).push(t[k]));
    }
}

proof fn lemma_names_unique(x: Seq<(String, Json)>)
    requires
        distinct_names(x),
    ensures
        names(x).no_duplicates(),
{
    let nx = names(x);
    assert forall|i: int, j: int| 0 <= i < nx.len() && 0 <= j < nx.len() && i != j implies nx[i]
        != nx[j] by {
        if i < j {
            assert(x[i].0@ != x[j].0@);
        } else {
            assert(x[j].0@ != x[i].0@);
        }
    }
}

proof fn lemma_canonical_field(
    x: Seq<(String, Json)>,
    y: Seq<(String, Json)>,
    n: nat,
    p: int,
)
    requires
        canonical_fields(x, y, n),
        0 <= p < n <= x.len(),
    ensures
        0 <= field_at(y, x[p].0@) < y.len(),
        canonical_of(x[p].1, y[field_at(y, x[p].0@)].1),
    decreases n,
{
    lemma_field_at(y, x[p].0@);
    if p < n - 1 {
        lemma_canonical_field(x, y, (n - 1) as nat, p);
    }
}

proof fn lemma_same_field(x: Seq<(String, Json)>, y: Seq<(String, Json)>, n: nat, p: int)
    requires
        same_fields(x, y, n),
        0 <= p < n <= x.len(),
    ensures
        0 <= field_at(y, x[p].0@) < y.len(),
        same_json(x[p].1, y[field_at(y, x[p].0@)].1),
    decreases n,
{
    lemma_field_at(y, x[p].0@);
    if p < n - 1 {
        lemma_same_field(x, y, (n - 1) as nat, p);
    }
}

/// The names of the fields stay the same when they are put in order.
proof fn lemma_names_kept(x: Seq<(String, Json)>, rx: Seq<(String, Json)>)
    requires
        distinct_names(x),
        distinct_names(rx),
        x.len() == rx.len(),
        canonical_fields(x, rx, x.len()),
    ensures
        forall|name: Seq<char>| names(x).contains(name) == names(rx).contains(name),
{
    lemma_names_unique(x);
    lemma_names_unique(rx);
    assert forall|i: int| 0 <= i < names(x).len() implies names(rx).contains(
        #[trigger] names(x)[i],
    ) by {
        lemma_canonical_field(x, rx, x.len(), i);
        lemma_field_at(rx, x[i].0@);
        assert(names(rx)[field_at(rx, x[i].0@)] == x[i].0@);
    }
    lemma_same_members(names(x), names(rx));
}

/// Values that are the same but for the order of fields have the same text once they are put in
/// order.
pub proof fn law_canonical_text_is_stable(a: Json, b: Json, ra: Json, rb: Json)
    requires
        well_named(a),
        well_named(b),
        same_json(a, b),
        canonical_of(a, ra),
        canonical_of(b, rb),
    ensures
        json_chars(ra) == json_chars(rb),
    decreases a,
{
    match (a, b) {
        (Json::Array(x), Json::Array(y)) => {
            match (ra, rb) {
                (Json::Array(rx), Json::Array(ry)) => {
                    lemma_items_stable(x@, y@, rx@, ry@, x@.len());
                },
                _ => {},
            }
        },
        (Json::Object(x), Json::Object(y)) => {
            match (ra, rb) {
                (Json::Object(rx), Json::Object(ry)) => {
                    lemma_names_kept(x@, rx@);
                    lemma_names_kept(y@, ry@);
                    lemma_names_unique(x@);
                    lemma_names_unique(y@);
                    lemma_names_unique(rx@);
                    lemma_names_unique(ry@);
                    assert forall|i: int| 0 <= i < names(x@).len() implies names(y@).contains(
                        #[trigger] names(x@)[i],
                    ) by {
                        lemma_same_field(x@, y@, x@.len(), i);
                        lemma_field_at(y@, x@[i].0@);
                        assert(names(y@)[field_at(y@, x@[i].0@)] == x@[i].0@);
                    }
                    lemma_same_members(names(x@), names(y@));
                    assert forall|name: Seq<char>| names(rx@).contains(name) == names(
                        ry@,
                    ).contains(name) by {
                        assert(names(x@).contains(name) == names(rx@).contains(name));
                        assert(names(y@).contains(name) == names(ry@).contains(name));
                        assert(names(x@).contains(name) == names(y@).contains(name));
                    }
                    lemma_sorted_same(names(rx@), names(ry@), rx@.len());
                    assert(names(rx@).take(rx@.len() as int) =~= names(rx@));
                    assert(names(ry@).take(rx@.len() as int) =~= names(ry@));
                    lemma_fields_stable(x@, y@, rx@, ry@, rx@.len());
                },
                _ => {},
            }
        },
        _ => {},
    }
}

proof fn lemma_items_stable(x: Seq<Json>, y: Seq<Json>, rx: Seq<Json>, ry: Seq<Json>, n: nat)
    requires
        n <= x.len(),
        x.len() == y.len() == rx.len() == ry.len(),
        items_well_named(x, x.len()),
        items_well_named(y, y.len()),
        same_items(x, y, n),
        canonical_items(x, rx, n),
        canonical_items(y, ry, n),
    ensures
        items_chars(rx, n) == items_chars(ry, n),
    decreases x, n,
{
    if n > 0 {
        lemma_items_stable(x, y, rx, ry, (n - 1) as nat);
        lemma_item(x, x.len(), n - 1);
        lemma_item(y, y.len(), n - 1);
        law_canonical_text_is_stable(x[n - 1], y[n - 1], rx[n - 1], ry[n - 1]);
    }
}

proof fn lemma_fields_stable(
    x: Seq<(String, Json)>,
    y: Seq<(String, Json)>,
    rx: Seq<(String, Json)>,
    ry: Seq<(String, Json)>,
    n: nat,
)
    requires
        n <= rx.len(),
        x.len() == y.len() == rx.len() == ry.len(),
        distinct_names(x) && distinct_names(y) && distinct_names(rx) && distinct_names(ry),
        fields_well_named(x, x.len()),
        fields_well_named(y, y.len()),
        same_fields(x, y, x.len()),
        canonical_fields(x, rx, x.len()),
        canonical_fields(y, ry, y.len()),
        names(rx) == names(ry),
        forall|name: Seq<char>| names(x).contains(name) == names(rx).contains(name),
    ensures
        fields_chars(rx, n) == fields_chars(ry, n),
    decreases x, n,
{
    if n > 0 {
        lemma_fields_stable(x, y, rx, ry, (n - 1) as nat);
        let i = n - 1;
        let name = rx[i].0@;
        assert(names(rx)[i] == name && names(ry)[i] == ry[i].0@);
        assert(names(rx).contains(name));
        assert(names(x).contains(name));
        let p = choose|p: int| 0 <= p < names(x).len() && names(x)[p] == name;
        assert(x[p].0@ == name);
        lemma_canonical_field(x, rx, x.len(), p);
        lemma_own_place(rx, i);
        lemma_same_field(x, y, x.len(), p);
        let q = field_at(y, name);
        lemma_field_at(y, name);
        lemma_canonical_field(y, ry, y.len(), q);
        lemma_own_place(ry, i);
        lemma_field(x, x.len(), p);
        lemma_field(y, y.len(), q);
        law_canonical_text_is_stable(x[p].1, y[q].1, rx[i].1, ry[i].1);
    }
}

} // verus!
