//! JSON values as plain data.

use crate::text::same_text;
use vstd::prelude::*;

pub mod canonical;
pub mod encode;

verus! {

/// A JSON value. A number is kept as the text that writes it.
#[derive(Debug)]
pub enum Json {
    Null,
    Bool(bool),
    Number(String),
    String(String),
    Array(Vec<Json>),
    Object(Vec<(String, Json)>),
}

/// Place of the first field of that name, or the number of fields.
pub open spec fn field_at(fields: Seq<(String, Json)>, name: Seq<char>) -> int
    decreases fields.len(),
{
    if fields.len() == 0 {
        0
    } else if field_at(fields.drop_last(), name) < fields.len() - 1 {
        field_at(fields.drop_last(), name)
    } else if fields.last().0@ == name {
        fields.len() - 1
    } else {
        fields.len() as int
    }
}

pub proof fn lemma_field_at(fields: Seq<(String, Json)>, name: Seq<char>)
    ensures
        0 <= field_at(fields, name) <= fields.len(),
        field_at(fields, name) < fields.len() ==> fields[field_at(fields, name)].0@ == name,
        forall|i: int| 0 <= i < field_at(fields, name) ==> (#[trigger] fields[i]).0@ != name,
    decreases fields.len(),
{
    if fields.len() > 0 {
        let rest = fields.drop_last();
        lemma_field_at(rest, name);
        assert forall|i: int| 0 <= i < field_at(fields, name) implies (#[trigger] fields[i]).0@
            != name by {
            if i < rest.len() {
                assert(rest[i] == fields[i]);
            }
        }
    }
}

/// Setting the value of a field leaves the others as they are.
pub proof fn lemma_field_updated(fields: Seq<(String, Json)>, at: int, field: (String, Json))
    requires
        0 <= at < fields.len(),
        at == field_at(fields, field.0@),
    ensures
        field_at(fields.update(at, field), field.0@) == at,
        forall|other: Seq<char>|
            other != field.0@ ==> #[trigger] field_at(fields.update(at, field), other) == field_at(
                fields,
                other,
            ) && field_at(fields, other) != at,
{
    let after = fields.update(at, field);
    lemma_field_at(fields, field.0@);
    lemma_field_at(after, field.0@);
    let n = field_at(after, field.0@);
    if n < at {
        assert(after[n] == fields[n]);
    } else if n > at {
        assert(after[at].0@ != field.0@);
    }
    assert forall|other: Seq<char>| other != field.0@ implies #[trigger] field_at(after, other)
        == field_at(fields, other) && field_at(fields, other) != at by {
        lemma_field_at(fields, other);
        lemma_field_at(after, other);
        let x = field_at(fields, other);
        let y = field_at(after, other);
        if x < y {
            assert(after[x].0@ != other);
            assert(x == at || after[x] == fields[x]);
        } else if y < x {
            assert(fields[y].0@ != other);
            assert(y == at || after[y] == fields[y]);
        }
    }
}

/// A field of a new name leaves the others as they are.
pub proof fn lemma_field_pushed(fields: Seq<(String, Json)>, field: (String, Json))
    requires
        field_at(fields, field.0@) == fields.len(),
    ensures
        field_at(fields.push(field), field.0@) == fields.len(),
        forall|other: Seq<char>|
            other != field.0@ ==> #[trigger] field_at(fields.push(field), other) == (if field_at(
                fields,
                other,
            ) < fields.len() {
                field_at(fields, other)
            } else {
                (fields.len() + 1) as int
            }),
{
    assert(fields.push(field).drop_last() =~= fields);
    assert forall|other: Seq<char>| other != field.0@ implies #[trigger] field_at(
        fields.push(field),
        other,
    ) == (if field_at(fields, other) < fields.len() {
        field_at(fields, other)
    } else {
        (fields.len() + 1) as int
    }) by {
        lemma_field_at(fields, other);
    }
}

/// Place of the first field of that name, or the number of fields.
pub fn find_field(fields: &Vec<(String, Json)>, name: &str) -> (r: usize)
    ensures
        r == field_at(fields@, name@),
        r <= fields@.len(),
{
    proof {
        lemma_field_at(fields@, name@);
    }
    let mut i: usize = 0;
    while i < fields.len()
        invariant
            i <= fields.len(),
            forall|j: int| 0 <= j < i ==> (#[trigger] fields@[j]).0@ != name@,
            0 <= field_at(fields@, name@) <= fields.len(),
            field_at(fields@, name@) < fields.len() ==> fields@[field_at(fields@, name@)].0@
                == name@,
            forall|j: int| 0 <= j < field_at(fields@, name@) ==> (#[trigger] fields@[j]).0@ != name@,
        decreases fields.len() - i,
    {
        if same_text(fields[i].0.as_str(), name) {
            return i;
        }
        i = i + 1;
    }
    i
}

/// The value of a field, if the value is an object that has it.
pub open spec fn field_of(j: Json, name: Seq<char>) -> Option<Json> {
    match j {
        Json::Object(fields) => if field_at(fields@, name) < fields@.len() {
            Some(fields@[field_at(fields@, name)].1)
        } else {
            None
        },
        _ => None,
    }
}

impl Json {
    /// The value of a field, if this is an object that has it.
    pub fn get<'a>(&'a self, name: &str) -> (r: Option<&'a Json>)
        ensures
            match r {
                Some(v) => field_of(*self, name@) == Some(*v),
                None => field_of(*self, name@) is None,
            },
    {
        match self {
            Json::Object(fields) => {
                let i = find_field(fields, name);
                if i < fields.len() {
                    Some(&fields[i].1)
                } else {
                    None
                }
            },
            _ => None,
        }
    }

    pub open spec fn as_text(self) -> Option<Seq<char>> {
        match self {
            Json::String(s) => Some(s@),
            _ => None,
        }
    }

    /// The text, if this is one.
    pub fn as_str<'a>(&'a self) -> (r: Option<&'a str>)
        ensures
            match r {
                Some(s) => self.as_text() == Some(s@),
                None => self.as_text() is None,
            },
    {
        match self {
            Json::String(s) => Some(s.as_str()),
            _ => None,
        }
    }
}

/// Two values are the same, whatever the order of the fields of an object.
pub open spec fn same_json(a: Json, b: Json) -> bool
    decreases a,
{
    match (a, b) {
        (Json::Null, Json::Null) => true,
        (Json::Bool(x), Json::Bool(y)) => x == y,
        (Json::Number(x), Json::Number(y)) => x@ == y@,
        (Json::String(x), Json::String(y)) => x@ == y@,
        (Json::Array(x), Json::Array(y)) => x@.len() == y@.len() && same_items(
            x@,
            y@,
            x@.len(),
        ),
        (Json::Object(x), Json::Object(y)) => x@.len() == y@.len() && same_fields(
            x@,
            y@,
            x@.len(),
        ),
        _ => false,
    }
}

/// The first `n` items are the same.
pub open spec fn same_items(x: Seq<Json>, y: Seq<Json>, n: nat) -> bool
    decreases x, n,
{
    if n == 0 || n > x.len() {
        true
    } else {
        same_items(x, y, (n - 1) as nat) && same_json(x[n - 1], y[n - 1])
    }
}

/// The first `n` fields have the same value in `y`.
pub open spec fn same_fields(x: Seq<(String, Json)>, y: Seq<(String, Json)>, n: nat) -> bool
    decreases x, n,
{
    if n == 0 || n > x.len() {
        true
    } else {
        let at = field_at(y, x[n - 1].0@);
        same_fields(x, y, (n - 1) as nat) && at < y.len() && same_json(x[n - 1].1, y[at].1)
    }
}

/// Whether two values are the same.
pub fn json_eq(a: &Json, b: &Json) -> (r: bool)
    ensures
        r == same_json(*a, *b),
    decreases *a,
{
    match (a, b) {
        (Json::Null, Json::Null) => true,
        (Json::Bool(x), Json::Bool(y)) => *x == *y,
        (Json::Number(x), Json::Number(y)) => same_text(x.as_str(), y.as_str()),
        (Json::String(x), Json::String(y)) => same_text(x.as_str(), y.as_str()),
        (Json::Array(x), Json::Array(y)) => {
            if x.len() != y.len() {
                return false;
            }
            let mut n: usize = 0;
            while n < x.len()
                invariant
                    n <= x.len(),
                    x.len() == y.len(),
                    decreases_to!(*a => x@),
                    *a == Json::Array(*x),
                    *b == Json::Array(*y),
                    same_items(x@, y@, n as nat),
                decreases x.len() - n,
            {
                if !json_eq(&x[n], &y[n]) {
                    proof {
                        lemma_items_prefix(x@, y@, (n + 1) as nat, x@.len());
                    }
                    return false;
                }
                n = n + 1;
            }
            true
        },
        (Json::Object(x), Json::Object(y)) => {
            if x.len() != y.len() {
                return false;
            }
            let mut n: usize = 0;
            while n < x.len()
                invariant
                    n <= x.len(),
                    x.len() == y.len(),
                    decreases_to!(*a => x@),
                    *a == Json::Object(*x),
                    *b == Json::Object(*y),
                    same_fields(x@, y@, n as nat),
                decreases x.len() - n,
            {
                let at = find_field(y, x[n].0.as_str());
                if at >= y.len() || !json_eq(&x[n].1, &y[at].1) {
                    proof {
                        lemma_fields_prefix(x@, y@, (n + 1) as nat, x@.len());
                    }
                    return false;
                }
                n = n + 1;
            }
            true
        },
        _ => false,
    }
}

proof fn lemma_items_prefix(x: Seq<Json>, y: Seq<Json>, n: nat, m: nat)
    requires
        n <= m <= x.len(),
    ensures
        same_items(x, y, m) ==> same_items(x, y, n),
    decreases m,
{
    if n < m {
        lemma_items_prefix(x, y, n, (m - 1) as nat);
    }
}

proof fn lemma_fields_prefix(x: Seq<(String, Json)>, y: Seq<(String, Json)>, n: nat, m: nat)
    requires
        n <= m <= x.len(),
    ensures
        same_fields(x, y, m) ==> same_fields(x, y, n),
    decreases m,
{
    if n < m {
        lemma_fields_prefix(x, y, n, (m - 1) as nat);
    }
}

} // verus!
