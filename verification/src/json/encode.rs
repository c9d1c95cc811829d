//! JSON values as compact text.

use crate::crypto::hex_digit;
use crate::json::Json;
use crate::text::bool_text;
use vstd::prelude::*;
use vstd::string::*;

verus! {

/// A character inside a JSON string: quotes, backslashes and control characters are escaped.
pub open spec fn json_escaped(c: char) -> Seq<char> {
    if c == '"' || c == '\\' {
        seq!['\\', c]
    } else if c == '\u{8}' {
        seq!['\\', 'b']
    } else if c == '\u{9}' {
        seq!['\\', 't']
    } else if c == '\u{a}' {
        seq!['\\', 'n']
    } else if c == '\u{c}' {
        seq!['\\', 'f']
    } else if c == '\u{d}' {
        seq!['\\', 'r']
    } else if '\u{1f}' >= c {
        seq!['\\', 'u', '0', '0', hex_digit(c as int / 16), hex_digit(c as int % 16)]
    } else {
        seq![c]
    }
}

/// The characters of a text, escaped one by one.
pub open spec fn all_escaped(s: Seq<char>) -> Seq<char>
    decreases s.len(),
{
    if s.len() == 0 {
        Seq::empty()
    } else {
        all_escaped(s.drop_last()) + json_escaped(s.last())
    }
}

/// A text as a JSON string: in quotes, special characters escaped.
pub open spec fn json_quoted(s: Seq<char>) -> Seq<char> {
    seq!['"'] + all_escaped(s) + seq!['"']
}

/// A JSON string, by `serde_json::to_string`: in quotes, with `"`, `\` and the characters below
/// U+0020 escaped and all others as they are.
#[verifier::external_body]
fn quote_json(s: &str) -> (r: String)
    ensures
        r@ == json_quoted(s@),
{
    serde_json::to_string(s).unwrap_or_default()
}

/// The compact text of a value: no spaces, fields in the order held.
pub open spec fn json_chars(j: Json) -> Seq<char>
    decreases j,
{
    match j {
        Json::Null => "null"@,
        Json::Bool(b) => if b {
            "true"@
        } else {
            "false"@
        },
        Json::Number(n) => n@,
        Json::String(s) => json_quoted(s@),
        Json::Array(v) => "["@ + items_chars(v@, v@.len()) + "]"@,
        Json::Object(fields) => "{"@ + fields_chars(fields@, fields@.len()) + "}"@,
    }
}

/// The first `n` items, with commas between them.
pub open spec fn items_chars(v: Seq<Json>, n: nat) -> Seq<char>
    decreases v, n,
{
    if n == 0 || n > v.len() {
        Seq::empty()
    } else {
        items_chars(v, (n - 1) as nat) + comma_before(n) + json_chars(v[n - 1])
    }
}

/// The first `n` fields, with commas between them.
pub open spec fn fields_chars(v: Seq<(String, Json)>, n: nat) -> Seq<char>
    decreases v, n,
{
    if n == 0 || n > v.len() {
        Seq::empty()
    } else {
        fields_chars(v, (n - 1) as nat) + comma_before(n) + json_quoted(v[n - 1].0@) + ":"@
            + json_chars(v[n - 1].1)
    }
}

/// What stands before the `n`th of several entries.
pub open spec fn comma_before(n: nat) -> Seq<char> {
    if n > 1 {
        ","@
    } else {
        Seq::empty()
    }
}

impl Json {
    /// The compact text of this value.
    pub fn to_text(&self) -> (r: String)
        ensures
            r@ == json_chars(*self),
        decreases *self,
    {
        match self {
            Json::Null => "null".to_owned(),
            Json::Bool(b) => bool_text(*b).to_owned(),
            Json::Number(n) => n.clone(),
            Json::String(s) => quote_json(s.as_str()),
            Json::Array(v) => {
                let mut r = "[".to_owned();
                let mut n: usize = 0;
                while n < v.len()
                    invariant
                        n <= v.len(),
                        decreases_to!(*self => v@),
                        *self == Json::Array(*v),
                        r@ == "["@ + items_chars(v@, n as nat),
                    decreases v.len() - n,
                {
                    let ghost before = items_chars(v@, n as nat);
                    if n > 0 {
                        r.append(",");
                    }
                    let item = v[n].to_text();
                    r.append(item.as_str());
                    n = n + 1;
                    assert(r@ =~= "["@ + (before + comma_before(n as nat) + item@));
                }
                r.append("]");
                r
            },
            Json::Object(fields) => {
                let mut r = "{".to_owned();
                let mut n: usize = 0;
                while n < fields.len()
                    invariant
                        n <= fields.len(),
                        decreases_to!(*self => fields@),
                        *self == Json::Object(*fields),
                        r@ == "{"@ + fields_chars(fields@, n as nat),
                    decreases fields.len() - n,
                {
                    let ghost before = fields_chars(fields@, n as nat);
                    if n > 0 {
                        r.append(",");
                    }
                    let name = quote_json(fields[n].0.as_str());
                    r.append(name.as_str());
                    r.append(":");
                    let value = fields[n].1.to_text();
                    r.append(value.as_str());
                    n = n + 1;
                    assert(r@ =~= "{"@ + (before + comma_before(n as nat) + name@ + ":"@ + value@));
                }
                r.append("}");
                r
            },
        }
    }
}

} // verus!
