//! JSON documents in writing.

use vstd::prelude::*;
use vstd::string::*;
use crate::digest::hex_digit;
use crate::json::{Doc, Json, docs, members};
use crate::text::{cat2, cat3};

verus! {

/// A character as it stands in a JSON string.
pub open spec fn json_char(c: char) -> Seq<char> {
    if c == '"' || c == '\\' {
        seq!['\\', c]
    } else if c == '\u{8}' {
        seq!['\\', 'b']
    } else if c == '\t' {
        seq!['\\', 't']
    } else if c == '\n' {
        seq!['\\', 'n']
    } else if c == '\u{c}' {
        seq!['\\', 'f']
    } else if c == '\r' {
        seq!['\\', 'r']
    } else if c as int <= 31 {
        seq!['\\', 'u', '0', '0', hex_digit(c as int / 16), hex_digit(c as int % 16)]
    } else {
        seq![c]
    }
}

/// The characters of a text as they stand in a JSON string.
pub open spec fn json_chars(s: Seq<char>) -> Seq<char>
    decreases s.len(),
{
    if s.len() == 0 {
        Seq::empty()
    } else {
        json_chars(s.drop_last()) + json_char(s.last())
    }
}

/// A text as a JSON string.
pub open spec fn json_string(s: Seq<char>) -> Seq<char> {
    seq!['"'] + json_chars(s) + seq!['"']
}

/// Writes a text as a JSON string with `serde_json::to_string`: in quotes, with
/// a backslash before a quote or a backslash, and with an escape in place of a
/// control character before the space.
#[verifier::external_body]
pub(crate) fn write_string(s: &str) -> (r: String)
    ensures
        r@ == json_string(s@),
{
    serde_json::to_string(s).unwrap()
}

/// A document without white space.
pub open spec fn compact(d: Doc) -> Seq<char>
    decreases d, 0int,
{
    match d {
        Doc::Null => "null"@,
        Doc::Bool(b) => if b {
            "true"@
        } else {
            "false"@
        },
        Doc::Number(n) => n,
        Doc::Text(s) => json_string(s),
        Doc::List(l) => "["@ + compact_items(l, l.len() as int) + "]"@,
        Doc::Object(m) => "{"@ + compact_members(m, m.len() as int) + "}"@,
    }
}

/// The first `n` items of a list, without white space.
pub open spec fn compact_items(l: Seq<Doc>, n: int) -> Seq<char>
    decreases l, n,
{
    if n <= 0 || n > l.len() {
        ""@
    } else if n == 1 {
        compact(l[0])
    } else {
        compact_items(l, n - 1) + ","@ + compact(l[n - 1])
    }
}

/// The first `n` members of an object, without white space.
pub open spec fn compact_members(m: Seq<(Seq<char>, Doc)>, n: int) -> Seq<char>
    decreases m, n,
{
    if n <= 0 || n > m.len() {
        ""@
    } else {
        let member = json_string(m[n - 1].0) + ":"@ + compact(m[n - 1].1);
        if n == 1 {
            member
        } else {
            compact_members(m, n - 1) + ","@ + member
        }
    }
}

/// A document with one item or member to a line, behind
/// the indentation `pad`.
pub open spec fn pretty(d: Doc, pad: Seq<char>) -> Seq<char>
    decreases d, 0int,
{
    match d {
        Doc::List(l) => if l.len() == 0 {
            "[]"@
        } else {
            "["@ + pretty_items(l, l.len() as int, pad + "  "@) + "\n"@ + pad + "]"@
        },
        Doc::Object(m) => if m.len() == 0 {
            "{}"@
        } else {
            "{"@ + pretty_members(m, m.len() as int, pad + "  "@) + "\n"@ + pad + "}"@
        },
        _ => compact(d),
    }
}

/// The first `n` items of a list, each on a line of its own.
pub open spec fn pretty_items(l: Seq<Doc>, n: int, pad: Seq<char>) -> Seq<char>
    decreases l, n,
{
    if n <= 0 || n > l.len() {
        ""@
    } else {
        pretty_items(l, n - 1, pad) + (if n == 1 {
            "\n"@
        } else {
            ",\n"@
        }) + pad + pretty(l[n - 1], pad)
    }
}

/// The first `n` members of an object, each on a line of its own.
pub open spec fn pretty_members(m: Seq<(Seq<char>, Doc)>, n: int, pad: Seq<char>) -> Seq<char>
    decreases m, n,
{
    if n <= 0 || n > m.len() {
        ""@
    } else {
        pretty_members(m, n - 1, pad) + (if n == 1 {
            "\n"@
        } else {
            ",\n"@
        }) + pad + json_string(m[n - 1].0) + ": "@ + pretty(m[n - 1].1, pad)
    }
}

impl Json {
    /// The document without white space.
    pub fn to_text(&self) -> (r: String)
        ensures
            r@ == compact(self@),
        decreases self,
    {
        match self {
            Json::Null => "null".to_string(),
            Json::Bool(b) => if *b {
                "true".to_string()
            } else {
                "false".to_string()
            },
            Json::Number(n) => n.clone(),
            Json::Text(s) => write_string(s),
            Json::List(v) => {
                let ghost l = docs(v@);
                let mut r = "".to_string();
                let mut i: usize = 0;
                while i < v.len()
                    invariant
                        i <= v.len(),
                        l == docs(v@),
                        *self == Json::List(*v),
                        r@ == compact_items(l, i as int),
                    decreases v@.len() - i,
                {
                    assert(decreases_to!(*self => self->List_0@[i as int]));
                    let item = v[i].to_text();
                    if i > 0 {
                        r.append(",");
                        r.append(&item);
                    } else {
                        r = item;
                    }
                    i = i + 1;
                }
                cat3("[", &r, "]")
            },
            Json::Object(m) => {
                let ghost l = members(m.entries@);
                let mut r = "".to_string();
                let mut i: usize = 0;
                while i < m.entries.len()
                    invariant
                        i <= m.entries.len(),
                        l == members(m.entries@),
                        *self == Json::Object(*m),
                        r@ == compact_members(l, i as int),
                    decreases m.entries@.len() - i,
                {
                    assert(decreases_to!(*self => self->Object_0.entries@[i as int].1));
                    let value = m.entries[i].1.to_text();
                    let member = cat3(&write_string(&m.entries[i].0), ":", &value);
                    if i > 0 {
                        r.append(",");
                        r.append(&member);
                    } else {
                        r = member;
                    }
                    i = i + 1;
                }
                cat3("{", &r, "}")
            },
        }
    }

    /// The document with one item or member to a line.
    pub fn to_pretty_text(&self) -> (r: String)
        ensures
            r@ == pretty(self@, ""@),
    {
        self.to_pretty_at("")
    }

    fn to_pretty_at(&self, pad: &str) -> (r: String)
        ensures
            r@ == pretty(self@, pad@),
        decreases self,
    {
        match self {
            Json::List(v) => {
                if v.len() == 0 {
                    return "[]".to_string();
                }
                let inner = cat2(pad, "  ");
                let ghost l = docs(v@);
                let mut r = "".to_string();
                let mut i: usize = 0;
                while i < v.len()
                    invariant
                        i <= v.len(),
                        l == docs(v@),
                        *self == Json::List(*v),
                        r@ == pretty_items(l, i as int, inner@),
                    decreases v@.len() - i,
                {
                    assert(decreases_to!(*self => self->List_0@[i as int]));
                    let item = v[i].to_pretty_at(&inner);
                    r.append(if i == 0 { "\n" } else { ",\n" });
                    r.append(&inner);
                    r.append(&item);
                    i = i + 1;
                }
                crate::text::cat5("[", &r, "\n", &pad, "]")
            },
            Json::Object(m) => {
                if m.entries.len() == 0 {
                    return "{}".to_string();
                }
                let inner = cat2(pad, "  ");
                let ghost l = members(m.entries@);
                let mut r = "".to_string();
                let mut i: usize = 0;
                while i < m.entries.len()
                    invariant
                        i <= m.entries.len(),
                        l == members(m.entries@),
                        *self == Json::Object(*m),
                        r@ == pretty_members(l, i as int, inner@),
                    decreases m.entries@.len() - i,
                {
                    assert(decreases_to!(*self => self->Object_0.entries@[i as int].1));
                    let value = m.entries[i].1.to_pretty_at(&inner);
                    r.append(if i == 0 { "\n" } else { ",\n" });
                    r.append(&inner);
                    r.append(&write_string(&m.entries[i].0));
                    r.append(": ");
                    r.append(&value);
                    i = i + 1;
                }
                crate::text::cat5("{", &r, "\n", &pad, "}")
            },
            _ => self.to_text(),
        }
    }
}

/// Text is written character by character; one that means nothing special stands
/// for itself, and none that cannot be printed is written as it is.
pub proof fn law_text_is_written_by_character(s: Seq<char>, c: char)
    ensures
        json_chars(s.push(c)) == json_chars(s) + json_char(c),
        c != '"' && c != '\\' && c as int > 31 ==> json_char(c) == seq![c],
        json_char('"') == seq!['\\', '"'],
        json_char('\\') == seq!['\\', '\\'],
        json_char('\n') == seq!['\\', 'n'],
        forall|i: int| 0 <= i < json_char(c).len() ==> (#[trigger] json_char(c)[i]) as int > 31,
{
    assert(s.push(c).drop_last() =~= s);
}

proof fn lemma_items_of_prefix(l: Seq<Doc>, x: Doc, n: int)
    requires
        0 <= n <= l.len(),
    ensures
        compact_items(l.push(x), n) == compact_items(l, n),
    decreases n,
{
    if n > 1 {
        lemma_items_of_prefix(l, x, n - 1);
    }
}

proof fn lemma_members_of_prefix(m: Seq<(Seq<char>, Doc)>, x: (Seq<char>, Doc), n: int)
    requires
        0 <= n <= m.len(),
    ensures
        compact_members(m.push(x), n) == compact_members(m, n),
    decreases n,
{
    if n > 1 {
        lemma_members_of_prefix(m, x, n - 1);
    }
}

/// The text of a list holds its items in order, with a comma between two; that
/// of an object its members, each with its key, a colon and its value.
pub proof fn law_items_and_members_follow_one_another(
    l: Seq<Doc>,
    m: Seq<(Seq<char>, Doc)>,
    k: Seq<char>,
    x: Doc,
)
    ensures
        compact(Doc::List(seq![x])) == "["@ + compact(x) + "]"@,
        compact(Doc::Object(seq![(k, x)])) == "{"@ + (json_string(k) + ":"@ + compact(x)) + "}"@,
        l.len() > 0 ==> compact(Doc::List(l.push(x))) == "["@ + (compact_items(l, l.len() as int)
            + ","@ + compact(x)) + "]"@,
        m.len() > 0 ==> compact(Doc::Object(m.push((k, x)))) == "{"@ + (compact_members(
            m,
            m.len() as int,
        ) + ","@ + (json_string(k) + ":"@ + compact(x))) + "}"@,
        compact(Doc::List(l)) == "["@ + compact_items(l, l.len() as int) + "]"@,
        compact(Doc::Text(k)) == seq!['"'] + json_chars(k) + seq!['"'],
        compact(Doc::Number(k)) == k,
        compact(Doc::Bool(true)) == "true"@,
        compact(Doc::Bool(false)) == "false"@,
        compact(Doc::Null) == "null"@,
{
    lemma_items_of_prefix(l, x, l.len() as int);
    lemma_members_of_prefix(m, (k, x), m.len() as int);
}

} // verus!
