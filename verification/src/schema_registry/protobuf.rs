//! What a protobuf source declares.
//!
//! A message and an enumeration are declared by their names, with those of the
//! messages around them; a field by its message, its type, its name and its
//! number.

use vstd::prelude::*;
use vstd::string::*;
use crate::text::{
    Cut, cat3, chars_of, cut_upto, first_place, join, joined, not_empty, occurs_at, pieces, same,
    split_at_first, split_once, text_of, views, words, words_of,
};

verus! {

/// The message or the enumeration that is open innermost.
pub open spec fn path(scopes: Seq<Seq<char>>) -> Seq<char> {
    if scopes.len() == 0 {
        Seq::empty()
    } else {
        scopes.last()
    }
}

/// A name with those around it.
pub open spec fn inside(scopes: Seq<Seq<char>>, name: Seq<char>) -> Seq<char> {
    if path(scopes).len() == 0 {
        name
    } else {
        path(scopes) + "."@ + name
    }
}

/// The name of the message or the enumeration that a statement begins.
pub open spec fn head_name(s: Seq<char>) -> Option<Seq<char>> {
    let w = words(s);
    if split_at_first(s, "="@) is None && w.len() >= 2 && (w[0] == "message"@ || w[0] == "enum"@) {
        Some(w[1])
    } else {
        None
    }
}

/// The number of a field, from what stands behind the equals sign. Options may
/// follow it.
pub open spec fn number(s: Seq<char>) -> Seq<char> {
    let w = words(s);
    if w.len() == 0 {
        Seq::empty()
    } else {
        match split_at_first(w[0], "["@) {
            Some((n, _)) => n,
            None => w[0],
        }
    }
}

/// What a statement declares as a field: what stands before the equals sign,
/// and the number.
pub open spec fn field(scopes: Seq<Seq<char>>, s: Seq<char>) -> Option<Seq<char>> {
    match split_at_first(s, "="@) {
        Some((left, right)) => if words(left).len() == 0 || words(left) == seq!["syntax"@] {
            None
        } else {
            let text = joined(words(left), " "@) + " = "@ + number(right);
            if path(scopes).len() == 0 {
                Some(text)
            } else {
                Some(path(scopes) + ": "@ + text)
            }
        },
        None => None,
    }
}

/// What a statement declares.
pub open spec fn declared(scopes: Seq<Seq<char>>, s: Seq<char>) -> Option<Seq<char>> {
    match head_name(s) {
        Some(name) => Some(inside(scopes, name)),
        None => field(scopes, s),
    }
}

/// Whether a field has its number, so that it can end with its line.
pub open spec fn has_number(s: Seq<char>) -> bool {
    match split_at_first(s, "="@) {
        Some((_, right)) => number(right).len() > 0,
        None => false,
    }
}

/// How far a source has been read.
#[verifier::ext_equal]
pub ghost struct Reading {
    /// The messages and enumerations that are open, the innermost last.
    pub scopes: Seq<Seq<char>>,
    /// The statement that has begun.
    pub text: Seq<char>,
    pub in_comment: bool,
    pub found: Seq<Seq<char>>,
}

impl Reading {
    /// The statement has ended.
    pub open spec fn ended(self) -> Reading {
        Reading {
            text: Seq::empty(),
            found: match declared(self.scopes, self.text) {
                Some(d) => self.found.push(d),
                None => self.found,
            },
            ..self
        }
    }

    /// A block begins: that of a message or of an enumeration has its name,
    /// any other belongs to what it stands in.
    pub open spec fn opened(self) -> Reading {
        Reading {
            scopes: self.scopes.push(
                match head_name(self.text) {
                    Some(name) => inside(self.scopes, name),
                    None => path(self.scopes),
                },
            ),
            ..self.ended()
        }
    }

    /// A block ends, and the statement before it.
    pub open spec fn closed(self) -> Reading {
        Reading {
            scopes: if self.scopes.len() == 0 {
                self.scopes
            } else {
                self.scopes.drop_last()
            },
            ..self.ended()
        }
    }

    /// A line ends, and a comment with it.
    pub open spec fn line_ended(self) -> Reading {
        let r = Reading { in_comment: false, ..self };
        if has_number(self.text) {
            r.ended()
        } else {
            Reading { text: self.text.push('\n'), ..r }
        }
    }

    /// One more character.
    pub open spec fn next(self, c: char) -> Reading {
        if c == '\n' {
            self.line_ended()
        } else if self.in_comment {
            self
        } else if c == '/' && self.text.len() > 0 && self.text.last() == '/' {
            Reading { text: self.text.drop_last(), in_comment: true, ..self }
        } else if c == ';' {
            self.ended()
        } else if c == '{' {
            self.opened()
        } else if c == '}' {
            self.closed()
        } else {
            Reading { text: self.text.push(c), ..self }
        }
    }
}

/// How far a source has been read after its first `n` characters.
pub open spec fn read(source: Seq<char>, n: int) -> Reading
    decreases n,
{
    if n <= 0 {
        Reading {
            scopes: Seq::empty(),
            text: Seq::empty(),
            in_comment: false,
            found: Seq::empty(),
        }
    } else {
        read(source, n - 1).next(source[n - 1])
    }
}

/// What a source declares.
pub open spec fn declarations(source: Seq<char>) -> Seq<Seq<char>> {
    read(source, source.len() as int).ended().found
}

fn number_of(s: &str) -> (r: String)
    ensures
        r@ == number(s@),
{
    let w = words_of(s);
    assert(views(w@).len() == w@.len());
    if w.len() == 0 {
        let r = String::new();
        assert(r@ =~= number(s@));
        r
    } else {
        assert(words(s@)[0] == w@[0]@);
        match split_once(&w[0], "[") {
            Some((n, _)) => n,
            None => w[0].clone(),
        }
    }
}

fn name_of(s: &str) -> (r: Option<String>)
    ensures
        (match r {
            Some(n) => head_name(s@) == Some(n@),
            None => head_name(s@) is None,
        }),
{
    let w = words_of(s);
    assert(views(w@).len() == w@.len());
    if split_once(s, "=").is_none() && w.len() >= 2 {
        assert(words(s@)[0] == w@[0]@);
        assert(words(s@)[1] == w@[1]@);
        if same(&w[0], "message") || same(&w[0], "enum") {
            return Some(w[1].clone());
        }
    }
    None
}

fn is_numbered(s: &str) -> (r: bool)
    ensures
        r == has_number(s@),
{
    match split_once(s, "=") {
        Some((_, right)) => {
            let n = number_of(&right);
            !n.as_str().is_empty()
        },
        None => false,
    }
}

struct Reader {
    scopes: Vec<String>,
    text: Vec<char>,
    in_comment: bool,
    found: Vec<String>,
}

impl View for Reader {
    type V = Reading;

    closed spec fn view(&self) -> Reading {
        Reading {
            scopes: views(self.scopes@),
            text: self.text@,
            in_comment: self.in_comment,
            found: views(self.found@),
        }
    }
}

impl Reader {
    fn statement(&self) -> (r: String)
        ensures
            r@ == self@.text,
    {
        let r = text_of(&self.text, 0, self.text.len());
        assert(self.text@.subrange(0, self.text@.len() as int) =~= self.text@);
        r
    }

    fn path(&self) -> (r: String)
        ensures
            r@ == path(self@.scopes),
    {
        let n = self.scopes.len();
        if n == 0 {
            let r = String::new();
            assert(r@ =~= path(self@.scopes));
            r
        } else {
            assert(views(self.scopes@).last() == self.scopes@[n - 1]@);
            self.scopes[n - 1].clone()
        }
    }

    fn inside(&self, name: &str) -> (r: String)
        ensures
            r@ == inside(self@.scopes, name@),
    {
        let around = self.path();
        if around.as_str().is_empty() {
            name.to_string()
        } else {
            cat3(&around, ".", name)
        }
    }

    fn field(&self, s: &str) -> (r: Option<String>)
        ensures
            (match r {
                Some(d) => field(self@.scopes, s@) == Some(d@),
                None => field(self@.scopes, s@) is None,
            }),
    {
        let (left, right) = match split_once(s, "=") {
            Some(p) => p,
            None => {
                return None;
            },
        };
        let w = words_of(&left);
        assert(views(w@).len() == w@.len());
        if w.len() == 0 {
            return None;
        }
        assert(words(left@)[0] == w@[0]@);
        if w.len() == 1 && same(&w[0], "syntax") {
            assert(words(left@) =~= seq!["syntax"@]);
            return None;
        }
        assert(words(left@) != seq!["syntax"@]) by {
            if words(left@) == seq!["syntax"@] {
                assert(words(left@).len() == 1);
                assert(words(left@)[0] == "syntax"@);
            }
        }
        let text = cat3(&join(&w, " "), " = ", &number_of(&right));
        let around = self.path();
        if around.as_str().is_empty() {
            Some(text)
        } else {
            Some(cat3(&around, ": ", &text))
        }
    }

    fn end(&mut self)
        ensures
            final(self)@ == old(self)@.ended(),
    {
        let s = self.statement();
        let d = match name_of(&s) {
            Some(name) => Some(self.inside(&name)),
            None => self.field(&s),
        };
        let ghost before = views(self.found@);
        match d {
            Some(d) => {
                let ghost text = d@;
                self.found.push(d);
                assert(views(self.found@) =~= before.push(text));
            },
            None => {},
        }
        self.text = Vec::new();
        assert(self@ =~= old(self)@.ended());
    }

    fn open(&mut self)
        ensures
            final(self)@ == old(self)@.opened(),
    {
        let s = self.statement();
        let scope = match name_of(&s) {
            Some(name) => self.inside(&name),
            None => self.path(),
        };
        self.end();
        let ghost before = views(self.scopes@);
        let ghost name = scope@;
        self.scopes.push(scope);
        assert(views(self.scopes@) =~= before.push(name));
        assert(self@ =~= old(self)@.opened());
    }

    fn close(&mut self)
        ensures
            final(self)@ == old(self)@.closed(),
    {
        self.end();
        let ghost before = views(self.scopes@);
        if self.scopes.len() > 0 {
            let _ = self.scopes.pop();
            assert(views(self.scopes@) =~= before.drop_last());
        }
        assert(self@ =~= old(self)@.closed());
    }

    fn end_line(&mut self)
        ensures
            final(self)@ == old(self)@.line_ended(),
    {
        self.in_comment = false;
        let s = self.statement();
        if is_numbered(&s) {
            self.end();
        } else {
            self.text.push('\n');
        }
        assert(self@ =~= old(self)@.line_ended());
    }

    fn take(&mut self, c: char)
        ensures
            final(self)@ == old(self)@.next(c),
    {
        let n = self.text.len();
        if c == '\n' {
            self.end_line();
        } else if self.in_comment {
        } else if c == '/' && n > 0 && self.text[n - 1] == '/' {
            let _ = self.text.pop();
            self.in_comment = true;
            assert(self@ =~= old(self)@.next(c));
        } else if c == ';' {
            self.end();
        } else if c == '{' {
            self.open();
        } else if c == '}' {
            self.close();
        } else {
            self.text.push(c);
            assert(self@ =~= old(self)@.next(c));
        }
    }
}

/// What a source declares.
pub fn protobuf_declarations(source: &str) -> (r: Vec<String>)
    ensures
        views(r@) == declarations(source@),
{
    let v = chars_of(source);
    let mut reader = Reader {
        scopes: Vec::new(),
        text: Vec::new(),
        in_comment: false,
        found: Vec::new(),
    };
    assert(reader@ =~= read(source@, 0));
    let mut i: usize = 0;
    while i < v.len()
        invariant
            i <= v.len(),
            v@ == source@,
            reader@ == read(source@, i as int),
        decreases v@.len() - i,
    {
        reader.take(v[i]);
        i = i + 1;
    }
    reader.end();
    reader.found
}

/// A text has no equals sign.
spec fn plain(s: Seq<char>) -> bool {
    forall|i: int| 0 <= i < s.len() ==> #[trigger] s[i] != '='
}

proof fn lemma_plain_pieces(s: Seq<char>, n: int)
    requires
        plain(s),
        0 <= n <= s.len(),
    ensures
        cut_upto(s, Cut::Words, n).len() > 0,
        forall|i: int|
            0 <= i < cut_upto(s, Cut::Words, n).len() ==> plain(
                #[trigger] cut_upto(s, Cut::Words, n)[i],
            ),
    decreases n,
{
    if n > 0 {
        lemma_plain_pieces(s, n - 1);
        let before = cut_upto(s, Cut::Words, n - 1);
        let last = before[before.len() - 1];
        assert(plain(last.push(s[n - 1])));
    }
}

proof fn lemma_plain_words(v: Seq<Seq<char>>, n: int)
    requires
        0 <= n <= v.len(),
        forall|i: int| 0 <= i < v.len() ==> plain(#[trigger] v[i]),
    ensures
        forall|i: int|
            0 <= i < not_empty(v, n).len() ==> plain(#[trigger] not_empty(v, n)[i]),
    decreases n,
{
    if n > 0 {
        lemma_plain_words(v, n - 1);
        assert(plain(v[n - 1]));
        let before = not_empty(v, n - 1);
        assert forall|i: int| 0 <= i < not_empty(v, n).len() implies plain(
            #[trigger] not_empty(v, n)[i],
        ) by {
            if i < before.len() {
                assert(not_empty(v, n)[i] == before[i]);
            }
        }
    }
}

proof fn lemma_plain_joined(v: Seq<Seq<char>>)
    requires
        forall|i: int| 0 <= i < v.len() ==> plain(#[trigger] v[i]),
    ensures
        plain(joined(v, " "@)),
    decreases v.len(),
{
    reveal_strlit(" ");
    if v.len() > 1 {
        let before = v.drop_last();
        assert forall|i: int| 0 <= i < before.len() implies plain(#[trigger] before[i]) by {
            assert(before[i] == v[i]);
        }
        lemma_plain_joined(before);
        assert(plain(v[v.len() - 1]));
    }
}

proof fn lemma_plain_before(s: Seq<char>, i: int)
    requires
        0 <= i <= s.len(),
        forall|j: int| 0 <= j < i ==> #[trigger] s[j] != '=',
    ensures
        (match first_place(s, "="@, i) {
            Some(p) => i <= p < s.len() && plain(s.subrange(0, p)),
            None => true,
        }),
    decreases s.len() - i,
{
    reveal_strlit("=");
    if i < s.len() && !occurs_at(s, "="@, i) {
        assert(s[i] != '=') by {
            if s[i] == '=' {
                assert(s.subrange(i, i + 1) =~= "="@);
            }
        }
        lemma_plain_before(s, i + 1);
    }
    if i == s.len() {
        assert(first_place(s, "="@, i + 1) is None);
    }
}

/// What stands before the equals sign, with single spaces.
pub open spec fn type_and_name(s: Seq<char>) -> Option<Seq<char>> {
    match split_at_first(s, "="@) {
        Some((left, _)) => Some(joined(words(left), " "@)),
        None => None,
    }
}

/// The number behind the equals sign.
pub open spec fn number_in(s: Seq<char>) -> Option<Seq<char>> {
    match split_at_first(s, "="@) {
        Some((_, right)) => Some(number(right)),
        None => None,
    }
}

/// Two fields of a message are declared alike only where they have the same
/// type and name, and the same number.
pub proof fn law_fields_are_told_apart(scopes: Seq<Seq<char>>, s: Seq<char>, t: Seq<char>)
    requires
        field(scopes, s) is Some,
        field(scopes, s) == field(scopes, t),
    ensures
        type_and_name(s) == type_and_name(t),
        number_in(s) == number_in(t),
{
    let (a, m) = split_at_first(s, "="@)->0;
    let (b, n) = split_at_first(t, "="@)->0;
    lemma_plain_before(s, 0);
    lemma_plain_before(t, 0);
    lemma_plain_pieces(a, a.len() as int);
    lemma_plain_pieces(b, b.len() as int);
    lemma_plain_words(pieces(a, Cut::Words), pieces(a, Cut::Words).len() as int);
    lemma_plain_words(pieces(b, Cut::Words), pieces(b, Cut::Words).len() as int);
    lemma_plain_joined(words(a));
    lemma_plain_joined(words(b));
    let x = joined(words(a), " "@);
    let y = joined(words(b), " "@);
    reveal_strlit(" = ");
    let u = x + " = "@ + number(m);
    let v = y + " = "@ + number(n);
    assert(u == v) by {
        if path(scopes).len() > 0 {
            let p = path(scopes) + ": "@;
            assert(p + u == p + v);
            assert(u =~= (p + u).subrange(p.len() as int, (p + u).len() as int));
            assert(v =~= (p + v).subrange(p.len() as int, (p + v).len() as int));
        }
    }
    assert(u[x.len() as int + 1] == '=');
    assert(v[y.len() as int + 1] == '=');
    assert(x.len() == y.len()) by {
        if x.len() < y.len() {
            assert(v[x.len() as int + 1] == '=');
            if x.len() + 1 < y.len() {
                assert(y[x.len() as int + 1] == '=');
            } else {
                assert(v[y.len() as int] == ' ');
            }
        } else if y.len() < x.len() {
            assert(u[y.len() as int + 1] == '=');
            if y.len() + 1 < x.len() {
                assert(x[y.len() as int + 1] == '=');
            } else {
                assert(u[x.len() as int] == ' ');
            }
        }
    }
    assert(x =~= u.subrange(0, x.len() as int));
    assert(y =~= v.subrange(0, y.len() as int));
    assert(number(m) =~= u.subrange(x.len() as int + 3, u.len() as int));
    assert(number(n) =~= v.subrange(y.len() as int + 3, v.len() as int));
}

/// What a comment says is not read; it ends with its line.
pub proof fn law_comments_are_not_read(r: Reading, c: char)
    requires
        r.in_comment,
    ensures
        c != '\n' ==> r.next(c) == r,
        !r.next('\n').in_comment,
        r.next('\n').scopes == r.scopes,
{
}

/// What was found stays found, and is found in the order of the source; each
/// character adds one declaration at most.
pub proof fn law_found_declarations_stay(r: Reading, c: char)
    ensures
        r.found.len() <= r.next(c).found.len() <= r.found.len() + 1,
        forall|i: int| 0 <= i < r.found.len() ==> #[trigger] r.next(c).found[i] == r.found[i],
{
}

/// A brace that is closed leads back to the scope in which it was opened.
pub proof fn law_closed_scope_leads_back(r: Reading, s: Reading)
    requires
        !r.in_comment,
        !s.in_comment,
        s.scopes == r.next('{').scopes,
    ensures
        s.next('}').scopes == r.scopes,
        r.next('{').scopes.len() == r.scopes.len() + 1,
        head_name(r.text) is Some ==> path(r.next('{').scopes) == inside(
            r.scopes,
            head_name(r.text)->0,
        ),
        head_name(r.text) is None ==> path(r.next('{').scopes) == path(r.scopes),
{
    assert(r.next('{').scopes.drop_last() =~= r.scopes);
}

/// A field is told with the scope in which it stands, and a nested name with the
/// names around it.
pub proof fn law_field_is_told_with_its_scope(p: Seq<char>, s: Seq<char>, name: Seq<char>)
    requires
        p.len() > 0,
    ensures
        field(Seq::empty(), s) is Some <==> field(seq![p], s) is Some,
        field(Seq::empty(), s) is Some ==> field(seq![p], s) == Some(
            p + ": "@ + field(Seq::empty(), s)->0,
        ),
        inside(Seq::empty(), name) == name,
        inside(seq![p], name) == p + "."@ + name,
        field(Seq::empty(), s) is Some ==> split_at_first(s, "="@) is Some,
{
}

/// A source is read from its beginning, outside of any scope and comment, and what
/// follows its first part does not change what that part was read as: what was
/// found in it stays found.
pub proof fn law_more_source_keeps_what_was_found(s: Seq<char>, t: Seq<char>, n: int, i: int)
    requires
        0 <= n <= s.len(),
    ensures
        read(s + t, n) == read(s, n),
        read(s, 0).found.len() == 0,
        read(s, 0).scopes.len() == 0,
        read(s, 0).text.len() == 0,
        !read(s, 0).in_comment,
        n < s.len() ==> read(s, n + 1).found.len() <= read(s, n).found.len() + 1,
        n < s.len() && 0 <= i < read(s, n).found.len() ==> read(s, n + 1).found[i] == read(
            s,
            n,
        ).found[i],
    decreases n,
{
    if n > 0 {
        law_more_source_keeps_what_was_found(s, t, n - 1, i);
        assert((s + t)[n - 1] == s[n - 1]);
    }
    if n < s.len() {
        assert(read(s, n + 1) == read(s, n).next(s[n]));
        law_found_declarations_stay(read(s, n), s[n]);
    }
}

} // verus!
