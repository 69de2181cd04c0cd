//! Strings as sequences of characters: the text operations that the rest of
//! the library is stated over.

use vstd::prelude::*;
use vstd::string::*;

verus! {

/// Unicode's `White_Space` property.
pub open spec fn is_white_space(c: char) -> bool {
    let n = c as int;
    ||| 0x9 <= n <= 0xd
    ||| n == 0x20
    ||| n == 0x85
    ||| n == 0xa0
    ||| n == 0x1680
    ||| 0x2000 <= n <= 0x200a
    ||| n == 0x2028
    ||| n == 0x2029
    ||| n == 0x202f
    ||| n == 0x205f
    ||| n == 0x3000
}

/// `char::is_whitespace`: whether the character has the `White_Space`
/// property of the Unicode Character Database.
#[verifier::external_body]
fn char_is_white_space(c: char) -> (r: bool)
    ensures
        r == is_white_space(c),
{
    c.is_whitespace()
}

/// `String::push`: appends one character.
#[verifier::external_body]
fn push_char(s: &mut String, c: char)
    ensures
        final(s)@ == old(s)@.push(c),
{
    s.push(c)
}

/// What `str::to_lowercase` makes of a text.
pub uninterp spec fn lower_case(s: Seq<char>) -> Seq<char>;

/// `str::to_lowercase`: the lower-case equivalent of the text, by Unicode's
/// rules, which are not restated here.
#[verifier::external_body]
pub(crate) fn to_lower_case(s: &str) -> (r: String)
    ensures
        r@ == lower_case(s@),
{
    s.to_lowercase()
}

/// What `String::from_utf8_lossy` makes of a byte string.
pub uninterp spec fn utf8_lossy(bytes: Seq<u8>) -> Seq<char>;

/// `String::from_utf8_lossy`: the text that the bytes encode, with the
/// replacement character in place of what is not UTF-8.
#[verifier::external_body]
pub(crate) fn text_from_bytes(bytes: &[u8]) -> (r: String)
    ensures
        r@ == utf8_lossy(bytes@),
{
    String::from_utf8_lossy(bytes).into_owned()
}

/// A text as Rust writes it for debugging: in quotes, with what has to be
/// escaped escaped.
pub uninterp spec fn debug_text(s: Seq<char>) -> Seq<char>;

/// Writes a text with the `Debug` of `str`.
#[verifier::external_body]
pub(crate) fn write_debug(s: &str) -> (r: String)
    ensures
        r@ == debug_text(s@),
{
    format!("{:?}", s)
}

/// The characters of a text.
pub fn chars_of(s: &str) -> (r: Vec<char>)
    ensures
        r@ == s@,
{
    let mut r: Vec<char> = Vec::new();
    for c in it: s.chars()
        invariant
            it.seq() == s@,
            r@ == s@.subrange(0, it.index() as int),
    {
        r.push(c);
        assert(r@ =~= s@.subrange(0, it.index() as int + 1));
    }
    assert(s@.subrange(0, s@.len() as int) =~= s@);
    r
}

/// The text of `v[from..to]`.
pub fn text_of(v: &Vec<char>, from: usize, to: usize) -> (r: String)
    requires
        from <= to <= v@.len(),
    ensures
        r@ == v@.subrange(from as int, to as int),
{
    let mut r = String::new();
    let mut i: usize = from;
    while i < to
        invariant
            from <= i <= to <= v@.len(),
            r@ == v@.subrange(from as int, i as int),
        decreases to - i,
    {
        push_char(&mut r, v[i]);
        assert(v@.subrange(from as int, i as int).push(v@[i as int]) =~= v@.subrange(
            from as int,
            i as int + 1,
        ));
        i = i + 1;
    }
    r
}

/// Whether two texts are the same.
pub fn same(a: &str, b: &str) -> (r: bool)
    ensures
        r == (a@ == b@),
{
    a.to_owned() == b.to_owned()
}

/// The text of `a` followed by that of `b`.
pub fn cat2(a: &str, b: &str) -> (r: String)
    ensures
        r@ == a@ + b@,
{
    a.to_owned().concat(b)
}

pub fn cat3(a: &str, b: &str, c: &str) -> (r: String)
    ensures
        r@ == a@ + b@ + c@,
{
    a.to_owned().concat(b).concat(c)
}

pub fn cat4(a: &str, b: &str, c: &str, d: &str) -> (r: String)
    ensures
        r@ == a@ + b@ + c@ + d@,
{
    a.to_owned().concat(b).concat(c).concat(d)
}

pub fn cat5(a: &str, b: &str, c: &str, d: &str, e: &str) -> (r: String)
    ensures
        r@ == a@ + b@ + c@ + d@ + e@,
{
    a.to_owned().concat(b).concat(c).concat(d).concat(e)
}

pub fn cat6(a: &str, b: &str, c: &str, d: &str, e: &str, f: &str) -> (r: String)
    ensures
        r@ == a@ + b@ + c@ + d@ + e@ + f@,
{
    a.to_owned().concat(b).concat(c).concat(d).concat(e).concat(f)
}

pub fn cat7(a: &str, b: &str, c: &str, d: &str, e: &str, f: &str, g: &str) -> (r: String)
    ensures
        r@ == a@ + b@ + c@ + d@ + e@ + f@ + g@,
{
    a.to_owned().concat(b).concat(c).concat(d).concat(e).concat(f).concat(g)
}

/// Every character is white space: what `trim` leaves empty.
pub open spec fn blank(s: Seq<char>) -> bool {
    forall|i: int| 0 <= i < s.len() ==> is_white_space(#[trigger] s[i])
}

pub fn is_blank(s: &str) -> (r: bool)
    ensures
        r == blank(s@),
{
    let v = chars_of(s);
    let mut i: usize = 0;
    while i < v.len()
        invariant
            i <= v@.len(),
            v@ == s@,
            forall|j: int| 0 <= j < i ==> is_white_space(#[trigger] v@[j]),
        decreases v@.len() - i,
    {
        if !char_is_white_space(v[i]) {
            return false;
        }
        i = i + 1;
    }
    true
}

/// The text without the white space before its first other character.
pub open spec fn trimmed_start(s: Seq<char>) -> Seq<char>
    decreases s.len(),
{
    if s.len() > 0 && is_white_space(s[0]) {
        trimmed_start(s.subrange(1, s.len() as int))
    } else {
        s
    }
}

/// The text without the white space behind its last other character.
pub open spec fn trimmed_end(s: Seq<char>) -> Seq<char>
    decreases s.len(),
{
    if s.len() > 0 && is_white_space(s[s.len() - 1]) {
        trimmed_end(s.subrange(0, s.len() - 1))
    } else {
        s
    }
}

/// The text without white space at either end.
pub open spec fn trimmed(s: Seq<char>) -> Seq<char> {
    trimmed_end(trimmed_start(s))
}

pub fn trim(s: &str) -> (r: String)
    ensures
        r@ == trimmed(s@),
{
    let v = chars_of(s);
    let mut from: usize = 0;
    let mut more = from < v.len();
    assert(v@.subrange(0, v@.len() as int) =~= v@);
    while more
        invariant
            from <= v.len(),
            more ==> from < v@.len(),
            trimmed_start(v@) == trimmed_start(v@.subrange(from as int, v@.len() as int)),
            !more ==> trimmed_start(v@) == v@.subrange(from as int, v@.len() as int),
        decreases v@.len() - from, if more { 1int } else { 0int },
    {
        let ghost rest = v@.subrange(from as int, v@.len() as int);
        if char_is_white_space(v[from]) {
            from = from + 1;
            more = from < v.len();
            let ghost left = v@.subrange(from as int, v@.len() as int);
            assert(rest.subrange(1, rest.len() as int) =~= left);
            assert(!more ==> trimmed_start(left) == left);
        } else {
            more = false;
        }
    }
    let ghost s1 = v@.subrange(from as int, v@.len() as int);
    let mut to: usize = v.len();
    let mut more = from < to;
    assert(s1.subrange(0, s1.len() as int) =~= s1);
    while more
        invariant
            from <= to <= v@.len(),
            s1 == v@.subrange(from as int, v@.len() as int),
            more ==> from < to,
            trimmed_end(s1) == trimmed_end(v@.subrange(from as int, to as int)),
            !more ==> trimmed_end(s1) == v@.subrange(from as int, to as int),
        decreases to - from, if more { 1int } else { 0int },
    {
        let ghost rest = v@.subrange(from as int, to as int);
        if char_is_white_space(v[to - 1]) {
            to = to - 1;
            more = from < to;
            assert(rest.subrange(0, rest.len() - 1) =~= v@.subrange(from as int, to as int));
        } else {
            more = false;
        }
    }
    text_of(&v, from, to)
}

/// `p` occurs in `s` at `i`.
pub open spec fn occurs_at(s: Seq<char>, p: Seq<char>, i: int) -> bool {
    0 <= i <= s.len() - p.len() && s.subrange(i, i + p.len()) == p
}

/// `p` occurs in `s`.
pub open spec fn has_text(s: Seq<char>, p: Seq<char>) -> bool {
    exists|i: int| #[trigger] occurs_at(s, p, i)
}

/// Whether `p` occurs in `v` at `i`.
pub fn matches_at(v: &Vec<char>, p: &Vec<char>, i: usize) -> (r: bool)
    requires
        i <= v@.len(),
    ensures
        r == occurs_at(v@, p@, i as int),
{
    if p.len() > v.len() - i {
        return false;
    }
    let mut j: usize = 0;
    while j < p.len()
        invariant
            j <= p@.len(),
            i + p@.len() <= v.len(),
            forall|k: int| 0 <= k < j ==> v@[i + k] == #[trigger] p@[k],
        decreases p@.len() - j,
    {
        if v[i + j] != p[j] {
            assert(v@.subrange(i as int, i + p@.len())[j as int] != p@[j as int]);
            return false;
        }
        j = j + 1;
    }
    assert(v@.subrange(i as int, i + p@.len()) =~= p@);
    true
}

/// Whether `p` occurs in `s`.
pub fn contains(s: &str, p: &str) -> (r: bool)
    ensures
        r == has_text(s@, p@),
{
    let v = chars_of(s);
    let w = chars_of(p);
    if w.len() > v.len() {
        return false;
    }
    let last = v.len() - w.len();
    let mut i: usize = 0;
    while i < last
        invariant
            i <= last,
            last == v@.len() - w@.len(),
            v@ == s@,
            w@ == p@,
            forall|k: int| 0 <= k < i ==> !#[trigger] occurs_at(s@, p@, k),
        decreases last - i,
    {
        if matches_at(&v, &w, i) {
            return true;
        }
        i = i + 1;
    }
    matches_at(&v, &w, last)
}

/// `s` begins with `p`.
pub open spec fn begins_with(s: Seq<char>, p: Seq<char>) -> bool {
    occurs_at(s, p, 0)
}

/// `s` ends with `p`.
pub open spec fn ends_in(s: Seq<char>, p: Seq<char>) -> bool {
    occurs_at(s, p, s.len() - p.len())
}

pub fn starts_with(s: &str, p: &str) -> (r: bool)
    ensures
        r == begins_with(s@, p@),
{
    let v = chars_of(s);
    let w = chars_of(p);
    matches_at(&v, &w, 0)
}

pub fn ends_with(s: &str, p: &str) -> (r: bool)
    ensures
        r == ends_in(s@, p@),
{
    let v = chars_of(s);
    let w = chars_of(p);
    if w.len() > v.len() {
        return false;
    }
    matches_at(&v, &w, v.len() - w.len())
}

/// The text that follows `p` in `s`, where `s` begins with it.
pub open spec fn after_prefix(s: Seq<char>, p: Seq<char>) -> Option<Seq<char>> {
    if begins_with(s, p) {
        Some(s.subrange(p.len() as int, s.len() as int))
    } else {
        None
    }
}

pub fn strip_prefix(s: &str, p: &str) -> (r: Option<String>)
    ensures
        (match r {
            Some(t) => after_prefix(s@, p@) == Some(t@),
            None => after_prefix(s@, p@) is None,
        }),
{
    let v = chars_of(s);
    let w = chars_of(p);
    if matches_at(&v, &w, 0) {
        Some(text_of(&v, w.len(), v.len()))
    } else {
        None
    }
}

/// `s` without any number of repetitions of `p` at its start.
pub open spec fn without_leading(s: Seq<char>, p: Seq<char>) -> Seq<char>
    decreases s.len(),
{
    if p.len() > 0 && begins_with(s, p) {
        without_leading(s.subrange(p.len() as int, s.len() as int), p)
    } else {
        s
    }
}

pub fn trim_start_matches(s: &str, p: &str) -> (r: String)
    requires
        p@.len() > 0,
    ensures
        r@ == without_leading(s@, p@),
    decreases s@.len(),
{
    match strip_prefix(s, p) {
        Some(rest) => trim_start_matches(&rest, p),
        None => s.to_owned(),
    }
}

/// `s` without any number of repetitions of the character `c` at its end.
pub open spec fn without_trailing(s: Seq<char>, c: char) -> Seq<char>
    decreases s.len(),
{
    if s.len() > 0 && s[s.len() - 1] == c {
        without_trailing(s.subrange(0, s.len() - 1), c)
    } else {
        s
    }
}

pub fn trim_end_char(s: &str, c: char) -> (r: String)
    ensures
        r@ == without_trailing(s@, c),
{
    let v = chars_of(s);
    let mut to: usize = v.len();
    let mut more = to > 0;
    assert(v@.subrange(0, v@.len() as int) =~= v@);
    while more
        invariant
            to <= v@.len(),
            v@ == s@,
            more ==> to > 0,
            without_trailing(s@, c) == without_trailing(v@.subrange(0, to as int), c),
            !more ==> without_trailing(s@, c) == v@.subrange(0, to as int),
        decreases to, if more { 1int } else { 0int },
    {
        let ghost rest = v@.subrange(0, to as int);
        if v[to - 1] == c {
            to = to - 1;
            more = to > 0;
            assert(rest.subrange(0, rest.len() - 1) =~= v@.subrange(0, to as int));
        } else {
            more = false;
        }
    }
    text_of(&v, 0, to)
}

/// The decimal digit of `n`.
pub open spec fn digit(n: int) -> char {
    if n == 0 {
        '0'
    } else if n == 1 {
        '1'
    } else if n == 2 {
        '2'
    } else if n == 3 {
        '3'
    } else if n == 4 {
        '4'
    } else if n == 5 {
        '5'
    } else if n == 6 {
        '6'
    } else if n == 7 {
        '7'
    } else if n == 8 {
        '8'
    } else {
        '9'
    }
}

fn digit_char(n: u64) -> (r: char)
    ensures
        r == digit(n as int),
{
    match n {
        0 => '0',
        1 => '1',
        2 => '2',
        3 => '3',
        4 => '4',
        5 => '5',
        6 => '6',
        7 => '7',
        8 => '8',
        _ => '9',
    }
}

/// The decimal notation of a natural number.
pub open spec fn decimal(n: int) -> Seq<char>
    decreases n,
{
    if n < 10 {
        Seq::<char>::empty().push(digit(n))
    } else {
        decimal(n / 10).push(digit(n % 10))
    }
}

/// The decimal notation of an integer, with a minus sign where it is negative.
pub open spec fn signed_decimal(n: int) -> Seq<char> {
    if n < 0 {
        "-"@ + decimal(-n)
    } else {
        decimal(n)
    }
}

pub fn decimal_text(n: u64) -> (r: String)
    ensures
        r@ == decimal(n as int),
    decreases n,
{
    if n < 10 {
        let mut s = String::new();
        push_char(&mut s, digit_char(n));
        s
    } else {
        let mut s = decimal_text(n / 10);
        push_char(&mut s, digit_char(n % 10));
        s
    }
}

pub fn signed_decimal_text(n: i64) -> (r: String)
    ensures
        r@ == signed_decimal(n as int),
{
    if n >= 0 {
        decimal_text(n as u64)
    } else {
        let m: u64 = (-(n as i128)) as u64;
        cat2("-", &decimal_text(m))
    }
}

/// `s` with `q` in place of each occurrence of `p`, taken from the left.
pub open spec fn replaced(s: Seq<char>, p: Seq<char>, q: Seq<char>) -> Seq<char>
    decreases s.len(),
{
    if p.len() == 0 || s.len() == 0 {
        s
    } else if begins_with(s, p) {
        q + replaced(s.subrange(p.len() as int, s.len() as int), p, q)
    } else {
        s.subrange(0, 1) + replaced(s.subrange(1, s.len() as int), p, q)
    }
}

pub fn replace(s: &str, p: &str, q: &str) -> (r: String)
    requires
        p@.len() > 0,
    ensures
        r@ == replaced(s@, p@, q@),
{
    let v = chars_of(s);
    let w = chars_of(p);
    let mut r = String::new();
    let mut i: usize = 0;
    assert(v@.subrange(0, v@.len() as int) =~= v@);
    assert(r@ + replaced(s@, p@, q@) =~= replaced(s@, p@, q@));
    while i < v.len()
        invariant
            i <= v.len(),
            v@ == s@,
            w@ == p@,
            p@.len() > 0,
            r@ + replaced(v@.subrange(i as int, v@.len() as int), p@, q@) == replaced(s@, p@, q@),
        decreases v@.len() - i,
    {
        let ghost rest = v@.subrange(i as int, v@.len() as int);
        let ghost before = r@;
        assert(occurs_at(v@, w@, i as int) == begins_with(rest, p@)) by {
            if w@.len() <= rest.len() {
                assert(v@.subrange(i as int, i + w@.len()) =~= rest.subrange(0, w@.len() as int));
            }
        }
        if matches_at(&v, &w, i) {
            r.append(q);
            i = i + w.len();
            let ghost left = v@.subrange(i as int, v@.len() as int);
            assert(rest.subrange(p@.len() as int, rest.len() as int) =~= left);
            assert(before + (q@ + replaced(left, p@, q@)) =~= r@ + replaced(left, p@, q@));
        } else {
            push_char(&mut r, v[i]);
            i = i + 1;
            let ghost left = v@.subrange(i as int, v@.len() as int);
            assert(rest.subrange(1, rest.len() as int) =~= left);
            assert(before + (rest.subrange(0, 1) + replaced(left, p@, q@)) =~= r@ + replaced(
                left,
                p@,
                q@,
            ));
        }
    }
    assert(v@.subrange(i as int, v@.len() as int) =~= Seq::<char>::empty());
    assert(r@ + Seq::<char>::empty() =~= r@);
    r
}

/// The value of a decimal digit, or `None`.
pub open spec fn digit_value(c: char) -> Option<int> {
    let n = c as int;
    if 0x30 <= n <= 0x39 {
        Some(n - 0x30)
    } else {
        None
    }
}

/// The number that a text of decimal digits writes, where all are digits.
pub open spec fn digits_value(s: Seq<char>) -> Option<int>
    decreases s.len(),
{
    if s.len() == 0 {
        Some(0)
    } else {
        match (digits_value(s.drop_last()), digit_value(s.last())) {
            (Some(n), Some(d)) => Some(10 * n + d),
            _ => None,
        }
    }
}

/// The number that a text writes: at least one decimal digit, which a plus
/// sign may precede, and no more than `max`.
pub open spec fn parsed(s: Seq<char>, max: int) -> Option<int> {
    let t = if s.len() > 0 && s[0] == '+' {
        s.subrange(1, s.len() as int)
    } else {
        s
    };
    match digits_value(t) {
        Some(n) => if t.len() > 0 && n <= max {
            Some(n)
        } else {
            None
        },
        None => None,
    }
}

proof fn lemma_digits_grow(s: Seq<char>, i: int)
    requires
        0 <= i <= s.len(),
        digits_value(s) is Some,
    ensures
        digits_value(s.subrange(0, i)) is Some,
        0 <= digits_value(s.subrange(0, i))->0 <= digits_value(s)->0,
    decreases s.len(),
{
    if i < s.len() {
        assert(s.drop_last().subrange(0, i) =~= s.subrange(0, i));
        lemma_digits_grow(s.drop_last(), i);
    } else {
        assert(s.subrange(0, i) =~= s);
        if s.len() > 0 {
            lemma_digits_grow(s.drop_last(), s.len() - 1);
            assert(s.drop_last().subrange(0, s.len() - 1) =~= s.drop_last());
        }
    }
}

fn char_digit(c: char) -> (r: Option<u32>)
    ensures
        (match r {
            Some(d) => digit_value(c) == Some(d as int) && d <= 9,
            None => digit_value(c) is None,
        }),
{
    let n: u32 = c as u32;
    if 0x30 <= n && n <= 0x39 {
        Some(n - 0x30)
    } else {
        None
    }
}

/// The number that a text writes, where it fits an unsigned 32-bit integer.
pub fn parse_u32(s: &str) -> (r: Option<u32>)
    ensures
        (match r {
            Some(n) => parsed(s@, u32::MAX as int) == Some(n as int),
            None => parsed(s@, u32::MAX as int) is None,
        }),
{
    let v = chars_of(s);
    let from: usize = if v.len() > 0 && v[0] == '+' {
        1
    } else {
        0
    };
    let ghost t = v@.subrange(from as int, v@.len() as int);
    assert(from == 0 ==> t =~= s@);
    if from >= v.len() {
        return None;
    }
    let mut n: u64 = 0;
    let mut i: usize = from;
    assert(t.subrange(0, 0) =~= Seq::<char>::empty());
    while i < v.len()
        invariant
            from <= i <= v.len(),
            from < v@.len(),
            t == v@.subrange(from as int, v@.len() as int),
            t == if s@.len() > 0 && s@[0] == '+' {
                s@.subrange(1, s@.len() as int)
            } else {
                s@
            },
            n <= u32::MAX,
            digits_value(t.subrange(0, i - from)) == Some(n as int),
        decreases v@.len() - i,
    {
        let ghost next = t.subrange(0, i - from + 1);
        assert(next.drop_last() =~= t.subrange(0, i - from));
        assert(next.last() == v@[i as int]);
        proof {
            if digits_value(t) is Some {
                lemma_digits_grow(t, i - from + 1);
            }
        }
        match char_digit(v[i]) {
            Some(d) => {
                n = 10 * n + d as u64;
                if n > u32::MAX as u64 {
                    return None;
                }
            },
            None => {
                return None;
            },
        }
        i = i + 1;
    }
    assert(t.subrange(0, i - from) =~= t);
    Some(n as u32)
}

/// The texts one after the other, with `sep` between neighbours.
pub open spec fn joined(parts: Seq<Seq<char>>, sep: Seq<char>) -> Seq<char>
    decreases parts.len(),
{
    if parts.len() == 0 {
        Seq::empty()
    } else if parts.len() == 1 {
        parts[0]
    } else {
        joined(parts.drop_last(), sep) + sep + parts.last()
    }
}

/// The texts of a list of strings.
pub open spec fn views(v: Seq<String>) -> Seq<Seq<char>> {
    Seq::new(v.len(), |i: int| v[i]@)
}

pub fn join(parts: &Vec<String>, sep: &str) -> (r: String)
    ensures
        r@ == joined(views(parts@), sep@),
{
    let mut r = String::new();
    let mut i: usize = 0;
    while i < parts.len()
        invariant
            i <= parts@.len(),
            r@ == joined(views(parts@.subrange(0, i as int)), sep@),
        decreases parts@.len() - i,
    {
        let ghost done = views(parts@.subrange(0, i as int + 1));
        assert(done.drop_last() =~= views(parts@.subrange(0, i as int)));
        assert(done.last() == parts@[i as int]@);
        if i > 0 {
            r.append(sep);
        }
        assert(i == 0 ==> Seq::<char>::empty() + parts@[i as int]@ =~= parts@[i as int]@);
        r.append(&parts[i]);
        i = i + 1;
    }
    assert(parts@.subrange(0, parts@.len() as int) =~= parts@);
    r
}

/// A copy of a list of strings.
pub fn copy_texts(v: &Vec<String>) -> (r: Vec<String>)
    ensures
        r@ == v@,
{
    let mut r: Vec<String> = Vec::new();
    let mut i: usize = 0;
    while i < v.len()
        invariant
            i <= v@.len(),
            r@ == v@.subrange(0, i as int),
        decreases v@.len() - i,
    {
        r.push(v[i].clone());
        i = i + 1;
        assert(v@.subrange(0, i as int) =~= v@.subrange(0, i as int - 1).push(v@[i as int - 1]));
    }
    assert(v@.subrange(0, v@.len() as int) =~= v@);
    r
}

/// `s` is one of the texts.
pub open spec fn lists(v: Seq<String>, s: Seq<char>) -> bool {
    exists|i: int| 0 <= i < v.len() && (#[trigger] v[i])@ == s
}

pub fn has(v: &Vec<String>, s: &str) -> (r: bool)
    ensures
        r == lists(v@, s@),
{
    let mut i: usize = 0;
    while i < v.len()
        invariant
            i <= v@.len(),
            forall|j: int| 0 <= j < i ==> (#[trigger] v@[j])@ != s@,
        decreases v@.len() - i,
    {
        if same(&v[i], s) {
            return true;
        }
        i = i + 1;
    }
    false
}

/// Where a text is cut.
#[derive(Clone, Copy, Debug, PartialEq, Eq, Structural)]
pub enum Cut {
    /// At the ends of lines.
    Lines,
    /// At white space.
    Words,
    /// At full stops.
    Dots,
    /// At slashes.
    Slashes,
}

/// Whether a character ends a piece.
pub open spec fn cuts(k: Cut, c: char) -> bool {
    match k {
        Cut::Lines => c == '\n',
        Cut::Words => is_white_space(c),
        Cut::Dots => c == '.',
        Cut::Slashes => c == '/',
    }
}

fn is_cut(k: Cut, c: char) -> (r: bool)
    ensures
        r == cuts(k, c),
{
    match k {
        Cut::Lines => c == '\n',
        Cut::Words => char_is_white_space(c),
        Cut::Dots => c == '.',
        Cut::Slashes => c == '/',
    }
}

/// The pieces that the first `n` characters are cut into; the last may still
/// go on.
pub open spec fn cut_upto(s: Seq<char>, k: Cut, n: int) -> Seq<Seq<char>>
    decreases n,
{
    if n <= 0 {
        Seq::empty().push(Seq::empty())
    } else {
        let before = cut_upto(s, k, n - 1);
        if cuts(k, s[n - 1]) {
            before.push(Seq::empty())
        } else {
            before.drop_last().push(before.last().push(s[n - 1]))
        }
    }
}

/// The pieces that a text is cut into.
pub open spec fn pieces(s: Seq<char>, k: Cut) -> Seq<Seq<char>> {
    cut_upto(s, k, s.len() as int)
}

/// The pieces that a text is cut into.
pub fn cut(s: &str, k: Cut) -> (r: Vec<String>)
    ensures
        views(r@) == pieces(s@, k),
        r@.len() > 0,
{
    let v = chars_of(s);
    let mut done: Vec<String> = Vec::new();
    let mut last = String::new();
    let mut i: usize = 0;
    assert(views(done@).push(last@) =~= cut_upto(s@, k, 0));
    while i < v.len()
        invariant
            i <= v.len(),
            v@ == s@,
            views(done@).push(last@) == cut_upto(s@, k, i as int),
        decreases v@.len() - i,
    {
        let c = v[i];
        let ghost before = cut_upto(s@, k, i as int);
        assert(before.last() == last@);
        assert(before.drop_last() =~= views(done@));
        if is_cut(k, c) {
            let ghost had = views(done@);
            done.push(last);
            assert(views(done@) =~= had.push(last@));
            last = String::new();
        } else {
            push_char(&mut last, c);
        }
        i = i + 1;
        assert(views(done@).push(last@) =~= cut_upto(s@, k, i as int));
    }
    let ghost had = views(done@);
    done.push(last);
    assert(views(done@) =~= had.push(last@));
    done
}

/// Those of the first `n` texts that are not empty.
pub open spec fn not_empty(v: Seq<Seq<char>>, n: int) -> Seq<Seq<char>>
    decreases n,
{
    if n <= 0 {
        Seq::empty()
    } else if v[n - 1].len() > 0 {
        not_empty(v, n - 1).push(v[n - 1])
    } else {
        not_empty(v, n - 1)
    }
}

/// The words of a text.
pub open spec fn words(s: Seq<char>) -> Seq<Seq<char>> {
    not_empty(pieces(s, Cut::Words), pieces(s, Cut::Words).len() as int)
}

/// The words of a text.
pub fn words_of(s: &str) -> (r: Vec<String>)
    ensures
        views(r@) == words(s@),
{
    let all = cut(s, Cut::Words);
    let ghost parts = views(all@);
    let mut r: Vec<String> = Vec::new();
    let mut i: usize = 0;
    assert(views(r@) =~= not_empty(parts, 0));
    while i < all.len()
        invariant
            i <= all.len(),
            parts == views(all@),
            views(r@) == not_empty(parts, i as int),
        decreases all@.len() - i,
    {
        if !all[i].as_str().is_empty() {
            let ghost had = views(r@);
            r.push(all[i].clone());
            assert(views(r@) =~= had.push(parts[i as int]));
        }
        i = i + 1;
    }
    r
}

/// A text without the carriage return at its end.
pub open spec fn without_return(s: Seq<char>) -> Seq<char> {
    if s.len() > 0 && s[s.len() - 1] == '\r' {
        s.subrange(0, s.len() - 1)
    } else {
        s
    }
}

/// The first `n` of the pieces as lines. A carriage return belongs to the end of
/// a line, and what follows the last end is a line only if there is something.
pub open spec fn lines_upto(v: Seq<Seq<char>>, n: int) -> Seq<Seq<char>>
    decreases n,
{
    if n <= 0 {
        Seq::empty()
    } else if n < v.len() {
        lines_upto(v, n - 1).push(without_return(v[n - 1]))
    } else if v[n - 1].len() > 0 {
        lines_upto(v, n - 1).push(v[n - 1])
    } else {
        lines_upto(v, n - 1)
    }
}

/// The lines of a text.
pub open spec fn text_lines(s: Seq<char>) -> Seq<Seq<char>> {
    lines_upto(pieces(s, Cut::Lines), pieces(s, Cut::Lines).len() as int)
}

fn strip_return(s: &str) -> (r: String)
    ensures
        r@ == without_return(s@),
{
    let v = chars_of(s);
    let n = v.len();
    if n > 0 && v[n - 1] == '\r' {
        text_of(&v, 0, n - 1)
    } else {
        s.to_owned()
    }
}

/// The lines of a text.
pub fn lines_of(s: &str) -> (r: Vec<String>)
    ensures
        views(r@) == text_lines(s@),
{
    let all = cut(s, Cut::Lines);
    let ghost parts = views(all@);
    let mut r: Vec<String> = Vec::new();
    let mut i: usize = 0;
    assert(views(r@) =~= lines_upto(parts, 0));
    while i < all.len()
        invariant
            i <= all.len(),
            parts == views(all@),
            views(r@) == lines_upto(parts, i as int),
        decreases all@.len() - i,
    {
        let ghost had = views(r@);
        assert(parts[i as int] == all@[i as int]@);
        if i + 1 < all.len() {
            let line = strip_return(&all[i]);
            r.push(line);
            assert(views(r@) =~= had.push(line@));
        } else if !all[i].as_str().is_empty() {
            r.push(all[i].clone());
            assert(views(r@) =~= had.push(parts[i as int]));
        }
        i = i + 1;
    }
    r
}

/// The first place from `i` on at which `p` occurs in `s`.
pub open spec fn first_place(s: Seq<char>, p: Seq<char>, i: int) -> Option<int>
    decreases s.len() + 1 - i,
{
    if i < 0 || i > s.len() {
        None
    } else if occurs_at(s, p, i) {
        Some(i)
    } else {
        first_place(s, p, i + 1)
    }
}

/// The first place from `from` on at which `p` occurs in `v`.
pub fn find_from(v: &Vec<char>, p: &Vec<char>, from: usize) -> (r: Option<usize>)
    requires
        from <= v@.len(),
    ensures
        (match r {
            Some(i) => first_place(v@, p@, from as int) == Some(i as int) && from <= i && i
                + p@.len() <= v@.len(),
            None => first_place(v@, p@, from as int) is None,
        }),
{
    let mut i: usize = from;
    while i < v.len()
        invariant
            from <= i <= v@.len(),
            first_place(v@, p@, from as int) == first_place(v@, p@, i as int),
        decreases v@.len() - i,
    {
        if matches_at(v, p, i) {
            return Some(i);
        }
        i = i + 1;
    }
    if matches_at(v, p, i) {
        Some(i)
    } else {
        assert(first_place(v@, p@, i as int + 1) is None);
        None
    }
}

/// A text in two parts, before and after the first place of `p`.
pub open spec fn split_at_first(s: Seq<char>, p: Seq<char>) -> Option<(Seq<char>, Seq<char>)> {
    match first_place(s, p, 0) {
        Some(i) => Some((s.subrange(0, i), s.subrange(i + p.len(), s.len() as int))),
        None => None,
    }
}

pub fn split_once(s: &str, p: &str) -> (r: Option<(String, String)>)
    ensures
        (match r {
            Some(t) => split_at_first(s@, p@) == Some((t.0@, t.1@)),
            None => split_at_first(s@, p@) is None,
        }),
{
    let v = chars_of(s);
    let w = chars_of(p);
    let n = v.len();
    match find_from(&v, &w, 0) {
        Some(i) => Some((text_of(&v, 0, i), text_of(&v, i + w.len(), n))),
        None => None,
    }
}

/// An ASCII letter in lower case; anything else as it is.
pub open spec fn ascii_lower(c: char) -> char {
    if 'A' <= c && c <= 'Z' {
        ((c as u32) + 32) as char
    } else {
        c
    }
}

/// The texts are the same but for the case of ASCII letters.
pub open spec fn same_but_case(a: Seq<char>, b: Seq<char>) -> bool {
    a.len() == b.len() && forall|i: int|
        0 <= i < a.len() ==> ascii_lower(#[trigger] a[i]) == ascii_lower(b[i])
}

fn same_letter(x: char, y: char) -> (r: bool)
    ensures
        r == (ascii_lower(x) == ascii_lower(y)),
{
    let a: u32 = x as u32;
    let b: u32 = y as u32;
    let p: u32 = if 65 <= a && a <= 90 {
        a + 32
    } else {
        a
    };
    let q: u32 = if 65 <= b && b <= 90 {
        b + 32
    } else {
        b
    };
    p == q
}

/// Whether two texts are the same but for the case of ASCII letters.
pub fn same_ignoring_case(a: &str, b: &str) -> (r: bool)
    ensures
        r == same_but_case(a@, b@),
{
    let v = chars_of(a);
    let w = chars_of(b);
    if v.len() != w.len() {
        return false;
    }
    let mut i: usize = 0;
    while i < v.len()
        invariant
            i <= v.len(),
            v.len() == w.len(),
            v@ == a@,
            w@ == b@,
            forall|j: int| 0 <= j < i ==> ascii_lower(#[trigger] a@[j]) == ascii_lower(b@[j]),
        decreases v@.len() - i,
    {
        if !same_letter(v[i], w[i]) {
            assert(ascii_lower(a@[i as int]) != ascii_lower(b@[i as int]));
            return false;
        }
        i = i + 1;
    }
    true
}

/// A text without its white space.
pub open spec fn without_space(s: Seq<char>) -> Seq<char>
    decreases s.len(),
{
    if s.len() == 0 {
        Seq::empty()
    } else if is_white_space(s[s.len() - 1]) {
        without_space(s.subrange(0, s.len() - 1))
    } else {
        without_space(s.subrange(0, s.len() - 1)).push(s[s.len() - 1])
    }
}

/// A text without its white space.
pub fn strip_space(s: &str) -> (r: String)
    ensures
        r@ == without_space(s@),
{
    let v = chars_of(s);
    let mut r = String::new();
    let mut i: usize = 0;
    assert(r@ =~= without_space(s@.subrange(0, 0)));
    while i < v.len()
        invariant
            i <= v.len(),
            v@ == s@,
            r@ == without_space(s@.subrange(0, i as int)),
        decreases v@.len() - i,
    {
        let c = v[i];
        assert(s@.subrange(0, i + 1).subrange(0, i as int) =~= s@.subrange(0, i as int));
        if !char_is_white_space(c) {
            push_char(&mut r, c);
        }
        i = i + 1;
    }
    assert(s@.subrange(0, s@.len() as int) =~= s@);
    r
}

proof fn lemma_pieces(s: Seq<char>, k: Cut, c: char, n: int)
    requires
        0 <= n <= s.len(),
        forall|d: char| #[trigger] cuts(k, d) <==> d == c,
    ensures
        cut_upto(s, k, n).len() > 0,
        joined(cut_upto(s, k, n), seq![c]) == s.subrange(0, n),
        forall|i: int, j: int|
            0 <= i < cut_upto(s, k, n).len() && 0 <= j < cut_upto(s, k, n)[i].len()
                ==> #[trigger] cut_upto(s, k, n)[i][j] != c,
    decreases n,
{
    let after = cut_upto(s, k, n);
    if n > 0 {
        lemma_pieces(s, k, c, n - 1);
        let before = cut_upto(s, k, n - 1);
        let x = s[n - 1];
        assert(s.subrange(0, n) =~= s.subrange(0, n - 1).push(x));
        assert(cuts(k, x) <==> x == c);
        if cuts(k, x) {
            assert(after.drop_last() =~= before);
            assert(joined(after, seq![c]) =~= s.subrange(0, n));
        } else {
            assert(after.drop_last() =~= before.drop_last());
            assert(joined(after, seq![c]) =~= s.subrange(0, n));
            assert forall|i: int, j: int|
                0 <= i < after.len() && 0 <= j < after[i].len() implies #[trigger] after[i][j]
                != c by {
                if i < before.len() - 1 {
                    assert(after[i] == before[i]);
                    assert(before[i][j] != c);
                } else if j < before.last().len() {
                    assert(before[before.len() - 1][j] != c);
                }
            }
        }
    } else {
        assert(after =~= seq![Seq::<char>::empty()]);
        assert(s.subrange(0, 0) =~= Seq::<char>::empty());
    }
}

/// The pieces of a text that is cut at one character make the text again, with
/// that character between them, and hold it nowhere.
pub proof fn law_pieces_make_the_text(s: Seq<char>, k: Cut, c: char)
    requires
        (k == Cut::Lines && c == '\n') || (k == Cut::Dots && c == '.') || (k == Cut::Slashes && c
            == '/'),
    ensures
        pieces(s, k).len() > 0,
        joined(pieces(s, k), seq![c]) == s,
        forall|i: int, j: int|
            0 <= i < pieces(s, k).len() && 0 <= j < pieces(s, k)[i].len() ==> #[trigger] pieces(
                s,
                k,
            )[i][j] != c,
{
    lemma_pieces(s, k, c, s.len() as int);
    assert(s.subrange(0, s.len() as int) =~= s);
}

proof fn lemma_words(s: Seq<char>, n: int)
    requires
        0 <= n <= s.len(),
    ensures
        cut_upto(s, Cut::Words, n).len() > 0,
        forall|i: int, j: int|
            0 <= i < cut_upto(s, Cut::Words, n).len() && 0 <= j < cut_upto(s, Cut::Words, n)[i].len()
                ==> !is_white_space(#[trigger] cut_upto(s, Cut::Words, n)[i][j]),
    decreases n,
{
    if n > 0 {
        lemma_words(s, n - 1);
        let before = cut_upto(s, Cut::Words, n - 1);
        let after = cut_upto(s, Cut::Words, n);
        if !cuts(Cut::Words, s[n - 1]) {
            assert forall|i: int, j: int|
                0 <= i < after.len() && 0 <= j < after[i].len() implies !is_white_space(
                #[trigger] after[i][j],
            ) by {
                if i < before.len() - 1 {
                    assert(after[i] == before[i]);
                    assert(!is_white_space(before[i][j]));
                } else if j < before.last().len() {
                    assert(!is_white_space(before[before.len() - 1][j]));
                }
            }
        }
    }
}

proof fn lemma_not_empty(v: Seq<Seq<char>>, n: int)
    requires
        0 <= n <= v.len(),
    ensures
        forall|i: int|
            0 <= i < not_empty(v, n).len() ==> (#[trigger] not_empty(v, n)[i]).len() > 0
                && v.contains(not_empty(v, n)[i]),
        forall|i: int|
            0 <= i < n && (#[trigger] v[i]).len() > 0 ==> not_empty(v, n).contains(v[i]),
    decreases n,
{
    if n > 0 {
        lemma_not_empty(v, n - 1);
        let before = not_empty(v, n - 1);
        let after = not_empty(v, n);
        assert forall|i: int| 0 <= i < after.len() implies (#[trigger] after[i]).len() > 0
            && v.contains(after[i]) by {
            if i < before.len() {
                assert(after[i] == before[i]);
            } else {
                assert(after[i] == v[n - 1]);
            }
        }
        assert forall|i: int| 0 <= i < n && (#[trigger] v[i]).len() > 0 implies after.contains(
            v[i],
        ) by {
            if i < n - 1 {
                assert(before.contains(v[i]));
                let j = choose|j: int| 0 <= j < before.len() && before[j] == v[i];
                assert(after[j] == v[i]);
            } else {
                assert(after[before.len() as int] == v[i]);
            }
        }
    }
}

/// A word is not empty and holds no white space.
pub proof fn law_words_hold_no_white_space(s: Seq<char>, i: int, j: int)
    requires
        0 <= i < words(s).len(),
    ensures
        words(s)[i].len() > 0,
        0 <= j < words(s)[i].len() ==> !is_white_space(words(s)[i][j]),
{
    let v = pieces(s, Cut::Words);
    lemma_words(s, s.len() as int);
    lemma_not_empty(v, v.len() as int);
    let q = choose|q: int| 0 <= q < v.len() && v[q] == words(s)[i];
    if 0 <= j < words(s)[i].len() {
        assert(!is_white_space(v[q][j]));
    }
}

/// A number is read back from the digits that it is written in.
pub proof fn law_number_is_read_back(n: int)
    requires
        0 <= n,
    ensures
        digits_value(decimal(n)) == Some(n),
        decimal(n).len() > 0,
    decreases n,
{
    if n < 10 {
        let s = decimal(n);
        assert(s.drop_last() =~= Seq::<char>::empty());
        assert(s.last() == digit(n));
        assert(digits_value(s.drop_last()) == Some(0int));
        assert(digit_value(digit(n)) == Some(n));
    } else {
        law_number_is_read_back(n / 10);
        let s = decimal(n);
        assert(s.drop_last() =~= decimal(n / 10));
        assert(s.last() == digit(n % 10));
        assert(digit_value(digit(n % 10)) == Some(n % 10));
    }
}

/// Different numbers are written differently.
pub proof fn law_numbers_are_told_apart(a: int, b: int)
    requires
        signed_decimal(a) == signed_decimal(b),
    ensures
        a == b,
{
    reveal_strlit("-");
    if a >= 0 {
        law_number_is_read_back(a);
    } else {
        law_number_is_read_back(-a);
        assert(signed_decimal(a)[0] == '-');
        assert(signed_decimal(a).subrange(1, signed_decimal(a).len() as int) =~= decimal(-a));
    }
    if b >= 0 {
        law_number_is_read_back(b);
    } else {
        law_number_is_read_back(-b);
        assert(signed_decimal(b)[0] == '-');
        assert(signed_decimal(b).subrange(1, signed_decimal(b).len() as int) =~= decimal(-b));
    }
    if a >= 0 && b < 0 {
        lemma_first_digit(a);
    }
    if b >= 0 && a < 0 {
        lemma_first_digit(b);
    }
}

proof fn lemma_first_digit(n: int)
    requires
        0 <= n,
    ensures
        decimal(n).len() > 0,
        decimal(n)[0] != '-',
    decreases n,
{
    if n >= 10 {
        lemma_first_digit(n / 10);
    }
}

/// The first place of a text is one at which it occurs, and before it there is
/// none; where there is no place, it occurs nowhere.
pub proof fn law_first_place_is_the_first(s: Seq<char>, p: Seq<char>, i: int, j: int)
    requires
        0 <= i <= j,
    ensures
        (match first_place(s, p, i) {
            Some(q) => i <= q && occurs_at(s, p, q) && (j < q ==> !occurs_at(s, p, j)),
            None => !occurs_at(s, p, j),
        }),
    decreases s.len() + 1 - i,
{
    if i <= s.len() && !occurs_at(s, p, i) {
        if i < j {
            law_first_place_is_the_first(s, p, i + 1, j);
        } else {
            law_first_place_is_the_first(s, p, i + 1, i + 1);
        }
    }
}

/// A trimmed text has no white space at its ends, and only white space was
/// taken away.
pub proof fn law_trimmed_is_the_middle(s: Seq<char>)
    ensures
        trimmed(s).len() > 0 ==> !is_white_space(trimmed(s)[0]) && !is_white_space(
            trimmed(s).last(),
        ),
        exists|a: Seq<char>, b: Seq<char>|
            #![trigger a + trimmed(s) + b]
            s == a + trimmed(s) + b && blank(a) && blank(b),
{
    let t = trimmed_start(s);
    let a = lemma_trimmed_start(s);
    let b = lemma_trimmed_end(t);
    assert(s =~= a + trimmed(s) + b);
    if trimmed(s).len() > 0 {
        assert(t[0] == trimmed(s)[0]);
    }
}

proof fn lemma_trimmed_start(s: Seq<char>) -> (a: Seq<char>)
    ensures
        s == a + trimmed_start(s),
        blank(a),
        trimmed_start(s).len() > 0 ==> !is_white_space(trimmed_start(s)[0]),
    decreases s.len(),
{
    if s.len() > 0 && is_white_space(s[0]) {
        let rest = s.subrange(1, s.len() as int);
        let b = lemma_trimmed_start(rest);
        let a = seq![s[0]] + b;
        assert(s =~= seq![s[0]] + rest);
        assert(s =~= a + trimmed_start(s));
        assert forall|i: int| 0 <= i < a.len() implies is_white_space(#[trigger] a[i]) by {
            if i > 0 {
                assert(is_white_space(b[i - 1]));
            }
        }
        a
    } else {
        assert(s =~= Seq::<char>::empty() + s);
        Seq::empty()
    }
}

proof fn lemma_trimmed_end(s: Seq<char>) -> (b: Seq<char>)
    ensures
        s == trimmed_end(s) + b,
        blank(b),
        trimmed_end(s).len() > 0 ==> !is_white_space(trimmed_end(s).last()),
    decreases s.len(),
{
    if s.len() > 0 && is_white_space(s[s.len() - 1]) {
        let rest = s.subrange(0, s.len() - 1);
        let a = lemma_trimmed_end(rest);
        let b = a.push(s[s.len() - 1]);
        assert(s =~= rest.push(s[s.len() - 1]));
        assert(s =~= trimmed_end(s) + b);
        assert forall|i: int| 0 <= i < b.len() implies is_white_space(#[trigger] b[i]) by {
            if i < a.len() {
                assert(is_white_space(a[i]));
            }
        }
        b
    } else {
        assert(s =~= s + Seq::<char>::empty());
        Seq::empty()
    }
}

/// A text in which nothing is to be replaced stays as it is; what stands in
/// front is replaced where it is looked for, and stays where it is not.
pub proof fn law_only_occurrences_are_replaced(s: Seq<char>, p: Seq<char>, q: Seq<char>)
    requires
        p.len() > 0,
    ensures
        !has_text(s, p) ==> replaced(s, p, q) == s,
        replaced(p + s, p, q) == q + replaced(s, p, q),
        s.len() > 0 && !begins_with(s, p) ==> replaced(s, p, q) == s.subrange(0, 1) + replaced(
            s.subrange(1, s.len() as int),
            p,
            q,
        ),
    decreases s.len(),
{
    let t = p + s;
    assert(t.subrange(0, p.len() as int) =~= p);
    assert(t.subrange(p.len() as int, t.len() as int) =~= s);
    if !has_text(s, p) && s.len() > 0 {
        let rest = s.subrange(1, s.len() as int);
        if begins_with(s, p) {
            assert(occurs_at(s, p, 0));
        }
        if has_text(rest, p) {
            let i = choose|i: int| #[trigger] occurs_at(rest, p, i);
            assert(rest.subrange(i, i + p.len()) =~= s.subrange(i + 1, i + 1 + p.len()));
            assert(occurs_at(s, p, i + 1));
        }
        law_only_occurrences_are_replaced(rest, p, q);
        assert(s.subrange(0, 1) + rest =~= s);
    }
}

/// What leads a text is taken away as often as it leads it, and nothing else is.
pub proof fn law_leading_text_is_taken_away(s: Seq<char>, p: Seq<char>)
    requires
        p.len() > 0,
    ensures
        !begins_with(without_leading(s, p), p),
        !begins_with(s, p) ==> without_leading(s, p) == s,
        without_leading(p + s, p) == without_leading(s, p),
    decreases s.len(),
{
    let t = p + s;
    assert(t.subrange(0, p.len() as int) =~= p);
    assert(t.subrange(p.len() as int, t.len() as int) =~= s);
    if begins_with(s, p) {
        law_leading_text_is_taken_away(s.subrange(p.len() as int, s.len() as int), p);
    }
}

/// What trails a text is taken away as often as it trails it, and nothing else
/// is.
pub proof fn law_trailing_character_is_taken_away(s: Seq<char>, c: char)
    ensures
        without_trailing(s, c).len() > 0 ==> without_trailing(s, c).last() != c,
        s.len() > 0 && s.last() != c ==> without_trailing(s, c) == s,
        without_trailing(s.push(c), c) == without_trailing(s, c),
        begins_with(s, without_trailing(s, c)),
    decreases s.len(),
{
    let t = s.push(c);
    assert(t.subrange(0, t.len() - 1) =~= s);
    if s.len() > 0 && s[s.len() - 1] == c {
        let rest = s.subrange(0, s.len() - 1);
        law_trailing_character_is_taken_away(rest, c);
        let w = without_trailing(s, c);
        assert(s.subrange(0, w.len() as int) =~= rest.subrange(0, w.len() as int));
    } else {
        assert(s.subrange(0, s.len() as int) =~= s);
    }
}

/// Parts are joined in order, with what separates them between two and nowhere
/// else.
pub proof fn law_parts_are_joined(parts: Seq<Seq<char>>, sep: Seq<char>, x: Seq<char>)
    ensures
        joined(Seq::empty(), sep).len() == 0,
        joined(seq![x], sep) == x,
        parts.len() > 0 ==> joined(parts.push(x), sep) == joined(parts, sep) + sep + x,
{
    assert(parts.push(x).drop_last() =~= parts);
}

/// A text is split at the first place where it can be: its two parts and what
/// stands between them make it up again.
pub proof fn law_text_is_split_at_the_first_place(s: Seq<char>, p: Seq<char>, j: int)
    ensures
        (match split_at_first(s, p) {
            Some((a, b)) => s == a + p + b && (0 <= j < a.len() ==> !occurs_at(s, p, j)),
            None => !has_text(s, p),
        }),
{
    if j >= 0 {
        law_first_place_is_the_first(s, p, 0, j);
    } else {
        law_first_place_is_the_first(s, p, 0, 0);
    }
    if let Some(i) = first_place(s, p, 0) {
        assert(s =~= s.subrange(0, i) + s.subrange(i, i + p.len()) + s.subrange(
            i + p.len(),
            s.len() as int,
        ));
    } else if has_text(s, p) {
        let k = choose|k: int| #[trigger] occurs_at(s, p, k);
        law_first_place_is_the_first(s, p, 0, k);
    }
}

/// Texts that differ only in the case of Latin letters are the same but for
/// case; texts that differ in length are not.
pub proof fn law_same_but_case(a: Seq<char>, b: Seq<char>, c: char)
    ensures
        same_but_case(a, a),
        same_but_case(a, b) <==> same_but_case(b, a),
        same_but_case(a, b) ==> a.len() == b.len(),
        'A' <= c && c <= 'Z' ==> ascii_lower(c) == ascii_lower((c as int + 32) as char),
        'a' <= c && c <= 'z' ==> ascii_lower(c) as int == c as int,
        '0' <= c && c <= '9' ==> ascii_lower(c) as int == c as int,
{
    if same_but_case(a, b) {
        assert forall|i: int| 0 <= i < b.len() implies ascii_lower(#[trigger] b[i]) == ascii_lower(
            a[i],
        ) by {
            assert(ascii_lower(a[i]) == ascii_lower(b[i]));
        }
    }
    if same_but_case(b, a) {
        assert forall|i: int| 0 <= i < a.len() implies ascii_lower(#[trigger] a[i]) == ascii_lower(
            b[i],
        ) by {
            assert(ascii_lower(b[i]) == ascii_lower(a[i]));
        }
    }
}

/// A text without its white space has none; a character that is none stays.
pub proof fn law_white_space_is_taken_out(s: Seq<char>, c: char)
    ensures
        forall|i: int|
            0 <= i < without_space(s).len() ==> !is_white_space(#[trigger] without_space(s)[i]),
        is_white_space(c) ==> without_space(s.push(c)) == without_space(s),
        !is_white_space(c) ==> without_space(s.push(c)) == without_space(s).push(c),
    decreases s.len(),
{
    let t = s.push(c);
    assert(t.subrange(0, t.len() - 1) =~= s);
    if s.len() > 0 {
        law_white_space_is_taken_out(s.subrange(0, s.len() - 1), c);
    }
}

} // verus!
