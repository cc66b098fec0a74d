//! Text primitives over character sequences.
//!
//! Every contract in this crate that speaks of text speaks of `Seq<char>`, the
//! view of `str` and `String`. The executable functions work on `Vec<char>`.

use vstd::prelude::*;

verus! {

/// The texts of a sequence of strings.
pub open spec fn texts(v: Seq<String>) -> Seq<Seq<char>> {
    v.map_values(|s: String| s@)
}

/// `needle` occurs in `hay` starting at position `at`.
pub open spec fn occurs_at(hay: Seq<char>, needle: Seq<char>, at: int) -> bool {
    &&& 0 <= at
    &&& at + needle.len() <= hay.len()
    &&& hay.subrange(at, at + needle.len()) == needle
}

/// `needle` occurs somewhere in `hay`. The empty text occurs in every text.
pub open spec fn contains_text(hay: Seq<char>, needle: Seq<char>) -> bool {
    exists|at: int| occurs_at(hay, needle, at)
}

/// `s` begins with `p`.
pub open spec fn starts_with(s: Seq<char>, p: Seq<char>) -> bool {
    occurs_at(s, p, 0)
}

/// `s` ends with `p`.
pub open spec fn ends_with(s: Seq<char>, p: Seq<char>) -> bool {
    occurs_at(s, p, s.len() - p.len())
}

/// The position of the first occurrence of `needle` in `hay` at or after `from`.
pub open spec fn find_from(hay: Seq<char>, needle: Seq<char>, from: int) -> Option<int>
    decreases hay.len() + 1 - from,
{
    if from < 0 || from + needle.len() > hay.len() {
        None
    } else if occurs_at(hay, needle, from) {
        Some(from)
    } else {
        find_from(hay, needle, from + 1)
    }
}

/// The text before the first occurrence of `sep`, or all of `s` where `sep`
/// does not occur.
pub open spec fn head_before(s: Seq<char>, sep: Seq<char>) -> Seq<char> {
    match find_from(s, sep, 0) {
        Some(at) => s.subrange(0, at),
        None => s,
    }
}

/// The texts of `parts` joined by `sep`.
pub open spec fn join(parts: Seq<Seq<char>>, sep: Seq<char>) -> Seq<char>
    decreases parts.len(),
{
    if parts.len() == 0 {
        Seq::empty()
    } else if parts.len() == 1 {
        parts[0]
    } else {
        join(parts.drop_last(), sep) + sep + parts.last()
    }
}

/// Whether a character has the Unicode property White_Space: the controls
/// from tab to carriage return, the space, next line, the no-break space, the
/// ogham space mark, the spaces from en quad to hair space, the line and
/// paragraph separators, the narrow no-break space, the medium mathematical
/// space and the ideographic space.
pub open spec fn is_whitespace(c: char) -> bool {
    ||| ('\u{9}' <= c && c <= '\u{d}')
    ||| c == ' '
    ||| c == '\u{85}'
    ||| c == '\u{a0}'
    ||| c == '\u{1680}'
    ||| ('\u{2000}' <= c && c <= '\u{200a}')
    ||| c == '\u{2028}'
    ||| c == '\u{2029}'
    ||| c == '\u{202f}'
    ||| c == '\u{205f}'
    ||| c == '\u{3000}'
}

/// Whether a character has the Unicode property Lowercase.
pub uninterp spec fn is_lowercase(c: char) -> bool;

/// Whether a character has the Unicode property Uppercase.
pub uninterp spec fn is_uppercase(c: char) -> bool;

/// The lowercase form of a text, as Unicode defines it.
pub uninterp spec fn lowercase(s: Seq<char>) -> Seq<char>;

/// `s` without its leading white space.
pub open spec fn trim_start(s: Seq<char>) -> Seq<char>
    decreases s.len(),
{
    if s.len() > 0 && is_whitespace(s[0]) {
        trim_start(s.drop_first())
    } else {
        s
    }
}

/// `s` without its trailing white space.
pub open spec fn trim_end(s: Seq<char>) -> Seq<char>
    decreases s.len(),
{
    if s.len() > 0 && is_whitespace(s.last()) {
        trim_end(s.drop_last())
    } else {
        s
    }
}

/// `s` without leading and trailing white space.
pub open spec fn trim(s: Seq<char>) -> Seq<char> {
    trim_end(trim_start(s))
}

/// `s` with every leading repetition of `p` removed.
pub open spec fn strip_prefixes(s: Seq<char>, p: Seq<char>) -> Seq<char>
    decreases s.len(),
{
    if p.len() > 0 && starts_with(s, p) {
        strip_prefixes(s.skip(p.len() as int), p)
    } else {
        s
    }
}

/// `s` with every trailing repetition of the character `c` removed.
pub open spec fn strip_trailing(s: Seq<char>, c: char) -> Seq<char>
    decreases s.len(),
{
    if s.len() > 0 && s.last() == c {
        strip_trailing(s.drop_last(), c)
    } else {
        s
    }
}

/// The longest prefix of `s` that holds no white space.
pub open spec fn leading_word(s: Seq<char>) -> Seq<char>
    decreases s.len(),
{
    if s.len() > 0 && !is_whitespace(s[0]) {
        seq![s[0]] + leading_word(s.drop_first())
    } else {
        Seq::empty()
    }
}

/// The first run of characters of `s` that are not white space; empty where
/// `s` holds nothing else.
pub open spec fn first_word(s: Seq<char>) -> Seq<char> {
    leading_word(trim_start(s))
}

/// The position of the first line feed in `s`, or the length of `s`.
pub open spec fn line_end(s: Seq<char>) -> int
    decreases s.len(),
{
    if s.len() > 0 && s[0] != '\n' {
        1 + line_end(s.drop_first())
    } else {
        0
    }
}

/// `l` without one trailing carriage return.
pub open spec fn without_carriage_return(l: Seq<char>) -> Seq<char> {
    if l.len() > 0 && l.last() == '\r' {
        l.drop_last()
    } else {
        l
    }
}

/// The lines of `s`. A line ends at a line feed, or at a carriage return
/// directly followed by a line feed; neither belongs to the line. What stands
/// after the last line feed is a line of its own unless it is empty.
pub open spec fn lines(s: Seq<char>) -> Seq<Seq<char>>
    decreases s.len(),
{
    if s.len() == 0 {
        Seq::empty()
    } else if line_end(s) < s.len() {
        proof {
            lemma_line_end(s);
        }
        seq![without_carriage_return(s.take(line_end(s)))] + lines(s.skip(line_end(s) + 1))
    } else {
        seq![s]
    }
}

/// The path without what stands at its end and names no component: every
/// trailing `/`, and every trailing `.` that follows a `/`.
pub open spec fn without_path_end(path: Seq<char>) -> Seq<char>
    decreases path.len(),
{
    if path.len() > 0 && path.last() == '/' {
        without_path_end(path.drop_last())
    } else if path.len() >= 2 && path.last() == '.' && path[path.len() - 2] == '/' {
        without_path_end(path.drop_last())
    } else {
        path
    }
}

/// The last component of the path `path` is `name`: without trailing
/// separators and trailing `.` components, the path is `name`, or ends with
/// `name` right after a `/`.
pub open spec fn names_file(path: Seq<char>, name: Seq<char>) -> bool {
    let p = without_path_end(path);
    &&& ends_with(p, name)
    &&& (p.len() == name.len() || p[p.len() - name.len() - 1] == '/')
}

/// The path of the entry `name` of the directory `dir`: `name` itself where
/// `dir` is empty, else `dir`, a `/` unless `dir` ends with one, and `name`.
pub open spec fn joined_path(dir: Seq<char>, name: Seq<char>) -> Seq<char> {
    if dir.len() == 0 {
        name
    } else if dir.last() == '/' {
        dir + name
    } else {
        dir + "/"@ + name
    }
}

/// `a` comes before `b` in the order of strings: at the first position where
/// the two differ `a` has the smaller character, or `a` ends there and `b`
/// goes on.
pub open spec fn lex_less(a: Seq<char>, b: Seq<char>) -> bool
    decreases a.len(),
{
    if b.len() == 0 {
        false
    } else if a.len() == 0 {
        true
    } else if a[0] != b[0] {
        a[0] < b[0]
    } else {
        lex_less(a.drop_first(), b.drop_first())
    }
}

/// `find_from` returns the least position at or after `from` where `needle`
/// occurs, and `None` exactly when there is no such position.
pub proof fn lemma_find_from(hay: Seq<char>, needle: Seq<char>, from: int)
    requires
        0 <= from,
    ensures
        match find_from(hay, needle, from) {
            Some(at) => from <= at && occurs_at(hay, needle, at) && forall|k: int|
                from <= k < at ==> !occurs_at(hay, needle, k),
            None => forall|k: int| from <= k ==> !occurs_at(hay, needle, k),
        },
    decreases hay.len() + 1 - from,
{
    if from + needle.len() > hay.len() {
    } else if occurs_at(hay, needle, from) {
    } else {
        lemma_find_from(hay, needle, from + 1);
    }
}

/// A text contains `needle` exactly when a first occurrence exists.
pub proof fn lemma_contains_iff_found(hay: Seq<char>, needle: Seq<char>)
    ensures
        contains_text(hay, needle) <==> find_from(hay, needle, 0) is Some,
{
    lemma_find_from(hay, needle, 0);
}

/// `line_end` lies within the text, no line feed stands before it, and one
/// stands at it unless it is the end of the text.
pub proof fn lemma_line_end(s: Seq<char>)
    ensures
        0 <= line_end(s) <= s.len(),
        forall|k: int| 0 <= k < line_end(s) ==> s[k] != '\n',
        line_end(s) < s.len() ==> s[line_end(s)] == '\n',
    decreases s.len(),
{
    if s.len() > 0 && s[0] != '\n' {
        lemma_line_end(s.drop_first());
        assert forall|k: int| 0 <= k < line_end(s) implies s[k] != '\n' by {
            if k > 0 {
                assert(s[k] == s.drop_first()[k - 1]);
            }
        }
    }
}

/// The order of strings is strict, transitive and total.
pub proof fn lemma_lex_order(a: Seq<char>, b: Seq<char>, c: Seq<char>)
    ensures
        !lex_less(a, a),
        lex_less(a, b) && lex_less(b, c) ==> lex_less(a, c),
        a != b ==> lex_less(a, b) || lex_less(b, a),
        !(lex_less(a, b) && lex_less(b, a)),
    decreases a.len(),
{
    if a.len() > 0 {
        lemma_lex_order(
            a.drop_first(),
            if b.len() > 0 {
                b.drop_first()
            } else {
                b
            },
            if c.len() > 0 {
                c.drop_first()
            } else {
                c
            },
        );
        lemma_lex_order(a.drop_first(), a.drop_first(), a.drop_first());
        if b.len() > 0 && a[0] == b[0] && a.drop_first() == b.drop_first() {
            assert(a =~= seq![a[0]] + a.drop_first());
            assert(b =~= seq![b[0]] + b.drop_first());
            assert(a =~= b);
        }
        if b.len() > 0 && a[0] != b[0] {
            assert(a[0] as int != b[0] as int);
        }
    } else {
        if b.len() == 0 {
            assert(a =~= b);
        }
    }
}

/// std's `char::is_lowercase`: whether the character has the Unicode property
/// Lowercase. The contract gives that answer a name.
#[verifier::external_body]
fn char_is_lowercase(c: char) -> (b: bool)
    ensures
        b == is_lowercase(c),
{
    c.is_lowercase()
}

/// std's `char::is_uppercase`: whether the character has the Unicode property
/// Uppercase. The contract gives that answer a name.
#[verifier::external_body]
fn char_is_uppercase(c: char) -> (b: bool)
    ensures
        b == is_uppercase(c),
{
    c.is_uppercase()
}

/// std's `str::to_lowercase`: the lowercase form of the text. The contract
/// gives that form a name.
#[verifier::external_body]
fn str_to_lowercase(s: &str) -> (lower: String)
    ensures
        lower@ == lowercase(s@),
{
    s.to_lowercase()
}

/// std's `String::push`: appends one character.
pub assume_specification[ String::push ](s: &mut String, ch: char)
    ensures
        final(s)@ == old(s)@.push(ch),
;

/// std's `String::pop`: removes the last character and returns it, or
/// returns `None` and changes nothing where the string is empty.
pub assume_specification[ String::pop ](s: &mut String) -> (r: Option<char>)
    ensures
        old(s)@.len() > 0 ==> r == Some(old(s)@.last()) && final(s)@ == old(s)@.drop_last(),
        old(s)@.len() == 0 ==> r is None && final(s)@ == old(s)@,
;

/// The characters of a string slice.
pub fn chars_of(s: &str) -> (out: Vec<char>)
    ensures
        out@ == s@,
{
    let mut out: Vec<char> = Vec::new();
    for c in it: s.chars()
        invariant
            out@ == it.seq().take(it.index() as int),
            it.seq() == s@,
    {
        out.push(c);
    }
    out
}

/// The string that holds the given characters.
pub fn string_of(chars: &Vec<char>) -> (s: String)
    ensures
        s@ == chars@,
{
    let mut s = String::new();
    let mut i: usize = 0;
    assert(chars@.take(0) =~= Seq::<char>::empty());
    while i < chars.len()
        invariant
            i <= chars.len(),
            s@ == chars@.take(i as int),
        decreases chars.len() - i,
    {
        s.push(chars[i]);
        assert(chars@.take(i + 1) =~= chars@.take(i as int).push(chars@[i as int]));
        i += 1;
    }
    assert(chars@.take(chars@.len() as int) =~= chars@);
    s
}

/// Whether a character is white space. This is what std's
/// `char::is_whitespace` answers.
pub fn char_is_whitespace(c: char) -> (b: bool)
    ensures
        b == is_whitespace(c),
{
    ('\u{9}' <= c && c <= '\u{d}') || c == ' ' || c == '\u{85}' || c == '\u{a0}' || c == '\u{1680}'
        || ('\u{2000}' <= c && c <= '\u{200a}') || c == '\u{2028}' || c == '\u{2029}' || c
        == '\u{202f}' || c == '\u{205f}' || c == '\u{3000}'
}

/// Whether two string slices hold the same text.
pub fn same_text(a: &str, b: &str) -> (r: bool)
    ensures
        r == (a@ == b@),
{
    let x = String::from_str(a);
    let y = String::from_str(b);
    x == y
}

/// The lowercase form of `s`.
pub fn to_lowercase(s: &str) -> (lower: String)
    ensures
        lower@ == lowercase(s@),
{
    str_to_lowercase(s)
}

/// The text of `a` followed by the text of `b`.
pub fn concat2(a: &str, b: &str) -> (s: String)
    ensures
        s@ == a@ + b@,
{
    let mut s = String::from_str(a);
    s.append(b);
    s
}

/// The texts of `a`, `b` and `c` in a row.
pub fn concat3(a: &str, b: &str, c: &str) -> (s: String)
    ensures
        s@ == a@ + b@ + c@,
{
    let mut s = String::from_str(a);
    s.append(b);
    s.append(c);
    s
}

/// A copy of a list of strings.
pub fn copy_strings(list: &Vec<String>) -> (out: Vec<String>)
    ensures
        out@.len() == list@.len(),
        forall|i: int| 0 <= i < list@.len() ==> (#[trigger] out@[i])@ == list@[i]@,
{
    let mut out: Vec<String> = Vec::new();
    let mut i: usize = 0;
    while i < list.len()
        invariant
            i <= list.len(),
            out@.len() == i,
            forall|k: int| 0 <= k < i ==> (#[trigger] out@[k])@ == list@[k]@,
        decreases list.len() - i,
    {
        out.push(list[i].clone());
        i += 1;
    }
    out
}

/// Whether `list` holds a string with the text of `s`.
pub fn list_contains(list: &Vec<String>, s: &str) -> (r: bool)
    ensures
        r == texts(list@).contains(s@),
{
    let mut i: usize = 0;
    while i < list.len()
        invariant
            i <= list.len(),
            forall|j: int| 0 <= j < i ==> texts(list@)[j] != s@,
        decreases list.len() - i,
    {
        if same_text(list[i].as_str(), s) {
            assert(texts(list@)[i as int] == s@);
            return true;
        }
        i += 1;
    }
    false
}

/// Whether `a` comes before `b` in the order of strings.
pub fn text_lt(a: &str, b: &str) -> (r: bool)
    ensures
        r == lex_less(a@, b@),
{
    let x = chars_of(a);
    let y = chars_of(b);
    let mut i: usize = 0;
    assert(x@.skip(0) =~= x@ && y@.skip(0) =~= y@);
    while i < x.len() && i < y.len() && x[i] == y[i]
        invariant
            i <= x.len(),
            i <= y.len(),
            lex_less(x@, y@) == lex_less(x@.skip(i as int), y@.skip(i as int)),
        decreases x.len() - i,
    {
        assert(x@.skip(i as int).drop_first() =~= x@.skip(i + 1));
        assert(y@.skip(i as int).drop_first() =~= y@.skip(i + 1));
        i += 1;
    }
    if i >= y.len() {
        false
    } else if i >= x.len() {
        true
    } else {
        x[i] < y[i]
    }
}

/// Whether the first character of `s` exists and is lowercase.
pub fn is_lowercase_first(s: &str) -> (r: bool)
    ensures
        r == (s@.len() > 0 && is_lowercase(s@[0])),
{
    if s.unicode_len() == 0 {
        false
    } else {
        char_is_lowercase(s.get_char(0))
    }
}

/// Whether the first character of `s` exists and is uppercase.
pub fn is_uppercase_first(s: &str) -> (r: bool)
    ensures
        r == (s@.len() > 0 && is_uppercase(s@[0])),
{
    if s.unicode_len() == 0 {
        false
    } else {
        char_is_uppercase(s.get_char(0))
    }
}

/// A copy of the characters of `v` from `from` up to `to`.
pub fn copy_range(v: &Vec<char>, from: usize, to: usize) -> (out: Vec<char>)
    requires
        from <= to <= v.len(),
    ensures
        out@ == v@.subrange(from as int, to as int),
{
    let mut out: Vec<char> = Vec::new();
    let mut i: usize = from;
    while i < to
        invariant
            from <= i <= to <= v.len(),
            out@ == v@.subrange(from as int, i as int),
        decreases to - i,
    {
        out.push(v[i]);
        i += 1;
    }
    out
}

/// Whether `needle` occurs in `hay` at `at`.
pub fn matches_at(hay: &Vec<char>, needle: &Vec<char>, at: usize) -> (b: bool)
    ensures
        b == occurs_at(hay@, needle@, at as int),
{
    if needle.len() > hay.len() || at > hay.len() - needle.len() {
        return false;
    }
    let mut k: usize = 0;
    while k < needle.len()
        invariant
            k <= needle.len(),
            at + needle.len() <= hay.len(),
            forall|j: int| 0 <= j < k ==> hay@[at + j] == needle@[j],
        decreases needle.len() - k,
    {
        if hay[at + k] != needle[k] {
            assert(hay@.subrange(at as int, at + needle.len())[k as int] == hay@[at + k]);
            return false;
        }
        k += 1;
    }
    assert(hay@.subrange(at as int, at + needle.len()) =~= needle@);
    true
}

/// Whether `s` begins with `p`.
pub fn begins_with(s: &Vec<char>, p: &Vec<char>) -> (r: bool)
    ensures
        r == starts_with(s@, p@),
{
    matches_at(s, p, 0)
}

/// The position of the first occurrence of `needle` in `hay`.
pub fn find(hay: &Vec<char>, needle: &Vec<char>) -> (r: Option<usize>)
    ensures
        match r {
            Some(at) => find_from(hay@, needle@, 0) == Some(at as int),
            None => find_from(hay@, needle@, 0) is None,
        },
{
    if needle.len() > hay.len() {
        return None;
    }
    let last: usize = hay.len() - needle.len();
    let mut at: usize = 0;
    loop
        invariant
            at <= last,
            last + needle.len() == hay.len(),
            find_from(hay@, needle@, 0) == find_from(hay@, needle@, at as int),
        decreases last - at,
    {
        if matches_at(hay, needle, at) {
            return Some(at);
        }
        if at == last {
            assert(find_from(hay@, needle@, at + 1) is None);
            return None;
        }
        at += 1;
    }
}

/// Whether `needle` occurs in `hay`.
pub fn contains(hay: &str, needle: &str) -> (r: bool)
    ensures
        r == contains_text(hay@, needle@),
{
    let h = chars_of(hay);
    let n = chars_of(needle);
    proof {
        lemma_contains_iff_found(h@, n@);
    }
    find(&h, &n).is_some()
}

/// The text of `s` before the first occurrence of `sep`, or all of it.
pub fn head_of(s: &Vec<char>, sep: &Vec<char>) -> (out: Vec<char>)
    ensures
        out@ == head_before(s@, sep@),
{
    match find(s, sep) {
        Some(at) => {
            proof {
                lemma_find_from(s@, sep@, 0);
            }
            copy_range(s, 0, at)
        },
        None => {
            assert(s@.subrange(0, s@.len() as int) =~= s@);
            copy_range(s, 0, s.len())
        },
    }
}

/// The text of `s` before the first occurrence of `sep`, or all of it.
pub fn head_text(s: &str, sep: &str) -> (head: String)
    ensures
        head@ == head_before(s@, sep@),
{
    let chars = chars_of(s);
    let sep_chars = chars_of(sep);
    let head = head_of(&chars, &sep_chars);
    string_of(&head)
}

/// `v` without leading and trailing white space.
pub fn trimmed(v: &Vec<char>) -> (out: Vec<char>)
    ensures
        out@ == trim(v@),
{
    let mut a: usize = 0;
    assert(v@.skip(0) =~= v@);
    while a < v.len() && char_is_whitespace(v[a])
        invariant
            a <= v.len(),
            trim_start(v@) == trim_start(v@.skip(a as int)),
        decreases v.len() - a,
    {
        assert(v@.skip(a as int).drop_first() =~= v@.skip(a + 1));
        a += 1;
    }
    assert(trim_start(v@) == v@.skip(a as int));
    let mut b: usize = v.len();
    while b > a && char_is_whitespace(v[b - 1])
        invariant
            a <= b <= v.len(),
            trim(v@) == trim_end(v@.subrange(a as int, b as int)),
        decreases b,
    {
        assert(v@.subrange(a as int, b as int).drop_last() =~= v@.subrange(a as int, b - 1));
        b -= 1;
    }
    copy_range(v, a, b)
}

/// `v` with every leading repetition of `p` removed.
pub fn without_prefixes(v: &Vec<char>, p: &Vec<char>) -> (out: Vec<char>)
    ensures
        out@ == strip_prefixes(v@, p@),
{
    let mut a: usize = 0;
    assert(v@.skip(0) =~= v@);
    if p.len() > 0 {
        while a <= v.len() && p.len() <= v.len() - a && matches_at(v, p, a)
            invariant
                a <= v.len(),
                p.len() > 0,
                strip_prefixes(v@, p@) == strip_prefixes(v@.skip(a as int), p@),
            decreases v.len() - a,
        {
            assert(v@.skip(a as int).subrange(0, p@.len() as int) =~= v@.subrange(
                a as int,
                a + p@.len(),
            ));
            assert(v@.skip(a as int).skip(p@.len() as int) =~= v@.skip(a + p@.len()));
            a += p.len();
        }
        assert(!starts_with(v@.skip(a as int), p@)) by {
            if p.len() <= v.len() - a {
                assert(v@.skip(a as int).subrange(0, p@.len() as int) =~= v@.subrange(
                    a as int,
                    a + p@.len(),
                ));
            }
        }
    }
    assert(v@.subrange(a as int, v@.len() as int) =~= v@.skip(a as int));
    copy_range(v, a, v.len())
}

/// `v` with every trailing repetition of `c` removed.
pub fn without_trailing(v: &Vec<char>, c: char) -> (out: Vec<char>)
    ensures
        out@ == strip_trailing(v@, c),
{
    let mut b: usize = v.len();
    assert(v@.take(b as int) =~= v@);
    while b > 0 && v[b - 1] == c
        invariant
            b <= v.len(),
            strip_trailing(v@, c) == strip_trailing(v@.take(b as int), c),
        decreases b,
    {
        assert(v@.take(b as int).drop_last() =~= v@.take(b - 1));
        b -= 1;
    }
    copy_range(v, 0, b)
}

/// The first run of characters of `v` that are not white space.
pub fn first_word_of(v: &Vec<char>) -> (out: Vec<char>)
    ensures
        out@ == first_word(v@),
{
    let mut a: usize = 0;
    assert(v@.skip(0) =~= v@);
    while a < v.len() && char_is_whitespace(v[a])
        invariant
            a <= v.len(),
            trim_start(v@) == trim_start(v@.skip(a as int)),
        decreases v.len() - a,
    {
        assert(v@.skip(a as int).drop_first() =~= v@.skip(a + 1));
        a += 1;
    }
    assert(trim_start(v@) == v@.skip(a as int));
    let mut b: usize = a;
    assert(v@.subrange(a as int, b as int) =~= Seq::<char>::empty());
    while b < v.len() && !char_is_whitespace(v[b])
        invariant
            a <= b <= v.len(),
            first_word(v@) == v@.subrange(a as int, b as int) + leading_word(v@.skip(b as int)),
        decreases v.len() - b,
    {
        assert(v@.skip(b as int).drop_first() =~= v@.skip(b + 1));
        assert(v@.subrange(a as int, b as int) + seq![v@[b as int]] =~= v@.subrange(
            a as int,
            b + 1,
        ));
        b += 1;
    }
    copy_range(v, a, b)
}

/// The lines of `v`.
pub fn lines_of(v: &Vec<char>) -> (out: Vec<Vec<char>>)
    ensures
        out@.len() == lines(v@).len(),
        forall|i: int| 0 <= i < out@.len() ==> (#[trigger] out@[i])@ == lines(v@)[i],
{
    let mut out: Vec<Vec<char>> = Vec::new();
    let mut start: usize = 0;
    let ghost mut done: Seq<Seq<char>> = Seq::empty();
    assert(v@.skip(0) =~= v@);
    while start < v.len()
        invariant
            start <= v.len(),
            done.len() == out@.len(),
            forall|i: int| 0 <= i < out@.len() ==> (#[trigger] out@[i])@ == done[i],
            lines(v@) == done + lines(v@.skip(start as int)),
        decreases v.len() - start,
    {
        let ghost rest = v@.skip(start as int);
        let mut end: usize = start;
        assert(rest.skip(0) =~= rest);
        while end < v.len() && v[end] != '\n'
            invariant
                start <= end <= v.len(),
                rest == v@.skip(start as int),
                line_end(rest) == (end - start) + line_end(rest.skip(end - start)),
            decreases v.len() - end,
        {
            assert(rest.skip(end - start).drop_first() =~= rest.skip(end - start + 1));
            end += 1;
        }
        assert(line_end(rest) == end - start);
        let mut stop: usize = end;
        if end < v.len() && stop > start && v[stop - 1] == '\r' {
            stop -= 1;
        }
        let line = copy_range(v, start, stop);
        let next: usize = if end < v.len() { end + 1 } else { end };
        proof {
            assert(rest.take(end - start) =~= v@.subrange(start as int, end as int));
            if end < v.len() {
                assert(rest.skip(end - start + 1) =~= v@.skip(end + 1));
                assert(line@ =~= without_carriage_return(rest.take(end - start)));
                assert(lines(rest) == seq![line@] + lines(v@.skip(next as int)));
            } else {
                assert(rest =~= v@.subrange(start as int, end as int));
                assert(lines(v@.skip(next as int)) =~= Seq::<Seq<char>>::empty());
                assert(lines(rest) =~= seq![line@] + lines(v@.skip(next as int)));
            }
            assert(done + lines(rest) =~= done.push(line@) + lines(v@.skip(next as int)));
            done = done.push(line@);
        }
        out.push(line);
        start = next;
    }
    assert(lines(v@.skip(start as int)) =~= Seq::<Seq<char>>::empty());
    assert(lines(v@) =~= done);
    out
}

/// The path of the entry `name` of the directory `dir`.
pub fn join_path(dir: &str, name: &str) -> (path: String)
    ensures
        path@ == joined_path(dir@, name@),
{
    let n: usize = dir.unicode_len();
    if n == 0 {
        String::from_str(name)
    } else if dir.get_char(n - 1) == '/' {
        concat2(dir, name)
    } else {
        concat3(dir, "/", name)
    }
}

/// The path without its trailing separators and trailing `.` components.
pub fn path_end_trimmed(path: &Vec<char>) -> (out: Vec<char>)
    ensures
        out@ == without_path_end(path@),
{
    let mut b: usize = path.len();
    assert(path@.take(b as int) =~= path@);
    while b > 0 && (path[b - 1] == '/' || (b >= 2 && path[b - 1] == '.' && path[b - 2] == '/'))
        invariant
            b <= path.len(),
            without_path_end(path@) == without_path_end(path@.take(b as int)),
        decreases b,
    {
        assert(path@.take(b as int).drop_last() =~= path@.take(b - 1));
        b -= 1;
    }
    copy_range(path, 0, b)
}

/// Whether the last component of `path` is `name`.
pub fn path_names_file(path: &str, name: &str) -> (r: bool)
    ensures
        r == names_file(path@, name@),
{
    let whole = chars_of(path);
    let p = path_end_trimmed(&whole);
    let n = chars_of(name);
    if n.len() > p.len() {
        return false;
    }
    let at: usize = p.len() - n.len();
    matches_at(&p, &n, at) && (at == 0 || p[at - 1] == '/')
}

} // verus!
