//! Character and string helpers shared by the rest of the crate.
//!
//! A string is modelled by its sequence of Unicode scalar values (`Seq<char>`), so every
//! position in this module counts characters, not bytes.

use vstd::prelude::*;

verus! {

/// Whether `c` is alphabetic or numeric in the sense of Unicode, as `char::is_alphanumeric`
/// decides it.
pub uninterp spec fn unicode_alphanumeric(c: char) -> bool;

/// `char::is_alphanumeric` of std: its result is the Unicode classification of `c`, which is
/// left uninterpreted here.
pub assume_specification[ char::is_alphanumeric ](c: char) -> (r: bool)
    ensures
        r == unicode_alphanumeric(c),
;

/// Whether `c` is white space: one of the characters with the Unicode property `White_Space`.
/// These are the controls U+0009 to U+000D, the space, U+0085, the no-break space, U+1680,
/// the spaces U+2000 to U+200A, the line and the paragraph separator, U+202F, U+205F and
/// U+3000.
pub open spec fn unicode_whitespace(c: char) -> bool {
    ||| '\u{9}' <= c <= '\u{D}'
    ||| c == ' '
    ||| c == '\u{85}'
    ||| c == '\u{A0}'
    ||| c == '\u{1680}'
    ||| '\u{2000}' <= c <= '\u{200A}'
    ||| c == '\u{2028}'
    ||| c == '\u{2029}'
    ||| c == '\u{202F}'
    ||| c == '\u{205F}'
    ||| c == '\u{3000}'
}

/// Whether `c` is white space.
pub fn is_whitespace(c: char) -> (r: bool)
    ensures
        r == unicode_whitespace(c),
{
    ('\u{9}' <= c && c <= '\u{D}') || c == ' ' || c == '\u{85}' || c == '\u{A0}' || c
        == '\u{1680}' || ('\u{2000}' <= c && c <= '\u{200A}') || c == '\u{2028}' || c
        == '\u{2029}' || c == '\u{202F}' || c == '\u{205F}' || c == '\u{3000}'
}

/// The ASCII lower-case form of a character: `'A'..='Z'` move to `'a'..='z'`, every other
/// character stays.
pub open spec fn ascii_lowercase(c: char) -> char {
    if 'A' <= c && c <= 'Z' {
        ((c as u8) + 32u8) as char
    } else {
        c
    }
}

/// The ASCII lower-case form of a character.
pub fn to_ascii_lowercase(c: char) -> (r: char)
    ensures
        r == ascii_lowercase(c),
{
    if 'A' <= c && c <= 'Z' {
        let code: u8 = c as u8;
        (code + 32) as char
    } else {
        c
    }
}

/// `String::push` of std: appends one character at the end of the string.
pub assume_specification[ String::push ](s: &mut String, c: char)
    ensures
        final(s)@ == old(s)@.push(c),
;

/// The characters of a string, in order.
pub fn to_chars(s: &str) -> (v: Vec<char>)
    ensures
        v@ == s@,
{
    let mut v: Vec<char> = Vec::new();
    for c in it: s.chars()
        invariant
            v@ == it.seq().take(it.index() as int),
    {
        v.push(c);
    }
    v
}

/// The string made of the characters `chars[from..to]`.
pub fn from_chars(chars: &Vec<char>, from: usize, to: usize) -> (s: String)
    requires
        from <= to <= chars.len(),
    ensures
        s@ == chars@.subrange(from as int, to as int),
{
    let mut s = String::new();
    let mut i: usize = from;
    while i < to
        invariant
            from <= i <= to <= chars.len(),
            s@ == chars@.subrange(from as int, i as int),
        decreases to - i,
    {
        s.push(chars[i]);
        i += 1;
        assert(s@ =~= chars@.subrange(from as int, i as int));
    }
    s
}

/// Whether two strings hold the same characters.
pub fn str_eq(a: &str, b: &str) -> (r: bool)
    ensures
        r == (a@ == b@),
{
    let x = to_chars(a);
    let y = to_chars(b);
    chars_eq(&x, &y)
}

/// Whether two character vectors hold the same characters.
pub fn chars_eq(x: &Vec<char>, y: &Vec<char>) -> (r: bool)
    ensures
        r == (x@ == y@),
{
    if x.len() != y.len() {
        return false;
    }
    let mut i: usize = 0;
    while i < x.len()
        invariant
            x.len() == y.len(),
            i <= x.len(),
            forall|j: int| 0 <= j < i ==> x@[j] == y@[j],
        decreases x.len() - i,
    {
        if x[i] != y[i] {
            return false;
        }
        i += 1;
    }
    assert(x@ =~= y@);
    true
}

/// `needle` stands in `hay` at position `i`.
pub open spec fn occurs_at(hay: Seq<char>, needle: Seq<char>, i: int) -> bool {
    &&& 0 <= i
    &&& i + needle.len() <= hay.len()
    &&& hay.subrange(i, i + needle.len()) == needle
}

/// The first position at or after `from` at which `needle` stands in `hay`.
pub open spec fn find_from(hay: Seq<char>, needle: Seq<char>, from: int) -> Option<int>
    decreases hay.len() + 1 - from,
{
    if from < 0 || from + needle.len() > hay.len() {
        None
    } else if occurs_at(hay, needle, from) {
        Some(from)
    } else {
        find_from(hay, needle, from + 1)
    }
}

/// The first position at which `needle` stands in `hay`, if it stands there at all.
pub open spec fn find(hay: Seq<char>, needle: Seq<char>) -> Option<int> {
    find_from(hay, needle, 0)
}

/// `needle` stands somewhere in `hay`.
pub open spec fn contains(hay: Seq<char>, needle: Seq<char>) -> bool {
    exists|i: int| occurs_at(hay, needle, i)
}

/// `find_from` returns the least position not before `from` at which the needle stands, and
/// `None` exactly when there is no such position.
pub proof fn lemma_find_from(hay: Seq<char>, needle: Seq<char>, from: int)
    requires
        0 <= from,
    ensures
        match find_from(hay, needle, from) {
            Some(i) => {
                &&& from <= i
                &&& occurs_at(hay, needle, i)
                &&& forall|j: int| from <= j < i ==> !occurs_at(hay, needle, j)
            },
            None => forall|j: int| from <= j ==> !occurs_at(hay, needle, j),
        },
    decreases hay.len() + 1 - from,
{
    if from + needle.len() > hay.len() {
    } else if occurs_at(hay, needle, from) {
    } else {
        lemma_find_from(hay, needle, from + 1);
    }
}

/// `find` returns the first occurrence, and `None` exactly when the needle does not occur.
pub proof fn lemma_find(hay: Seq<char>, needle: Seq<char>)
    ensures
        match find(hay, needle) {
            Some(i) => {
                &&& occurs_at(hay, needle, i)
                &&& forall|j: int| 0 <= j < i ==> !occurs_at(hay, needle, j)
            },
            None => !contains(hay, needle),
        },
        find(hay, needle) is Some <==> contains(hay, needle),
{
    lemma_find_from(hay, needle, 0);
}

/// Whether `needle` stands in `hay` at position `at`.
pub fn occurs_at_exec(hay: &Vec<char>, needle: &Vec<char>, at: usize) -> (r: bool)
    ensures
        r == occurs_at(hay@, needle@, at as int),
{
    if needle.len() > hay.len() || at > hay.len() - needle.len() {
        return false;
    }
    let mut k: usize = 0;
    while k < needle.len()
        invariant
            at + needle.len() <= hay.len(),
            k <= needle.len(),
            forall|j: int| 0 <= j < k ==> hay@[at + j] == needle@[j],
        decreases needle.len() - k,
    {
        if hay[at + k] != needle[k] {
            assert(hay@.subrange(at as int, at + needle.len())[k as int] == hay@[at + k]);
            return false;
        }
        k += 1;
    }
    assert(hay@.subrange(at as int, at + needle.len()) =~= needle@);
    true
}

/// The first position at which `needle` stands in `hay`.
pub fn find_chars(hay: &Vec<char>, needle: &Vec<char>) -> (r: Option<usize>)
    ensures
        match r {
            Some(i) => find(hay@, needle@) == Some(i as int),
            None => find(hay@, needle@) is None,
        },
{
    if needle.len() > hay.len() {
        return None;
    }
    let last: usize = hay.len() - needle.len();
    let mut i: usize = 0;
    loop
        invariant
            last == hay.len() - needle.len(),
            i <= last,
            find(hay@, needle@) == find_from(hay@, needle@, i as int),
        decreases last - i,
    {
        if occurs_at_exec(hay, needle, i) {
            return Some(i);
        }
        if i == last {
            assert(find_from(hay@, needle@, i as int) == find_from(hay@, needle@, i + 1));
            assert(find_from(hay@, needle@, i + 1) is None);
            return None;
        }
        i += 1;
    }
}

/// Whether `needle` stands somewhere in `hay`.
pub fn str_contains(hay: &str, needle: &str) -> (r: bool)
    ensures
        r == contains(hay@, needle@),
{
    let h = to_chars(hay);
    let n = to_chars(needle);
    proof {
        lemma_find(h@, n@);
    }
    find_chars(&h, &n).is_some()
}

/// `s` begins with `prefix`.
pub open spec fn starts_with(s: Seq<char>, prefix: Seq<char>) -> bool {
    prefix.len() <= s.len() && s.take(prefix.len() as int) == prefix
}

/// For each character of the text, whether it is white space.
pub open spec fn whitespace_marks(s: Seq<char>) -> Seq<bool> {
    s.map_values(|c: char| unicode_whitespace(c))
}

/// The number of set marks at the start of the sequence.
pub open spec fn leading_marks(marks: Seq<bool>) -> int
    decreases marks.len(),
{
    if marks.len() > 0 && marks[0] {
        1 + leading_marks(marks.skip(1))
    } else {
        0
    }
}

/// The length of the sequence without the set marks at its end.
pub open spec fn before_trailing_marks(marks: Seq<bool>) -> int
    decreases marks.len(),
{
    if marks.len() > 0 && marks.last() {
        before_trailing_marks(marks.drop_last())
    } else {
        marks.len() as int
    }
}

/// Start and end of what remains of a marked sequence when the set marks at both ends are left
/// out. Where every mark is set nothing remains, and both are the length.
pub open spec fn unmarked_span(marks: Seq<bool>) -> (int, int) {
    let a = leading_marks(marks);
    let b = before_trailing_marks(marks);
    if a <= b {
        (a, b)
    } else {
        (a, a)
    }
}

/// The text with leading and trailing white space removed.
pub open spec fn trim(s: Seq<char>) -> Seq<char> {
    let span = unmarked_span(whitespace_marks(s));
    s.subrange(span.0, span.1)
}

/// Where the marks before `a` are set and the one at `a` is not, `a` set marks lead.
pub proof fn lemma_leading_marks(marks: Seq<bool>, a: int)
    requires
        0 <= a <= marks.len(),
        forall|i: int| 0 <= i < a ==> marks[i],
        a == marks.len() || !marks[a],
    ensures
        leading_marks(marks) == a,
    decreases a,
{
    if a > 0 {
        lemma_leading_marks(marks.skip(1), a - 1);
    }
}

/// Where the marks from `b` on are set and the one before `b` is not, the set marks at the
/// end begin at `b`.
pub proof fn lemma_before_trailing_marks(marks: Seq<bool>, b: int)
    requires
        0 <= b <= marks.len(),
        forall|i: int| b <= i < marks.len() ==> marks[i],
        b == 0 || !marks[b - 1],
    ensures
        before_trailing_marks(marks) == b,
    decreases marks.len() - b,
{
    if b < marks.len() {
        lemma_before_trailing_marks(marks.drop_last(), b);
    }
}

/// The span that is left lies inside the sequence, every mark outside it is set, and where it
/// is not empty the marks at its two ends are not set.
pub proof fn lemma_unmarked_span(marks: Seq<bool>)
    ensures
        ({
            let (a, b) = unmarked_span(marks);
            &&& 0 <= a <= b <= marks.len()
            &&& forall|i: int| 0 <= i < a || b <= i < marks.len() ==> marks[i]
            &&& a < b ==> !marks[a] && !marks[b - 1]
        }),
{
    lemma_leading_bounds(marks);
    lemma_trailing_bounds(marks);
}

/// The set marks at the start are marks of the sequence, and behind them stands one that is
/// not set, or nothing.
proof fn lemma_leading_bounds(marks: Seq<bool>)
    ensures
        0 <= leading_marks(marks) <= marks.len(),
        forall|i: int| 0 <= i < leading_marks(marks) ==> marks[i],
        leading_marks(marks) == marks.len() || !marks[leading_marks(marks)],
    decreases marks.len(),
{
    if marks.len() > 0 && marks[0] {
        lemma_leading_bounds(marks.skip(1));
        assert forall|i: int| 0 <= i < leading_marks(marks) implies marks[i] by {
            if i > 0 {
                assert(marks.skip(1)[i - 1] == marks[i]);
            }
        }
        if leading_marks(marks) < marks.len() {
            assert(marks.skip(1)[leading_marks(marks) - 1] == marks[leading_marks(marks)]);
        }
    }
}

/// The set marks at the end are marks of the sequence, and before them stands one that is not
/// set, or nothing.
proof fn lemma_trailing_bounds(marks: Seq<bool>)
    ensures
        0 <= before_trailing_marks(marks) <= marks.len(),
        forall|i: int| before_trailing_marks(marks) <= i < marks.len() ==> marks[i],
        before_trailing_marks(marks) == 0 || !marks[before_trailing_marks(marks) - 1],
    decreases marks.len(),
{
    if marks.len() > 0 && marks.last() {
        lemma_trailing_bounds(marks.drop_last());
        assert forall|i: int| before_trailing_marks(marks) <= i < marks.len() implies marks[i] by {
            if i < marks.len() - 1 {
                assert(marks.drop_last()[i] == marks[i]);
            }
        }
        if before_trailing_marks(marks) > 0 {
            assert(marks.drop_last()[before_trailing_marks(marks) - 1] == marks[before_trailing_marks(
                marks,
            ) - 1]);
        }
    }
}

/// What `trim` keeps is a stretch of the text: nothing is changed inside it, white space is
/// all that is dropped around it, and it neither begins nor ends with white space.
pub proof fn lemma_trim(s: Seq<char>)
    ensures
        ({
            let (a, b) = unmarked_span(whitespace_marks(s));
            &&& 0 <= a <= b <= s.len()
            &&& trim(s) == s.subrange(a, b)
            &&& forall|i: int| 0 <= i < a || b <= i < s.len() ==> unicode_whitespace(s[i])
            &&& a < b ==> !unicode_whitespace(s[a]) && !unicode_whitespace(s[b - 1])
        }),
        trim(s).len() <= s.len(),
{
    let marks = whitespace_marks(s);
    lemma_unmarked_span(marks);
    let (a, b) = unmarked_span(marks);
    assert forall|i: int| 0 <= i < a || b <= i < s.len() implies unicode_whitespace(s[i]) by {
        assert(marks[i] == unicode_whitespace(s[i]));
    }
    if a < b {
        assert(marks[a] == unicode_whitespace(s[a]));
        assert(marks[b - 1] == unicode_whitespace(s[b - 1]));
    }
}

/// For each character, whether it is white space.
pub fn mark_whitespace(chars: &Vec<char>) -> (marks: Vec<bool>)
    ensures
        marks@ == whitespace_marks(chars@),
{
    let mut marks: Vec<bool> = Vec::new();
    let mut i: usize = 0;
    while i < chars.len()
        invariant
            i <= chars.len(),
            marks@.len() == i,
            forall|j: int| 0 <= j < i ==> marks@[j] == unicode_whitespace(chars@[j]),
        decreases chars.len() - i,
    {
        marks.push(is_whitespace(chars[i]));
        i += 1;
    }
    assert(marks@ =~= whitespace_marks(chars@));
    marks
}

/// Start and end of what remains of the first `limit` marks when the set marks at both ends
/// are left out.
pub fn trim_span(marks: &Vec<bool>, limit: usize) -> (r: (usize, usize))
    requires
        limit <= marks.len(),
    ensures
        r.0 <= r.1 <= limit,
        (r.0 as int, r.1 as int) == unmarked_span(marks@.take(limit as int)),
{
    let mut a: usize = 0;
    while a < limit && marks[a]
        invariant
            a <= limit <= marks.len(),
            forall|i: int| 0 <= i < a ==> marks@[i],
        decreases limit - a,
    {
        a += 1;
    }
    let mut b: usize = limit;
    while b > a && marks[b - 1]
        invariant
            a <= b <= limit <= marks.len(),
            forall|i: int| b <= i < limit ==> marks@[i],
        decreases b,
    {
        b -= 1;
    }
    proof {
        let head = marks@.take(limit as int);
        lemma_leading_marks(head, a as int);
        if b > a {
            lemma_before_trailing_marks(head, b as int);
        } else {
            lemma_trailing_bounds(head);
            let t = before_trailing_marks(head);
            if t > a {
                assert(!head[t - 1]);
            }
        }
    }
    (a, b)
}

/// The bounds `(a, b)` of what `trim` keeps of the first `limit` characters:
/// `trim(chars[..limit]) == chars[a..b]`.
pub fn trim_bounds(chars: &Vec<char>, limit: usize) -> (r: (usize, usize))
    requires
        limit <= chars.len(),
    ensures
        r.0 <= r.1 <= limit,
        trim(chars@.take(limit as int)) == chars@.subrange(r.0 as int, r.1 as int),
{
    let marks = mark_whitespace(chars);
    let r = trim_span(&marks, limit);
    proof {
        let head = chars@.take(limit as int);
        assert(whitespace_marks(head) =~= marks@.take(limit as int));
        assert(head.subrange(r.0 as int, r.1 as int) =~= chars@.subrange(r.0 as int, r.1 as int));
    }
    r
}

/// The text with leading and trailing white space removed, as a slice of `s`.
pub fn str_trim(s: &str) -> (r: &str)
    ensures
        r@ == trim(s@),
{
    let chars = to_chars(s);
    let (a, b) = trim_bounds(&chars, chars.len());
    assert(chars@.take(chars.len() as int) =~= chars@);
    s.substring_char(a, b)
}

/// The text `a` followed by the text `b`.
pub fn concat2(a: &str, b: &str) -> (r: String)
    ensures
        r@ == a@ + b@,
{
    let mut r = String::new();
    r.append(a);
    r.append(b);
    assert(r@ =~= a@ + b@);
    r
}

} // verus!
