//! Text primitives over `&str` and `String`, each stated over `Seq<char>`.

use vstd::prelude::*;
use vstd::string::*;

verus! {

/// `String::push` appends one character to the end of the string.
pub assume_specification[ String::push ](s: &mut String, ch: char)
    ensures
        final(s)@ == old(s)@.push(ch),
;

// ---------------------------------------------------------------------------
// Characters and whole-string conversions
// ---------------------------------------------------------------------------

/// The characters of `s`, in order.
pub fn chars_of(s: &str) -> (r: Vec<char>)
    ensures
        r@ == s@,
{
    let mut out: Vec<char> = Vec::new();
    for c in it: s.chars()
        invariant
            it.seq() == s@,
            out@ == s@.take(it.index() as int),
    {
        out.push(c);
        assert(s@.take(it.index() + 1) =~= s@.take(it.index() as int).push(s@[it.index() as int]));
    }
    assert(s@.take(s@.len() as int) =~= s@);
    out
}

/// The string that holds `chars[from..to]`.
pub fn string_of(chars: &Vec<char>, from: usize, to: usize) -> (r: String)
    requires
        from <= to <= chars@.len(),
    ensures
        r@ == chars@.subrange(from as int, to as int),
{
    let mut out = String::new();
    let mut i: usize = from;
    while i < to
        invariant
            from <= i <= to <= chars@.len(),
            out@ == chars@.subrange(from as int, i as int),
        decreases to - i,
    {
        out.push(chars[i]);
        assert(chars@.subrange(from as int, i + 1) =~= chars@.subrange(from as int, i as int).push(
            chars@[i as int],
        ));
        i += 1;
    }
    out
}

/// Whether two strings hold the same characters.
pub fn same_text(a: &str, b: &str) -> (r: bool)
    ensures
        r == (a@ == b@),
{
    let x: Vec<char> = chars_of(a);
    let y: Vec<char> = chars_of(b);
    if x.len() != y.len() {
        return false;
    }
    let mut i: usize = 0;
    while i < x.len()
        invariant
            i <= x@.len() == y@.len(),
            x@ == a@,
            y@ == b@,
            forall|j: int| 0 <= j < i ==> x@[j] == y@[j],
        decreases x@.len() - i,
    {
        if x[i] != y[i] {
            return false;
        }
        i += 1;
    }
    assert(x@ =~= y@);
    true
}

// ---------------------------------------------------------------------------
// Order
// ---------------------------------------------------------------------------

/// Dictionary order by code point, which is also the order of the UTF-8 bytes.
pub open spec fn text_lt(a: Seq<char>, b: Seq<char>) -> bool
    decreases a.len(),
{
    if b.len() == 0 {
        false
    } else if a.len() == 0 {
        true
    } else if a[0] != b[0] {
        a[0] < b[0]
    } else {
        text_lt(a.drop_first(), b.drop_first())
    }
}

pub proof fn lemma_text_lt_irreflexive(a: Seq<char>)
    ensures
        !text_lt(a, a),
    decreases a.len(),
{
    if a.len() > 0 {
        lemma_text_lt_irreflexive(a.drop_first());
    }
}

pub proof fn lemma_text_lt_transitive(a: Seq<char>, b: Seq<char>, c: Seq<char>)
    requires
        text_lt(a, b),
        text_lt(b, c),
    ensures
        text_lt(a, c),
    decreases a.len(),
{
    if a.len() > 0 && a[0] == b[0] && b[0] == c[0] {
        lemma_text_lt_transitive(a.drop_first(), b.drop_first(), c.drop_first());
    }
}

pub proof fn lemma_text_lt_total(a: Seq<char>, b: Seq<char>)
    requires
        !text_lt(a, b),
        !text_lt(b, a),
    ensures
        a == b,
    decreases a.len(),
{
    if a.len() > 0 && b.len() > 0 {
        lemma_text_lt_total(a.drop_first(), b.drop_first());
        assert(a =~= seq![a[0]] + a.drop_first());
        assert(b =~= seq![b[0]] + b.drop_first());
    } else {
        assert(a =~= b);
    }
}

/// Whether `a` comes before `b` in dictionary order.
pub fn text_less(a: &str, b: &str) -> (r: bool)
    ensures
        r == text_lt(a@, b@),
{
    let x: Vec<char> = chars_of(a);
    let y: Vec<char> = chars_of(b);
    let mut i: usize = 0;
    assert(x@.skip(0) =~= x@);
    assert(y@.skip(0) =~= y@);
    while i < x.len() && i < y.len()
        invariant
            x@ == a@,
            y@ == b@,
            i <= x@.len(),
            i <= y@.len(),
            text_lt(a@, b@) == text_lt(x@.skip(i as int), y@.skip(i as int)),
        decreases x@.len() - i,
    {
        if x[i] != y[i] {
            return x[i] < y[i];
        }
        assert(x@.skip(i as int).drop_first() =~= x@.skip(i + 1));
        assert(y@.skip(i as int).drop_first() =~= y@.skip(i + 1));
        i += 1;
    }
    i < y.len()
}

// ---------------------------------------------------------------------------
// Character classes
// ---------------------------------------------------------------------------

/// The characters with the Unicode `White_Space` property.
pub open spec fn is_white_space(c: char) -> bool {
    ||| '\u{9}' <= c <= '\u{d}'
    ||| c == '\u{20}'
    ||| c == '\u{85}'
    ||| c == '\u{a0}'
    ||| c == '\u{1680}'
    ||| '\u{2000}' <= c <= '\u{200a}'
    ||| c == '\u{2028}'
    ||| c == '\u{2029}'
    ||| c == '\u{202f}'
    ||| c == '\u{205f}'
    ||| c == '\u{3000}'
}

/// Whether `c` is white space.
pub fn white_space(c: char) -> (r: bool)
    ensures
        r == is_white_space(c),
{
    ('\u{9}' <= c && c <= '\u{d}') || c == '\u{20}' || c == '\u{85}' || c == '\u{a0}' || c == '\u{1680}'
        || ('\u{2000}' <= c && c <= '\u{200a}') || c == '\u{2028}' || c == '\u{2029}' || c
        == '\u{202f}' || c == '\u{205f}' || c == '\u{3000}'
}

pub open spec fn is_digit(c: char) -> bool {
    '0' <= c <= '9'
}

pub open spec fn is_ascii_alnum(c: char) -> bool {
    is_digit(c) || 'a' <= c <= 'z' || 'A' <= c <= 'Z'
}

/// Whether `c` is an ASCII letter or digit.
pub fn ascii_alnum(c: char) -> (r: bool)
    ensures
        r == is_ascii_alnum(c),
{
    ('0' <= c && c <= '9') || ('a' <= c && c <= 'z') || ('A' <= c && c <= 'Z')
}

/// A capital ASCII letter as its small letter, any other character as it is.
pub open spec fn lower(c: char) -> char {
    if 'A' <= c <= 'Z' {
        (c as u32 + 32) as char
    } else {
        c
    }
}

fn lowered(c: char) -> (r: char)
    ensures
        r == lower(c),
{
    if 'A' <= c && c <= 'Z' {
        let b: u8 = c as u8;
        assert(b == c as u32);
        let shifted: u8 = b + 32;
        shifted as char
    } else {
        c
    }
}

/// The characters of `s` with every capital ASCII letter made small.
pub open spec fn lowercase(s: Seq<char>) -> Seq<char> {
    s.map_values(|c: char| lower(c))
}

/// A copy of `s` in ASCII lower case.
pub fn ascii_lowercase(s: &str) -> (r: String)
    ensures
        r@ == lowercase(s@),
{
    let x: Vec<char> = chars_of(s);
    let mut out = String::new();
    let mut i: usize = 0;
    while i < x.len()
        invariant
            x@ == s@,
            i <= x@.len(),
            out@ == lowercase(s@.take(i as int)),
        decreases x@.len() - i,
    {
        out.push(lowered(x[i]));
        assert(lowercase(s@.take(i + 1)) =~= lowercase(s@.take(i as int)).push(
            lower(s@[i as int]),
        ));
        i += 1;
    }
    assert(s@.take(x@.len() as int) =~= s@);
    out
}

/// Whether two strings agree up to ASCII case.
pub fn same_ignoring_case(a: &str, b: &str) -> (r: bool)
    ensures
        r == (lowercase(a@) == lowercase(b@)),
{
    same_text(ascii_lowercase(a).as_str(), ascii_lowercase(b).as_str())
}

// ---------------------------------------------------------------------------
// Trimming
// ---------------------------------------------------------------------------

/// The characters that a trim takes away.
#[derive(Clone, Copy)]
pub enum Trim {
    /// Every white space character.
    White,
    /// One given character.
    Only(char),
}

impl Trim {
    pub open spec fn takes(self, c: char) -> bool {
        match self {
            Trim::White => is_white_space(c),
            Trim::Only(x) => c == x,
        }
    }

    fn matches_char(self, c: char) -> (r: bool)
        ensures
            r == self.takes(c),
    {
        match self {
            Trim::White => white_space(c),
            Trim::Only(x) => c == x,
        }
    }
}

/// `s` without its leading run of the characters that `t` takes.
pub open spec fn trim_front(s: Seq<char>, t: Trim) -> Seq<char>
    decreases s.len(),
{
    if s.len() > 0 && t.takes(s[0]) {
        trim_front(s.drop_first(), t)
    } else {
        s
    }
}

/// `s` without its trailing run of the characters that `t` takes.
pub open spec fn trim_back(s: Seq<char>, t: Trim) -> Seq<char>
    decreases s.len(),
{
    if s.len() > 0 && t.takes(s.last()) {
        trim_back(s.drop_last(), t)
    } else {
        s
    }
}

/// `s` without white space at either end.
pub open spec fn trimmed(s: Seq<char>) -> Seq<char> {
    trim_back(trim_front(s, Trim::White), Trim::White)
}

/// Only white space, or nothing at all.
pub open spec fn is_blank(s: Seq<char>) -> bool {
    forall|i: int| 0 <= i < s.len() ==> is_white_space(#[trigger] s[i])
}

pub proof fn lemma_trim_front_first(s: Seq<char>, t: Trim)
    ensures
        trim_front(s, t).len() > 0 ==> !t.takes(trim_front(s, t)[0]),
        trim_front(s, t).len() <= s.len(),
        trim_front(s, t) == s.skip(s.len() - trim_front(s, t).len()),
        forall|i: int|
            0 <= i < s.len() - trim_front(s, t).len() ==> t.takes(#[trigger] s[i]),
    decreases s.len(),
{
    if s.len() > 0 && t.takes(s[0]) {
        lemma_trim_front_first(s.drop_first(), t);
        let rest = trim_front(s.drop_first(), t);
        assert(rest =~= s.skip(s.len() - rest.len()));
        assert forall|i: int| 0 <= i < s.len() - rest.len() implies t.takes(#[trigger] s[i]) by {
            if i > 0 {
                assert(s.drop_first()[i - 1] == s[i]);
            }
        }
    } else {
        assert(s =~= s.skip(0));
    }
}

pub proof fn lemma_trim_back_last(s: Seq<char>, t: Trim)
    ensures
        trim_back(s, t).len() > 0 ==> !t.takes(trim_back(s, t).last()),
        trim_back(s, t).len() <= s.len(),
        trim_back(s, t) == s.take(trim_back(s, t).len() as int),
        forall|i: int| trim_back(s, t).len() <= i < s.len() ==> t.takes(#[trigger] s[i]),
    decreases s.len(),
{
    if s.len() > 0 && t.takes(s.last()) {
        lemma_trim_back_last(s.drop_last(), t);
        let rest = trim_back(s.drop_last(), t);
        assert(rest =~= s.take(rest.len() as int));
        assert forall|i: int| rest.len() <= i < s.len() implies t.takes(#[trigger] s[i]) by {
            if i < s.len() - 1 {
                assert(s.drop_last()[i] == s[i]);
            }
        }
    } else {
        assert(s =~= s.take(s.len() as int));
    }
}

/// Trimming leaves nothing exactly when there was nothing but white space.
pub proof fn lemma_trimmed_empty(s: Seq<char>)
    ensures
        (trimmed(s).len() == 0) == is_blank(s),
{
    let f = trim_front(s, Trim::White);
    lemma_trim_front_first(s, Trim::White);
    lemma_trim_back_last(f, Trim::White);
    if is_blank(s) {
        if f.len() > 0 {
            assert(f[0] == s[s.len() - f.len()]);
        }
    } else {
        let i = choose|i: int| 0 <= i < s.len() && !is_white_space(#[trigger] s[i]);
        assert(i >= s.len() - f.len());
        assert(f[i - (s.len() - f.len())] == s[i]);
    }
}

/// A copy of `s` without its leading run of the characters that `t` takes.
pub fn trim_start_of(s: &str, t: Trim) -> (r: String)
    ensures
        r@ == trim_front(s@, t),
{
    let x: Vec<char> = chars_of(s);
    let mut i: usize = 0;
    assert(x@.skip(0) =~= s@);
    while i < x.len() && t.matches_char(x[i])
        invariant
            x@ == s@,
            i <= x@.len(),
            trim_front(x@.skip(i as int), t) == trim_front(s@, t),
        decreases x@.len() - i,
    {
        assert(x@.skip(i as int).drop_first() =~= x@.skip(i + 1));
        i += 1;
    }
    assert(x@.skip(i as int) =~= x@.subrange(i as int, x@.len() as int));
    string_of(&x, i, x.len())
}

/// A copy of `s` without its trailing run of the characters that `t` takes.
pub fn trim_end_of(s: &str, t: Trim) -> (r: String)
    ensures
        r@ == trim_back(s@, t),
{
    let x: Vec<char> = chars_of(s);
    let mut n: usize = x.len();
    assert(x@.take(n as int) =~= s@);
    while n > 0 && t.matches_char(x[n - 1])
        invariant
            x@ == s@,
            n <= x@.len(),
            trim_back(x@.take(n as int), t) == trim_back(s@, t),
        decreases n,
    {
        assert(x@.take(n as int).drop_last() =~= x@.take(n - 1));
        n -= 1;
    }
    assert(x@.take(n as int) =~= x@.subrange(0, n as int));
    string_of(&x, 0, n)
}

/// A copy of `s` trimmed at both ends.
pub fn trim_both(s: &str, t: Trim) -> (r: String)
    ensures
        r@ == trim_back(trim_front(s@, t), t),
{
    let front = trim_start_of(s, t);
    trim_end_of(front.as_str(), t)
}

/// A copy of `s` without white space at either end.
pub fn trim(s: &str) -> (r: String)
    ensures
        r@ == trimmed(s@),
{
    trim_both(s, Trim::White)
}

/// Whether `s` is empty or all white space.
pub fn blank(s: &str) -> (r: bool)
    ensures
        r == is_blank(s@),
{
    proof {
        lemma_trimmed_empty(s@);
    }
    trim(s).as_str().is_empty()
}

// ---------------------------------------------------------------------------
// Prefixes and searches
// ---------------------------------------------------------------------------

/// `pat` stands in `s` at `at`.
pub open spec fn occurs_at(s: Seq<char>, pat: Seq<char>, at: int) -> bool {
    &&& 0 <= at
    &&& at + pat.len() <= s.len()
    &&& s.subrange(at, at + pat.len()) == pat
}

/// The first place from `from` on at which `pat` stands in `s`.
pub open spec fn find_from(s: Seq<char>, pat: Seq<char>, from: int) -> Option<int>
    decreases s.len() + 1 - from,
{
    if from < 0 || from + pat.len() > s.len() {
        None
    } else if occurs_at(s, pat, from) {
        Some(from)
    } else {
        find_from(s, pat, from + 1)
    }
}

/// The first place at which `pat` stands in `s`.
pub open spec fn find(s: Seq<char>, pat: Seq<char>) -> Option<int> {
    find_from(s, pat, 0)
}

pub proof fn lemma_find_from(s: Seq<char>, pat: Seq<char>, from: int)
    requires
        0 <= from,
    ensures
        find_from(s, pat, from) matches Some(i) ==> from <= i && occurs_at(s, pat, i) && (forall|
            j: int,
        |
            from <= j < i ==> !#[trigger] occurs_at(s, pat, j)),
        find_from(s, pat, from) is None ==> forall|j: int|
            from <= j ==> !#[trigger] occurs_at(s, pat, j),
    decreases s.len() + 1 - from,
{
    if from + pat.len() <= s.len() && !occurs_at(s, pat, from) {
        lemma_find_from(s, pat, from + 1);
    }
}

fn stands_at(x: &Vec<char>, pat: &Vec<char>, at: usize) -> (r: bool)
    requires
        at + pat@.len() <= x@.len(),
    ensures
        r == occurs_at(x@, pat@, at as int),
{
    let total: usize = x.len();
    let mut i: usize = 0;
    while i < pat.len()
        invariant
            i <= pat@.len(),
            at + pat@.len() <= x@.len() == total,
            forall|j: int| 0 <= j < i ==> #[trigger] pat@[j] == x@[at + j],
        decreases pat@.len() - i,
    {
        if x[at + i] != pat[i] {
            assert(x@.subrange(at as int, at + pat@.len())[i as int] == x@[at + i]);
            return false;
        }
        i += 1;
    }
    assert(x@.subrange(at as int, at + pat@.len()) =~= pat@);
    true
}

/// The first place, counted in characters, at which `pat` stands in `s`.
pub fn find_text(s: &str, pat: &str) -> (r: Option<usize>)
    ensures
        r is Some == find(s@, pat@) is Some,
        r matches Some(i) ==> find(s@, pat@) == Some(i as int),
{
    let x: Vec<char> = chars_of(s);
    let p: Vec<char> = chars_of(pat);
    if x.len() < p.len() {
        return None;
    }
    let last: usize = x.len() - p.len();
    let mut i: usize = 0;
    while i <= last
        invariant
            x@ == s@,
            p@ == pat@,
            last == x@.len() - p@.len(),
            i <= last + 1,
            last < x@.len() || p@.len() == 0,
            find(s@, pat@) == find_from(s@, pat@, i as int),
        decreases last + 1 - i,
    {
        if stands_at(&x, &p, i) {
            return Some(i);
        }
        if i == last {
            assert(find_from(s@, pat@, i + 1) is None);
            return None;
        }
        i += 1;
    }
    None
}

/// `s` starts with `pat`.
pub open spec fn has_prefix(s: Seq<char>, pat: Seq<char>) -> bool {
    pat.len() <= s.len() && s.take(pat.len() as int) == pat
}

/// Whether `s` starts with `pat`.
pub fn starts_with_text(s: &str, pat: &str) -> (r: bool)
    ensures
        r == has_prefix(s@, pat@),
{
    let x: Vec<char> = chars_of(s);
    let p: Vec<char> = chars_of(pat);
    if x.len() < p.len() {
        return false;
    }
    assert(x@.subrange(0, p@.len() as int) =~= x@.take(p@.len() as int));
    stands_at(&x, &p, 0)
}

/// `s` without as many leading copies of `pat` as it starts with.
pub open spec fn without_prefixes(s: Seq<char>, pat: Seq<char>) -> Seq<char>
    decreases s.len(),
{
    if pat.len() > 0 && has_prefix(s, pat) {
        without_prefixes(s.skip(pat.len() as int), pat)
    } else {
        s
    }
}

/// A copy of `s` without its leading copies of `pat`.
pub fn strip_prefixes(s: &str, pat: &str) -> (r: String)
    ensures
        r@ == without_prefixes(s@, pat@),
{
    let x: Vec<char> = chars_of(s);
    let p: Vec<char> = chars_of(pat);
    let n: usize = p.len();
    let mut i: usize = 0;
    assert(x@.skip(0) =~= s@);
    if n == 0 {
        assert(x@.subrange(0, x@.len() as int) =~= s@);
        return string_of(&x, 0, x.len());
    }
    while n <= x.len() - i && stands_at(&x, &p, i)
        invariant
            x@ == s@,
            p@ == pat@,
            0 < n == p@.len(),
            i <= x@.len(),
            without_prefixes(x@.skip(i as int), pat@) == without_prefixes(s@, pat@),
        decreases x@.len() - i,
    {
        assert(x@.skip(i as int).take(n as int) =~= x@.subrange(i as int, i + n));
        assert(x@.skip(i as int).skip(n as int) =~= x@.skip(i + n));
        i += n;
    }
    proof {
        let rest = x@.skip(i as int);
        assert(!has_prefix(rest, pat@)) by {
            if has_prefix(rest, pat@) {
                assert(rest.take(n as int) =~= x@.subrange(i as int, i + n));
            }
        }
        assert(rest =~= x@.subrange(i as int, x@.len() as int));
    }
    string_of(&x, i, x.len())
}

/// The part of `s` before the first `c`, or all of it.
pub open spec fn before_first(s: Seq<char>, c: char) -> Seq<char>
    decreases s.len(),
{
    if s.len() == 0 || s[0] == c {
        Seq::empty()
    } else {
        seq![s[0]] + before_first(s.drop_first(), c)
    }
}

pub proof fn lemma_before_first(s: Seq<char>, c: char, i: int)
    requires
        0 <= i <= s.len(),
        forall|j: int| 0 <= j < i ==> #[trigger] s[j] != c,
        i < s.len() ==> s[i] == c,
    ensures
        before_first(s, c) == s.take(i),
    decreases s.len(),
{
    if i == 0 {
        assert(s.take(0) =~= Seq::<char>::empty());
    } else {
        let t = s.drop_first();
        assert forall|j: int| 0 <= j < i - 1 implies #[trigger] t[j] != c by {
            assert(t[j] == s[j + 1]);
        }
        lemma_before_first(t, c, i - 1);
        assert(seq![s[0]] + t.take(i - 1) =~= s.take(i));
    }
}

/// The place of the first `c` in `s`, counted in characters.
pub fn find_char(s: &str, c: char) -> (r: Option<usize>)
    ensures
        r matches Some(i) ==> i < s@.len() && s@[i as int] == c && before_first(s@, c) == s@.take(
            i as int,
        ),
        r is None ==> !s@.contains(c) && before_first(s@, c) == s@,
        r is Some == s@.contains(c),
{
    let x: Vec<char> = chars_of(s);
    let mut i: usize = 0;
    while i < x.len()
        invariant
            x@ == s@,
            i <= x@.len(),
            forall|j: int| 0 <= j < i ==> #[trigger] s@[j] != c,
        decreases x@.len() - i,
    {
        if x[i] == c {
            proof {
                lemma_before_first(s@, c, i as int);
            }
            return Some(i);
        }
        i += 1;
    }
    proof {
        lemma_before_first(s@, c, i as int);
        assert(s@.take(i as int) =~= s@);
    }
    None
}

/// A copy of the part of `s` before the first `c`.
pub fn text_before(s: &str, c: char) -> (r: String)
    ensures
        r@ == before_first(s@, c),
{
    match find_char(s, c) {
        Some(i) => {
            assert(s@.subrange(0, i as int) =~= s@.take(i as int));
            s.substring_char(0, i).to_owned()
        },
        None => s.to_owned(),
    }
}

/// The pieces of `s` between the `c`s.
pub open spec fn pieces(s: Seq<char>, c: char) -> Seq<Seq<char>>
    decreases s.len(),
{
    let head = before_first(s, c);
    if head.len() >= s.len() {
        seq![s]
    } else {
        seq![head] + pieces(s.skip(head.len() as int + 1), c)
    }
}

/// A text without the separator that stands before it is the first piece.
pub proof fn lemma_first_piece(a: Seq<char>, b: Seq<char>, c: char)
    requires
        !a.contains(c),
    ensures
        pieces(a + seq![c] + b, c) == seq![a] + pieces(b, c),
        pieces(a, c) == seq![a],
{
    let s = a + seq![c] + b;
    assert forall|j: int| 0 <= j < a.len() implies #[trigger] s[j] != c by {
        assert(a.contains(a[j]));
    }
    lemma_before_first(s, c, a.len() as int);
    assert(s.take(a.len() as int) =~= a);
    assert(s.skip(a.len() as int + 1) =~= b);
    assert forall|j: int| 0 <= j < a.len() implies #[trigger] a[j] != c by {
        assert(a.contains(a[j]));
    }
    lemma_before_first(a, c, a.len() as int);
    assert(a.take(a.len() as int) =~= a);
}

/// The pieces of `s` between the `c`s, in order.
pub fn split_text(s: &str, c: char) -> (r: Vec<String>)
    ensures
        crate::sorted::texts(r@) == pieces(s@, c),
{
    let n: usize = s.unicode_len();
    let mut out: Vec<String> = Vec::new();
    let mut at: usize = 0;
    assert(s@.skip(0) =~= s@);
    assert(crate::sorted::texts(out@) + pieces(s@, c) =~= pieces(s@, c));
    loop
        invariant
            n == s@.len(),
            at <= n,
            crate::sorted::texts(out@) + pieces(s@.skip(at as int), c) == pieces(s@, c),
        decreases n - at,
    {
        let rest = s.substring_char(at, n);
        assert(rest@ =~= s@.skip(at as int));
        let ghost done = crate::sorted::texts(out@);
        match find_char(rest, c) {
            Some(i) => {
                let piece = rest.substring_char(0, i).to_owned();
                assert(piece@ =~= before_first(rest@, c));
                out.push(piece);
                proof {
                    assert(crate::sorted::texts(out@) =~= done.push(piece@));
                    assert(rest@.skip(i + 1) =~= s@.skip(at + i + 1));
                    assert(done + pieces(rest@, c) =~= done.push(piece@) + pieces(
                        s@.skip(at + i + 1),
                        c,
                    ));
                }
                at = at + i + 1;
            },
            None => {
                out.push(rest.to_owned());
                assert(crate::sorted::texts(out@) =~= done + seq![rest@]);
                return out;
            },
        }
    }
}

// ---------------------------------------------------------------------------
// Numbers as text
// ---------------------------------------------------------------------------

pub open spec fn digit_char(d: nat) -> char {
    ('0' as u32 + d) as char
}

fn digit_to_char(d: u8) -> (r: char)
    requires
        d < 10,
    ensures
        r == digit_char(d as nat),
{
    (48u8 + d) as char
}

/// The decimal digits of `n`, without leading zeros.
pub open spec fn decimal(n: nat) -> Seq<char>
    decreases n,
{
    if n < 10 {
        seq![digit_char(n)]
    } else {
        decimal(n / 10).push(digit_char(n % 10))
    }
}

fn push_decimal(out: &mut String, n: u64)
    ensures
        final(out)@ == old(out)@ + decimal(n as nat),
    decreases n,
{
    if n >= 10 {
        push_decimal(out, n / 10);
    }
    out.push(digit_to_char((n % 10) as u8));
    assert(out@ =~= old(out)@ + decimal(n as nat));
}

/// The decimal digits of `n`.
pub fn decimal_text(n: u64) -> (r: String)
    ensures
        r@ == decimal(n as nat),
{
    let mut out = String::new();
    push_decimal(&mut out, n);
    assert(Seq::<char>::empty() + decimal(n as nat) =~= decimal(n as nat));
    out
}

/// What a run of decimal digits stands for.
pub open spec fn digits_value(s: Seq<char>) -> nat
    decreases s.len(),
{
    if s.len() == 0 {
        0
    } else {
        (digits_value(s.drop_last()) * 10 + (s.last() as u32 - '0' as u32)) as nat
    }
}

pub open spec fn all_digits(s: Seq<char>) -> bool {
    forall|i: int| 0 <= i < s.len() ==> is_digit(#[trigger] s[i])
}

/// The number that `s` writes: decimal digits after an optional `+`.
pub open spec fn unsigned_value(s: Seq<char>) -> Option<nat> {
    let body = if s.len() > 0 && s[0] == '+' {
        s.drop_first()
    } else {
        s
    };
    if body.len() > 0 && all_digits(body) {
        Some(digits_value(body))
    } else {
        None
    }
}

/// The number that `s` writes: decimal digits after an optional sign.
pub open spec fn signed_value(s: Seq<char>) -> Option<int> {
    if s.len() > 0 && s[0] == '-' {
        if s.len() > 1 && all_digits(s.drop_first()) {
            Some(-digits_value(s.drop_first()))
        } else {
            None
        }
    } else {
        match unsigned_value(s) {
            Some(n) => Some(n as int),
            None => None,
        }
    }
}

pub proof fn lemma_digits_value_prefix(s: Seq<char>, i: int)
    requires
        all_digits(s),
        0 <= i <= s.len(),
    ensures
        digits_value(s.take(i)) <= digits_value(s),
    decreases s.len() - i,
{
    if i == s.len() {
        assert(s.take(i) =~= s);
    } else {
        lemma_digits_value_prefix(s, i + 1);
        assert(s.take(i + 1).drop_last() =~= s.take(i));
        assert(is_digit(s[i]));
    }
}

/// The value of the digits from `from` on, where it does not exceed `limit`.
fn read_digits(x: &Vec<char>, from: usize, limit: u64) -> (r: Option<u64>)
    requires
        from <= x@.len(),
    ensures
        ({
            let body = x@.skip(from as int);
            &&& r matches Some(n) ==> body.len() > 0 && all_digits(body) && n == digits_value(body)
                && n <= limit
            &&& r is None ==> body.len() == 0 || !all_digits(body) || digits_value(body) > limit
        }),
{
    let ghost body = x@.skip(from as int);
    if from == x.len() {
        return None;
    }
    let mut n: u64 = 0;
    let mut over = false;
    let mut i: usize = from;
    while i < x.len()
        invariant
            from <= i <= x@.len(),
            body == x@.skip(from as int),
            all_digits(body.take(i - from)),
            !over ==> n == digits_value(body.take(i - from)) && n <= limit,
            over ==> digits_value(body.take(i - from)) > limit,
        decreases x@.len() - i,
    {
        let c = x[i];
        assert(body[i - from] == c);
        if !('0' <= c && c <= '9') {
            assert(!is_digit(body[i - from]));
            return None;
        }
        let d: u8 = (c as u8) - 48;
        proof {
            let next = body.take(i + 1 - from);
            assert(next.drop_last() =~= body.take(i - from));
            assert(next.last() == c);
            assert(d == c as u32 - '0' as u32);
            assert forall|j: int| 0 <= j < next.len() implies is_digit(#[trigger] next[j]) by {
                if j < i - from {
                    assert(body.take(i - from)[j] == next[j]);
                }
            }
        }
        if !over {
            let wide: u128 = (n as u128) * 10 + (d as u128);
            if wide > limit as u128 {
                over = true;
            } else {
                n = wide as u64;
            }
        }
        i += 1;
    }
    assert(body.take(i - from) =~= body);
    if over {
        None
    } else {
        Some(n)
    }
}

/// The number that `s` writes, where it fits in 64 bits.
pub fn parse_unsigned(s: &str) -> (r: Option<u64>)
    ensures
        r matches Some(n) ==> unsigned_value(s@) == Some(n as nat),
        r is None ==> (unsigned_value(s@) matches Some(n) ==> n > u64::MAX),
{
    let x: Vec<char> = chars_of(s);
    if x.len() > 0 && x[0] == '+' {
        assert(x@.skip(1) =~= s@.drop_first());
        read_digits(&x, 1, u64::MAX)
    } else {
        assert(x@.skip(0) =~= s@);
        read_digits(&x, 0, u64::MAX)
    }
}

/// The signed number that `s` writes, where it fits in 64 bits.
pub fn parse_signed(s: &str) -> (r: Option<i64>)
    ensures
        r matches Some(n) ==> signed_value(s@) == Some(n as int),
        r is None ==> (signed_value(s@) matches Some(n) ==> n > i64::MAX || n < i64::MIN),
{
    let x: Vec<char> = chars_of(s);
    if x.len() > 0 && x[0] == '-' {
        assert(x@.skip(1) =~= s@.drop_first());
        match read_digits(&x, 1, 0x8000_0000_0000_0000) {
            Some(n) => Some((0i128 - (n as i128)) as i64),
            None => None,
        }
    } else if x.len() > 0 && x[0] == '+' {
        assert(x@.skip(1) =~= s@.drop_first());
        match read_digits(&x, 1, 0x7fff_ffff_ffff_ffff) {
            Some(n) => Some(n as i64),
            None => None,
        }
    } else {
        assert(x@.skip(0) =~= s@);
        match read_digits(&x, 0, 0x7fff_ffff_ffff_ffff) {
            Some(n) => Some(n as i64),
            None => None,
        }
    }
}

// ---------------------------------------------------------------------------
// What holds of texts
// ---------------------------------------------------------------------------

/// Dictionary order: a text comes before every longer one that it begins, and of two that
/// part at some place the one with the smaller character there comes first.
pub proof fn law_texts_are_in_dictionary_order(
    common: Seq<char>,
    a: char,
    x: Seq<char>,
    b: char,
    y: Seq<char>,
)
    ensures
        text_lt(common, common + seq![a] + x),
        !text_lt(common + seq![a] + x, common),
        a < b ==> text_lt(common + seq![a] + x, common + seq![b] + y),
        a > b ==> !text_lt(common + seq![a] + x, common + seq![b] + y),
    decreases common.len(),
{
    let left = common + seq![a] + x;
    let right = common + seq![b] + y;
    if common.len() > 0 {
        let rest = common.drop_first();
        law_texts_are_in_dictionary_order(rest, a, x, b, y);
        assert(left.drop_first() =~= rest + seq![a] + x);
        assert(right.drop_first() =~= rest + seq![b] + y);
    }
}

/// Tabs, line ends and spaces are white space; no letter, digit or mark of ASCII is.
pub proof fn law_visible_characters_are_no_white_space(c: char)
    ensures
        c == ' ' || c == '\t' || c == '\n' || c == '\r' ==> is_white_space(c),
        '!' <= c <= '~' ==> !is_white_space(c),
        'a' <= c <= 'z' || 'A' <= c <= 'Z' || '0' <= c <= '9' ==> is_ascii_alnum(c),
        is_ascii_alnum(c) ==> '0' <= c <= 'z' && !is_white_space(c) && c != '/' && c != ':' && c
            != '-' && c != '_',
{
}

/// Lower case leaves every character where it is, changes capital letters of ASCII alone,
/// and changes nothing the second time.
pub proof fn law_lower_case_changes_capitals_alone(s: Seq<char>, i: int)
    requires
        0 <= i < s.len(),
    ensures
        lowercase(s).len() == s.len(),
        !('A' <= s[i] <= 'Z') ==> lowercase(s)[i] == s[i],
        'A' <= s[i] <= 'Z' ==> 'a' <= lowercase(s)[i] <= 'z' && lowercase(s)[i] as int == s[i] as int
            + 32,
        lower(lower(s[i])) == lower(s[i]),
{
}

/// A trimmed text has no white space at its ends, stands in the text as it was, and only
/// white space was around it.
pub proof fn law_trimming_takes_white_space_alone(s: Seq<char>)
    ensures
        ({
            let from = s.len() - trim_front(s, Trim::White).len();
            let to = from + trimmed(s).len();
            &&& 0 <= from <= to <= s.len()
            &&& trimmed(s) == s.subrange(from, to)
            &&& forall|i: int| 0 <= i < from ==> is_white_space(#[trigger] s[i])
            &&& forall|i: int| to <= i < s.len() ==> is_white_space(#[trigger] s[i])
            &&& trimmed(s).len() > 0 ==> !is_white_space(trimmed(s)[0]) && !is_white_space(
                trimmed(s).last(),
            )
        }),
{
    lemma_trim_front_first(s, Trim::White);
    let front = trim_front(s, Trim::White);
    lemma_trim_back_last(front, Trim::White);
    let from = s.len() - front.len();
    let to = from + trimmed(s).len();
    assert(trimmed(s) =~= s.subrange(from, to));
    assert forall|i: int| 0 <= i < from implies is_white_space(#[trigger] s[i]) by {
        assert(Trim::White.takes(s[i]));
    }
    assert forall|i: int| to <= i < s.len() implies is_white_space(#[trigger] s[i]) by {
        assert(front[i - from] == s[i]);
        assert(Trim::White.takes(front[i - from]));
    }
}

/// A number that is written down is read back: its digits stand for it, with a plus before
/// them too, and with a minus for its negative.
pub proof fn law_written_numbers_are_read_back(n: nat)
    ensures
        all_digits(decimal(n)),
        decimal(n).len() > 0,
        digits_value(decimal(n)) == n,
        unsigned_value(decimal(n)) == Some(n),
        unsigned_value(seq!['+'] + decimal(n)) == Some(n),
        signed_value(decimal(n)) == Some(n as int),
        signed_value(seq!['-'] + decimal(n)) == Some(-n),
{
    lemma_decimal_digits(n);
    let d = decimal(n);
    assert(is_digit(d[0]));
    assert((seq!['+'] + d).drop_first() =~= d);
    assert((seq!['-'] + d).drop_first() =~= d);
}

proof fn lemma_decimal_digits(n: nat)
    ensures
        all_digits(decimal(n)),
        decimal(n).len() > 0,
        digits_value(decimal(n)) == n,
    decreases n,
{
    reveal_with_fuel(digits_value, 2);
    if n >= 10 {
        lemma_decimal_digits(n / 10);
        let front = decimal(n / 10);
        let all = decimal(n);
        assert(all == front.push(digit_char(n % 10)));
        assert(all.drop_last() =~= front);
        assert(digit_char(n % 10) as u32 - '0' as u32 == n % 10);
        assert forall|i: int| 0 <= i < all.len() implies is_digit(#[trigger] all[i]) by {
            if i < front.len() {
                assert(all[i] == front[i]);
            }
        }
    } else {
        assert(seq![digit_char(n)].drop_last() =~= Seq::<char>::empty());
    }
}

/// Nothing but digits, after one sign at most, writes a number.
pub proof fn law_only_digits_write_numbers(s: Seq<char>, i: int)
    requires
        0 <= i < s.len(),
        !('0' <= s[i] <= '9'),
    ensures
        i > 0 || s[i] != '+' ==> unsigned_value(s) is None,
        i > 0 || (s[i] != '+' && s[i] != '-') ==> signed_value(s) is None,
        unsigned_value(Seq::empty()) is None,
        signed_value(Seq::empty()) is None,
        unsigned_value(seq!['+']) is None,
        signed_value(seq!['-']) is None,
{
    assert(seq!['+'].drop_first() =~= Seq::<char>::empty());
    if s.len() > 0 && (s[0] == '+' || s[0] == '-') && i > 0 {
        let body = s.drop_first();
        assert(body[i - 1] == s[i]);
        assert(!all_digits(body));
    }
    if i > 0 || s[i] != '+' {
        assert(!(s[0] == '+' && i == 0));
        if s[0] != '+' {
            assert(!all_digits(s));
        }
    }
}

/// What stands before the first separator holds none, is followed by one, and is all where
/// there is none; and no piece of a text holds the separator.
pub proof fn law_pieces_hold_no_separator(s: Seq<char>, c: char, i: int)
    requires
        0 <= i < pieces(s, c).len(),
    ensures
        !pieces(s, c)[i].contains(c),
        pieces(s, c)[0] == before_first(s, c),
        !s.contains(c) ==> pieces(s, c) == seq![s],
    decreases s.len(),
{
    lemma_head(s, c);
    let head = before_first(s, c);
    if head.len() < s.len() {
        if i > 0 {
            law_pieces_hold_no_separator(s.skip(head.len() as int + 1), c, i - 1);
        }
        assert(s.contains(s[head.len() as int]));
    } else {
        assert(head =~= s);
    }
}

proof fn lemma_head(s: Seq<char>, c: char)
    ensures
        !before_first(s, c).contains(c),
        before_first(s, c).len() <= s.len(),
        before_first(s, c) == s.take(before_first(s, c).len() as int),
        before_first(s, c).len() < s.len() ==> s[before_first(s, c).len() as int] == c,
    decreases s.len(),
{
    if s.len() > 0 && s[0] != c {
        let rest = s.drop_first();
        lemma_head(rest, c);
        let tail = before_first(rest, c);
        let head = before_first(s, c);
        assert(head == seq![s[0]] + tail);
        assert forall|j: int| 0 <= j < head.len() implies #[trigger] head[j] != c by {
            if j > 0 {
                assert(tail.contains(tail[j - 1]));
            }
        }
        assert(head =~= s.take(head.len() as int));
    }
}

} // verus!
