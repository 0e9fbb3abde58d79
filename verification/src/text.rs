//! Text as sequences of characters: trimming, splitting, searching, joining
//! and byte lengths, each with the meaning that Rust's `str` gives it.

use vstd::prelude::*;
use vstd::slice::*;
use vstd::string::*;

verus! {

/// `String::push` appends one character.
pub assume_specification[ String::push ](s: &mut String, c: char)
    ensures
        final(s)@ == old(s)@.push(c),
;

/// A set of characters that the parsers strip from the ends of a text.
#[derive(Clone, Copy, PartialEq, Eq, Structural, Debug)]
pub enum CharClass {
    White,
    Hash,
    Dash,
    Underscore,
    PromptTag,
}

/// The characters with the Unicode property White_Space.
pub open spec fn is_white(c: char) -> bool {
    let n = c as u32;
    ||| 0x09 <= n <= 0x0d
    ||| n == 0x20
    ||| n == 0x85
    ||| n == 0xa0
    ||| n == 0x1680
    ||| 0x2000 <= n <= 0x200a
    ||| n == 0x2028
    ||| n == 0x2029
    ||| n == 0x202f
    ||| n == 0x205f
    ||| n == 0x3000
}

/// Membership in a character set.
pub open spec fn in_class(k: CharClass, c: char) -> bool {
    match k {
        CharClass::White => is_white(c),
        CharClass::Hash => c == '#',
        CharClass::Dash => c == '-',
        CharClass::Underscore => c == '_',
        CharClass::PromptTag => c == '<' || c == '>' || c == 'p' || c == 'r' || c == 'o' || c == 'm'
            || c == 't' || c == ':',
    }
}

impl CharClass {
    /// Whether the set holds `c`.
    pub fn has(self, c: char) -> (r: bool)
        ensures
            r == in_class(self, c),
    {
        match self {
            CharClass::White => {
                let n: u32 = c as u32;
                (0x09 <= n && n <= 0x0d) || n == 0x20 || n == 0x85 || n == 0xa0 || n == 0x1680 || (
                0x2000 <= n && n <= 0x200a) || n == 0x2028 || n == 0x2029 || n == 0x202f || n
                    == 0x205f || n == 0x3000
            },
            CharClass::Hash => c == '#',
            CharClass::Dash => c == '-',
            CharClass::Underscore => c == '_',
            CharClass::PromptTag => c == '<' || c == '>' || c == 'p' || c == 'r' || c == 'o' || c
                == 'm' || c == 't' || c == ':',
        }
    }
}

/// What is left of `s` after its leading characters in `k`.
pub open spec fn drop_leading(s: Seq<char>, k: CharClass) -> Seq<char>
    decreases s.len(),
{
    if s.len() > 0 && in_class(k, s[0]) {
        drop_leading(s.drop_first(), k)
    } else {
        s
    }
}

/// What is left of `s` before its trailing characters in `k`.
pub open spec fn drop_trailing(s: Seq<char>, k: CharClass) -> Seq<char>
    decreases s.len(),
{
    if s.len() > 0 && in_class(k, s.last()) {
        drop_trailing(s.drop_last(), k)
    } else {
        s
    }
}

/// `s` without white space at either end.
pub open spec fn trim(s: Seq<char>) -> Seq<char> {
    drop_trailing(drop_leading(s, CharClass::White), CharClass::White)
}

/// The length of the leading run of `s` that holds no white space.
pub open spec fn word_len(s: Seq<char>) -> nat
    decreases s.len(),
{
    if s.len() == 0 || is_white(s[0]) {
        0
    } else {
        1 + word_len(s.drop_first())
    }
}

/// The maximal runs of `s` without white space, in order.
pub open spec fn words(s: Seq<char>) -> Seq<Seq<char>>
    decreases s.len(),
{
    let t = drop_leading(s, CharClass::White);
    if t.len() == 0 {
        Seq::empty()
    } else {
        let n = word_len(t);
        proof {
            lemma_drop_leading(s, CharClass::White);
            lemma_word_len(t);
        }
        seq![t.take(n as int)] + words(t.skip(n as int))
    }
}

/// Where the first line feed of `s` stands, or the length of `s`.
pub open spec fn line_feed_at(s: Seq<char>) -> nat
    decreases s.len(),
{
    if s.len() == 0 || s[0] == '\n' {
        0
    } else {
        1 + line_feed_at(s.drop_first())
    }
}

/// `s` without one trailing carriage return.
pub open spec fn strip_return(s: Seq<char>) -> Seq<char> {
    if s.len() > 0 && s.last() == '\r' {
        s.drop_last()
    } else {
        s
    }
}

/// The lines of `s`: pieces that end in a line feed, which is dropped with a
/// carriage return before it, and the rest after the last line feed if any.
pub open spec fn lines(s: Seq<char>) -> Seq<Seq<char>>
    decreases s.len(),
{
    if s.len() == 0 {
        Seq::empty()
    } else {
        let n = line_feed_at(s);
        if n >= s.len() {
            seq![s]
        } else {
            seq![strip_return(s.take(n as int))] + lines(s.skip(n as int + 1))
        }
    }
}

/// `p` occurs in `s` at position `i`.
pub open spec fn occurs_at(s: Seq<char>, p: Seq<char>, i: int) -> bool {
    &&& 0 <= i
    &&& i + p.len() <= s.len()
    &&& s.subrange(i, i + p.len()) == p
}

/// `p` occurs somewhere in `s`.
pub open spec fn contains(s: Seq<char>, p: Seq<char>) -> bool {
    exists|i: int| occurs_at(s, p, i)
}

/// The first position from `i` on at which `p` occurs in `s`.
pub open spec fn find_from(s: Seq<char>, p: Seq<char>, i: int) -> Option<int>
    decreases s.len() + 1 - i,
{
    if i < 0 || i + p.len() > s.len() {
        None
    } else if occurs_at(s, p, i) {
        Some(i)
    } else {
        find_from(s, p, i + 1)
    }
}

/// The first position at which `p` occurs in `s`.
pub open spec fn find(s: Seq<char>, p: Seq<char>) -> Option<int> {
    find_from(s, p, 0)
}

/// `s` begins with `p`.
pub open spec fn starts_with(s: Seq<char>, p: Seq<char>) -> bool {
    occurs_at(s, p, 0)
}

/// `s` with each occurrence of `p`, from the left and without overlap,
/// replaced by `r`.
pub open spec fn replace(s: Seq<char>, p: Seq<char>, r: Seq<char>) -> Seq<char>
    decreases s.len(),
{
    match find(s, p) {
        Some(i) if p.len() > 0 => {
            proof {
                lemma_find_from(s, p, 0);
            }
            s.take(i) + r + replace(s.skip(i + p.len()), p, r)
        },
        _ => s,
    }
}

/// The texts of `parts` with `sep` between neighbours.
pub open spec fn join(parts: Seq<Seq<char>>, sep: Seq<char>) -> Seq<char>
    decreases parts.len(),
{
    if parts.len() == 0 {
        Seq::empty()
    } else if parts.len() == 1 {
        parts[0]
    } else {
        join(parts.drop_last(), sep) + sep + parts.last()
    }
}

/// The number of bytes of `c` in UTF-8.
pub open spec fn char_bytes(c: char) -> nat {
    let n = c as u32;
    if n < 0x80 {
        1
    } else if n < 0x800 {
        2
    } else if n < 0x10000 {
        3
    } else {
        4
    }
}

/// The number of bytes of `s` in UTF-8.
pub open spec fn byte_len(s: Seq<char>) -> nat
    decreases s.len(),
{
    if s.len() == 0 {
        0
    } else {
        byte_len(s.drop_last()) + char_bytes(s.last())
    }
}

/// How many leading characters of `s` take exactly `n` bytes, if byte `n`
/// lies between two characters of `s` or at its end.
pub open spec fn char_boundary(s: Seq<char>, n: nat) -> Option<nat>
    decreases s.len(),
{
    if byte_len(s) == n {
        Some(s.len())
    } else if s.len() == 0 || byte_len(s) < n {
        None
    } else {
        char_boundary(s.drop_last(), n)
    }
}

/// The decimal digit of `d`.
pub open spec fn digit(d: nat) -> char {
    (('0' as u32) + d) as char
}

/// The decimal notation of `n`.
pub open spec fn decimal(n: nat) -> Seq<char>
    decreases n,
{
    if n < 10 {
        seq![digit(n)]
    } else {
        decimal(n / 10).push(digit(n % 10))
    }
}

/// The texts that a sequence of strings holds.
pub open spec fn texts(v: Seq<String>) -> Seq<Seq<char>> {
    v.map_values(|s: String| s@)
}

/// The texts that a sequence of character vectors holds.
pub open spec fn char_texts(v: Seq<Vec<char>>) -> Seq<Seq<char>> {
    v.map_values(|s: Vec<char>| s@)
}

/// A text as values.
pub open spec fn str_view(s: Option<&str>) -> Option<Seq<char>> {
    match s {
        Some(t) => Some(t@),
        None => None,
    }
}

/// The texts that a sequence of optional strings holds.
pub open spec fn opt_texts(v: Seq<Option<String>>) -> Seq<Option<Seq<char>>> {
    v.map_values(|o: Option<String>| opt_text(o))
}

/// The text that an optional string holds.
pub open spec fn opt_text(o: Option<String>) -> Option<Seq<char>> {
    match o {
        Some(s) => Some(s@),
        None => None,
    }
}

pub proof fn lemma_drop_leading(s: Seq<char>, k: CharClass)
    ensures
        drop_leading(s, k).len() <= s.len(),
        drop_leading(s, k) == s.skip(s.len() - drop_leading(s, k).len()),
        drop_leading(s, k).len() > 0 ==> !in_class(k, drop_leading(s, k)[0]),
    decreases s.len(),
{
    if s.len() > 0 && in_class(k, s[0]) {
        lemma_drop_leading(s.drop_first(), k);
        let t = drop_leading(s, k);
        assert(s.drop_first().skip(s.drop_first().len() - t.len()) =~= s.skip(s.len() - t.len()));
    } else {
        assert(s.skip(0) =~= s);
    }
}

pub proof fn lemma_word_len(s: Seq<char>)
    ensures
        word_len(s) <= s.len(),
        s.len() > 0 && !is_white(s[0]) ==> word_len(s) > 0,
        forall|j: int| 0 <= j < word_len(s) ==> !is_white(s[j]),
        word_len(s) < s.len() ==> is_white(s[word_len(s) as int]),
    decreases s.len(),
{
    if s.len() > 0 && !is_white(s[0]) {
        let t = s.drop_first();
        lemma_word_len(t);
        assert forall|j: int| 0 <= j < word_len(s) implies !is_white(s[j]) by {
            if j > 0 {
                assert(s[j] == t[j - 1]);
            }
        }
        if word_len(s) < s.len() {
            assert(s[word_len(s) as int] == t[word_len(t) as int]);
        }
    }
}

pub proof fn lemma_find_from(s: Seq<char>, p: Seq<char>, i: int)
    requires
        0 <= i,
    ensures
        match find_from(s, p, i) {
            Some(j) => i <= j && occurs_at(s, p, j) && forall|k: int|
                i <= k < j ==> !occurs_at(s, p, k),
            None => forall|k: int| i <= k ==> !occurs_at(s, p, k),
        },
    decreases s.len() + 1 - i,
{
    if i + p.len() <= s.len() && !occurs_at(s, p, i) {
        lemma_find_from(s, p, i + 1);
    }
}

/// The characters of a string.
pub fn to_chars(s: &str) -> (r: Vec<char>)
    ensures
        r@ == s@,
{
    let mut v: Vec<char> = Vec::new();
    for c in it: s.chars()
        invariant
            it.seq() == s@,
            v@ == s@.take(it.index() as int),
    {
        v.push(c);
        assert(s@.take(it.index() as int + 1) =~= s@.take(it.index() as int).push(c));
    }
    assert(s@.take(s@.len() as int) =~= s@);
    v
}

/// The string made of the given characters.
pub fn to_text(s: &[char]) -> (r: String)
    ensures
        r@ == s@,
{
    let mut t: String = String::new();
    let mut i: usize = 0;
    while i < s.len()
        invariant
            i <= s@.len(),
            t@ == s@.take(i as int),
        decreases s@.len() - i,
    {
        t.push(s[i]);
        assert(s@.take(i as int + 1) =~= s@.take(i as int).push(s@[i as int]));
        i = i + 1;
    }
    assert(s@.take(s@.len() as int) =~= s@);
    t
}

/// A slice as a vector of its own.
pub fn to_vec(s: &[char]) -> (r: Vec<char>)
    ensures
        r@ == s@,
{
    let mut v: Vec<char> = Vec::new();
    let mut i: usize = 0;
    while i < s.len()
        invariant
            i <= s@.len(),
            v@ == s@.take(i as int),
        decreases s@.len() - i,
    {
        v.push(s[i]);
        assert(s@.take(i as int + 1) =~= s@.take(i as int).push(s@[i as int]));
        i = i + 1;
    }
    assert(s@.take(s@.len() as int) =~= s@);
    v
}

/// A copy of an optional string.
pub fn copy_opt(o: &Option<String>) -> (r: Option<String>)
    ensures
        opt_text(r) == opt_text(*o),
{
    match o {
        Some(s) => Some(s.clone()),
        None => None,
    }
}

/// Whether two strings hold the same text.
pub fn same_text(a: &str, b: &str) -> (r: bool)
    ensures
        r == (a@ == b@),
{
    a.to_owned() == b.to_owned()
}

/// Strips the leading characters in `k`.
pub fn strip_leading<'a>(s: &'a [char], k: CharClass) -> (r: &'a [char])
    ensures
        r@ == drop_leading(s@, k),
{
    let mut i: usize = 0;
    assert(s@.skip(0) =~= s@);
    while i < s.len() && k.has(s[i])
        invariant
            i <= s@.len(),
            drop_leading(s@, k) == drop_leading(s@.skip(i as int), k),
        decreases s@.len() - i,
    {
        assert(s@.skip(i as int).drop_first() =~= s@.skip(i as int + 1));
        i = i + 1;
    }
    assert(s@.subrange(i as int, s@.len() as int) =~= s@.skip(i as int));
    slice_subrange(s, i, s.len())
}

/// Strips the trailing characters in `k`.
pub fn strip_trailing<'a>(s: &'a [char], k: CharClass) -> (r: &'a [char])
    ensures
        r@ == drop_trailing(s@, k),
{
    let mut n: usize = s.len();
    assert(s@.take(n as int) =~= s@);
    while n > 0 && k.has(s[n - 1])
        invariant
            n <= s@.len(),
            drop_trailing(s@, k) == drop_trailing(s@.take(n as int), k),
        decreases n,
    {
        assert(s@.take(n as int).drop_last() =~= s@.take(n as int - 1));
        n = n - 1;
    }
    assert(s@.subrange(0, n as int) =~= s@.take(n as int));
    slice_subrange(s, 0, n)
}

/// Strips white space from both ends.
pub fn trimmed<'a>(s: &'a [char]) -> (r: &'a [char])
    ensures
        r@ == trim(s@),
{
    strip_trailing(strip_leading(s, CharClass::White), CharClass::White)
}

/// The text of `s` without white space at either end.
pub fn trim_text(s: &str) -> (r: String)
    ensures
        r@ == trim(s@),
{
    let v = to_chars(s);
    to_text(trimmed(v.as_slice()))
}

/// Whether nothing but white space stands in `s`.
pub fn is_blank(s: &str) -> (r: bool)
    ensures
        r == (trim(s@).len() == 0),
{
    let v = to_chars(s);
    trimmed(v.as_slice()).len() == 0
}

/// The leading run without white space, as a length.
fn leading_word(s: &[char]) -> (n: usize)
    ensures
        n == word_len(s@),
        n <= s@.len(),
{
    let mut i: usize = 0;
    assert(s@.skip(0) =~= s@);
    proof {
        lemma_word_len(s@);
    }
    while i < s.len() && !CharClass::White.has(s[i])
        invariant
            i <= s@.len(),
            word_len(s@) == i + word_len(s@.skip(i as int)),
        decreases s@.len() - i,
    {
        assert(s@.skip(i as int).drop_first() =~= s@.skip(i as int + 1));
        i = i + 1;
    }
    i
}

/// Splits at white space.
pub fn split_words(s: &[char]) -> (r: Vec<Vec<char>>)
    ensures
        char_texts(r@) == words(s@),
{
    let mut out: Vec<Vec<char>> = Vec::new();
    let mut rest = s;
    assert(char_texts(out@) =~= Seq::empty());
    assert(words(s@) =~= Seq::<Seq<char>>::empty() + words(s@));
    loop
        invariant
            words(s@) == char_texts(out@) + words(rest@),
        ensures
            words(s@) == char_texts(out@),
        decreases rest@.len(),
    {
        let t = strip_leading(rest, CharClass::White);
        proof {
            lemma_drop_leading(rest@, CharClass::White);
        }
        if t.len() == 0 {
            assert(char_texts(out@) + words(rest@) =~= char_texts(out@));
            break;
        }
        let n = leading_word(t);
        proof {
            lemma_word_len(t@);
        }
        let ghost before = out@;
        let w = to_vec(slice_subrange(t, 0, n));
        out.push(w);
        let ghost old_rest = rest@;
        rest = slice_subrange(t, n, t.len());
        proof {
            assert(t@.subrange(0, n as int) =~= t@.take(n as int));
            assert(rest@ =~= t@.skip(n as int));
            assert(char_texts(out@) =~= char_texts(before).push(w@));
            assert(char_texts(before) + words(old_rest) =~= char_texts(out@) + words(rest@));
        }
    }
    out
}

/// Splits into lines.
pub fn split_lines(s: &[char]) -> (r: Vec<Vec<char>>)
    ensures
        char_texts(r@) == lines(s@),
{
    let mut out: Vec<Vec<char>> = Vec::new();
    let mut rest = s;
    assert(char_texts(out@) =~= Seq::empty());
    assert(lines(s@) =~= Seq::<Seq<char>>::empty() + lines(s@));
    while rest.len() > 0
        invariant
            lines(s@) == char_texts(out@) + lines(rest@),
        decreases rest@.len(),
    {
        let n = leading_line(rest);
        let ghost before = out@;
        let ghost old_rest = rest@;
        if n == rest.len() {
            let w = to_vec(rest);
            out.push(w);
            rest = slice_subrange(rest, n, rest.len());
            proof {
                assert(char_texts(out@) =~= char_texts(before).push(w@));
                assert(lines(rest@) =~= Seq::<Seq<char>>::empty());
                assert(char_texts(before) + lines(old_rest) =~= char_texts(out@) + lines(rest@));
            }
        } else {
            let mut m: usize = n;
            if n > 0 && rest[n - 1] == '\r' {
                m = n - 1;
            }
            let w = to_vec(slice_subrange(rest, 0, m));
            out.push(w);
            rest = slice_subrange(rest, n + 1, rest.len());
            proof {
                assert(w@ =~= strip_return(old_rest.take(n as int)));
                assert(rest@ =~= old_rest.skip(n as int + 1));
                assert(char_texts(out@) =~= char_texts(before).push(w@));
                assert(char_texts(before) + lines(old_rest) =~= char_texts(out@) + lines(rest@));
            }
        }
    }
    assert(char_texts(out@) + lines(rest@) =~= char_texts(out@));
    out
}

/// The position of the first line feed, or the length.
fn leading_line(s: &[char]) -> (n: usize)
    ensures
        n == line_feed_at(s@),
        n <= s@.len(),
{
    let mut i: usize = 0;
    assert(s@.skip(0) =~= s@);
    while i < s.len() && s[i] != '\n'
        invariant
            i <= s@.len(),
            line_feed_at(s@) == i + line_feed_at(s@.skip(i as int)),
        decreases s@.len() - i,
    {
        assert(s@.skip(i as int).drop_first() =~= s@.skip(i as int + 1));
        i = i + 1;
    }
    i
}

/// Whether `p` occurs in `s` at position `i`.
pub fn matches_at(s: &[char], p: &[char], i: usize) -> (r: bool)
    ensures
        r == occurs_at(s@, p@, i as int),
{
    if i > s.len() || p.len() > s.len() - i {
        return false;
    }
    let mut k: usize = 0;
    while k < p.len()
        invariant
            k <= p@.len(),
            i + p@.len() <= s@.len() <= usize::MAX,
            forall|j: int| 0 <= j < k ==> s@[i + j] == p@[j],
        decreases p@.len() - k,
    {
        if s[i + k] != p[k] {
            assert(s@.subrange(i as int, i + p@.len())[k as int] != p@[k as int]);
            return false;
        }
        k = k + 1;
    }
    assert(s@.subrange(i as int, i + p@.len()) =~= p@);
    true
}

/// The first position at which `p` occurs in `s`.
pub fn position(s: &[char], p: &[char]) -> (r: Option<usize>)
    ensures
        match r {
            Some(i) => find(s@, p@) == Some(i as int) && i + p@.len() <= s@.len(),
            None => find(s@, p@) is None,
        },
{
    if p.len() > s.len() {
        return None;
    }
    let mut i: usize = 0;
    while i <= s.len() - p.len()
        invariant
            i <= s@.len() - p@.len() + 1,
            p@.len() <= s@.len(),
            s@.len() <= usize::MAX,
            find(s@, p@) == find_from(s@, p@, i as int),
        decreases s@.len() + 1 - i,
    {
        if matches_at(s, p, i) {
            return Some(i);
        }
        if i == usize::MAX {
            assert(p@.len() == 0 && occurs_at(s@, p@, i as int)) by {
                assert(s@.subrange(i as int, i as int) =~= p@);
            }
            return None;
        }
        i = i + 1;
    }
    None
}

/// Whether `p` occurs in `s`.
pub fn has_part(s: &[char], p: &[char]) -> (r: bool)
    ensures
        r == contains(s@, p@),
{
    proof {
        lemma_find_from(s@, p@, 0);
    }
    match position(s, p) {
        Some(i) => {
            assert(occurs_at(s@, p@, i as int));
            true
        },
        None => {
            assert forall|i: int| !occurs_at(s@, p@, i) by {}
            false
        },
    }
}

/// Whether the text `p` occurs in the text `s`.
pub fn text_contains(s: &str, p: &str) -> (r: bool)
    ensures
        r == contains(s@, p@),
{
    let a = to_chars(s);
    let b = to_chars(p);
    has_part(a.as_slice(), b.as_slice())
}

/// Whether the text `s` begins with the text `p`.
pub fn text_starts_with(s: &str, p: &str) -> (r: bool)
    ensures
        r == starts_with(s@, p@),
{
    let a = to_chars(s);
    let b = to_chars(p);
    matches_at(a.as_slice(), b.as_slice(), 0)
}

/// Whether the text `s` ends with the text `p`.
pub open spec fn ends_with(s: Seq<char>, p: Seq<char>) -> bool {
    occurs_at(s, p, s.len() - p.len())
}

/// Replaces each occurrence of `p` by `by`.
pub fn replace_all(s: &str, p: &str, by: &str) -> (r: String)
    ensures
        r@ == replace(s@, p@, by@),
{
    let a = to_chars(s);
    let b = to_chars(p);
    let mut out: String = String::new();
    let mut rest = a.as_slice();
    assert(out@ + replace(rest@, p@, by@) =~= replace(s@, p@, by@));
    loop
        invariant
            b@ == p@,
            replace(s@, p@, by@) == out@ + replace(rest@, p@, by@),
        ensures
            replace(s@, p@, by@) == out@ + rest@,
        decreases rest@.len(),
    {
        let at = position(rest, b.as_slice());
        match at {
            Some(i) if b.len() > 0 => {
                let head = to_text(slice_subrange(rest, 0, i));
                let ghost before = out@;
                let ghost old_rest = rest@;
                out.append(head.as_str());
                out.append(by);
                let end = rest.len();
                rest = slice_subrange(rest, i + b.len(), end);
                proof {
                    assert(head@ =~= old_rest.take(i as int));
                    assert(rest@ =~= old_rest.skip(i + p@.len()));
                    assert(before + (old_rest.take(i as int) + by@ + replace(rest@, p@, by@)) =~= out@
                        + replace(rest@, p@, by@));
                }
            },
            _ => {
                assert(replace(rest@, p@, by@) == rest@);
                break;
            },
        }
    }
    let tail = to_text(rest);
    out.append(tail.as_str());
    out
}

/// Joins the parts from index `from` on.
pub fn join_from(parts: &Vec<Vec<char>>, from: usize, sep: &str) -> (r: String)
    requires
        from <= parts@.len(),
    ensures
        r@ == join(char_texts(parts@).skip(from as int), sep@),
{
    let mut out: String = String::new();
    let mut i: usize = from;
    let ghost all = char_texts(parts@).skip(from as int);
    while i < parts.len()
        invariant
            from <= i <= parts@.len(),
            all == char_texts(parts@).skip(from as int),
            out@ == join(all.take(i - from), sep@),
        decreases parts@.len() - i,
    {
        if i > from {
            out.append(sep);
        }
        let part = to_text(parts[i].as_slice());
        out.append(part.as_str());
        proof {
            let next = all.take(i - from + 1);
            assert(next.drop_last() =~= all.take(i - from));
            assert(next.last() == parts@[i as int]@);
            if i == from {
                assert(join(next, sep@) == next[0]);
                assert(out@ =~= next[0]);
            }
        }
        i = i + 1;
    }
    assert(all.take(parts@.len() - from) =~= all);
    out
}

/// The number of bytes of a character in UTF-8.
pub fn char_size(c: char) -> (n: usize)
    ensures
        n == char_bytes(c),
{
    let n: u32 = c as u32;
    if n < 0x80 {
        1
    } else if n < 0x800 {
        2
    } else if n < 0x10000 {
        3
    } else {
        4
    }
}

/// A longer prefix takes no fewer bytes.
pub proof fn lemma_byte_len_prefix(s: Seq<char>, i: int, j: int)
    requires
        0 <= i <= j <= s.len(),
    ensures
        byte_len(s.take(i)) + (j - i) <= byte_len(s.take(j)),
    decreases j - i,
{
    if i < j {
        assert(s.take(j).drop_last() =~= s.take(j - 1));
        lemma_byte_len_prefix(s, i, j - 1);
    }
}

/// The number of bytes of two texts one after the other.
pub proof fn lemma_byte_len_concat(a: Seq<char>, b: Seq<char>)
    ensures
        byte_len(a + b) == byte_len(a) + byte_len(b),
    decreases b.len(),
{
    if b.len() == 0 {
        assert(a + b =~= a);
    } else {
        assert((a + b).drop_last() =~= a + b.drop_last());
        lemma_byte_len_concat(a, b.drop_last());
    }
}

/// The UTF-8 encoding of `s` is as long as its characters say.
proof fn lemma_byte_len_encoding(s: Seq<char>)
    ensures
        vstd::utf8::encode_utf8(s).len() == byte_len(s),
    decreases s.len(),
{
    if s.len() > 0 {
        let rest = s.drop_first();
        lemma_byte_len_encoding(rest);
        assert(s =~= seq![s[0]] + rest);
        lemma_byte_len_concat(seq![s[0]], rest);
        assert(seq![s[0]].drop_last() =~= Seq::<char>::empty());
        vstd::utf8::char_is_scalar(s[0]);
        reveal_with_fuel(byte_len, 2);
        assert(byte_len(seq![s[0]]) == char_bytes(s[0]));
        assert(vstd::utf8::encode_scalar(s[0] as u32).len() == char_bytes(s[0]));
    }
}

/// The number of bytes of a text in UTF-8.
pub fn text_bytes(s: &str) -> (n: usize)
    ensures
        n == byte_len(s@),
{
    proof {
        lemma_byte_len_encoding(s@);
    }
    s.as_bytes().len()
}

/// A byte position is a boundary exactly where some prefix ends.
pub proof fn lemma_char_boundary(s: Seq<char>, n: nat)
    ensures
        match char_boundary(s, n) {
            Some(k) => k <= s.len() && byte_len(s.take(k as int)) == n,
            None => forall|k: int| 0 <= k <= s.len() ==> byte_len(#[trigger] s.take(k)) != n,
        },
    decreases s.len(),
{
    assert(s.take(s.len() as int) =~= s);
    if byte_len(s) == n {
    } else if s.len() == 0 || byte_len(s) < n {
        assert forall|k: int| 0 <= k <= s.len() implies byte_len(#[trigger] s.take(k)) != n by {
            lemma_byte_len_prefix(s, k, s.len() as int);
        }
    } else {
        let t = s.drop_last();
        lemma_char_boundary(t, n);
        match char_boundary(t, n) {
            Some(k) => {
                assert(t.take(k as int) =~= s.take(k as int));
            },
            None => {
                assert forall|k: int| 0 <= k <= s.len() implies byte_len(#[trigger] s.take(k))
                    != n by {
                    if k < s.len() {
                        assert(t.take(k) =~= s.take(k));
                    }
                }
            },
        }
    }
}

/// At most one prefix takes a given number of bytes.
pub proof fn lemma_char_boundary_at(s: Seq<char>, n: nat, k: int)
    requires
        0 <= k <= s.len(),
        byte_len(s.take(k)) == n,
    ensures
        char_boundary(s, n) == Some(k as nat),
{
    lemma_char_boundary(s, n);
    let j = char_boundary(s, n)->0 as int;
    if j < k {
        lemma_byte_len_prefix(s, j, k);
    } else if k < j {
        lemma_byte_len_prefix(s, k, j);
    }
}

/// The first `n` bytes of a text, where byte `n` lies between characters.
pub fn byte_prefix(s: &str, n: usize) -> (r: Option<String>)
    ensures
        match r {
            Some(t) => char_boundary(s@, n as nat) is Some && t@ == s@.take(
                char_boundary(s@, n as nat)->0 as int,
            ),
            None => char_boundary(s@, n as nat) is None,
        },
{
    let v = to_chars(s);
    let total = text_bytes(s);
    let mut i: usize = 0;
    let mut size: usize = 0;
    loop
        invariant
            v@ == s@,
            total == byte_len(s@),
            i <= v@.len(),
            size == byte_len(s@.take(i as int)),
            forall|k: int| 0 <= k < i ==> byte_len(#[trigger] s@.take(k)) != n,
        decreases v@.len() - i,
    {
        if size == n {
            proof {
                lemma_char_boundary_at(s@, n as nat, i as int);
                assert(v@.subrange(0, i as int) =~= s@.take(i as int));
            }
            return Some(to_text(slice_subrange(v.as_slice(), 0, i)));
        }
        if i == v.len() {
            proof {
                lemma_char_boundary(s@, n as nat);
            }
            return None;
        }
        proof {
            assert(s@.take(i as int + 1).drop_last() =~= s@.take(i as int));
            lemma_byte_len_prefix(s@, i as int + 1, s@.len() as int);
            assert(s@.take(s@.len() as int) =~= s@);
        }
        size = size + char_size(v[i]);
        i = i + 1;
    }
}

/// The decimal notation of a number, as characters.
pub fn decimal_chars(n: u64) -> (r: Vec<char>)
    ensures
        r@ == decimal(n as nat),
    decreases n,
{
    let mut v: Vec<char> = if n < 10 {
        Vec::new()
    } else {
        decimal_chars(n / 10)
    };
    let d: u8 = (n % 10) as u8;
    let c: char = (48u8 + d) as char;
    v.push(c);
    assert(c == digit((n % 10) as nat));
    v
}

/// The decimal notation of a number.
pub fn decimal_text(n: u64) -> (r: String)
    ensures
        r@ == decimal(n as nat),
{
    let v = decimal_chars(n);
    to_text(v.as_slice())
}

/// Two texts one after the other.
pub fn concat2(a: &str, b: &str) -> (r: String)
    ensures
        r@ == a@ + b@,
{
    let mut t = a.to_owned();
    t.append(b);
    t
}

/// Three texts one after the other.
pub fn concat3(a: &str, b: &str, c: &str) -> (r: String)
    ensures
        r@ == a@ + b@ + c@,
{
    let mut t = a.to_owned();
    t.append(b);
    t.append(c);
    t
}

/// The text that `str::to_lowercase` makes of a text.
pub uninterp spec fn lowercase(s: Seq<char>) -> Seq<char>;

/// The lower case of an ASCII character.
pub open spec fn ascii_lower(c: char) -> char {
    if 'A' <= c && c <= 'Z' {
        ((c as u32) + 32) as char
    } else {
        c
    }
}

/// No character of `s` lies beyond ASCII.
pub open spec fn all_ascii(s: Seq<char>) -> bool {
    forall|i: int| 0 <= i < s.len() ==> (#[trigger] s[i] as u32) < 128
}

/// `str::to_lowercase`. Its result depends on the text alone; of a text in
/// ASCII it lowers the letters `A` to `Z` and keeps the rest.
#[verifier::external_body]
pub(crate) fn to_lower(s: &str) -> (r: String)
    ensures
        r@ == lowercase(s@),
        all_ascii(s@) ==> r@ == s@.map_values(|c: char| ascii_lower(c)),
{
    s.to_lowercase()
}

/// The number of characters before byte `n`, where byte `n` lies between two
/// characters or at the end.
pub fn boundary_at(v: &[char], n: usize) -> (r: Option<usize>)
    requires
        n <= usize::MAX - 4,
    ensures
        match r {
            Some(k) => char_boundary(v@, n as nat) == Some(k as nat) && k <= v@.len(),
            None => char_boundary(v@, n as nat) is None,
        },
{
    let mut i: usize = 0;
    let mut size: usize = 0;
    loop
        invariant
            n <= usize::MAX - 4,
            i <= v@.len(),
            size == byte_len(v@.take(i as int)),
            size <= n + 4,
            forall|k: int| 0 <= k < i ==> byte_len(#[trigger] v@.take(k)) < n,
        decreases v@.len() - i,
    {
        if size == n {
            proof {
                lemma_char_boundary_at(v@, n as nat, i as int);
            }
            return Some(i);
        }
        if size > n {
            proof {
                lemma_char_boundary(v@, n as nat);
                assert forall|k: int| 0 <= k <= v@.len() implies byte_len(#[trigger] v@.take(k))
                    != n by {
                    if k >= i {
                        lemma_byte_len_prefix(v@, i as int, k);
                    }
                }
            }
            return None;
        }
        if i == v.len() {
            proof {
                lemma_char_boundary(v@, n as nat);
            }
            return None;
        }
        proof {
            assert(v@.take(i as int + 1).drop_last() =~= v@.take(i as int));
        }
        size = size + char_size(v[i]);
        i = i + 1;
    }
}

/// A number always has a digit.
pub proof fn lemma_decimal_nonempty(n: nat)
    ensures
        decimal(n).len() > 0,
{
}

/// A decimal digit.
pub open spec fn is_digit(c: char) -> bool {
    '0' <= c <= '9'
}

/// Where the digits from position `i` on end.
pub open spec fn digits_upto(t: Seq<char>, i: int) -> int
    decreases t.len() - i,
{
    if 0 <= i < t.len() && is_digit(t[i]) {
        digits_upto(t, i + 1)
    } else {
        i
    }
}

/// The number that a decimal notation stands for.
pub open spec fn number_of(t: Seq<char>) -> nat
    decreases t.len(),
{
    if t.len() == 0 {
        0
    } else {
        number_of(t.drop_last()) * 10 + (t.last() as u32 - '0' as u32) as nat
    }
}

/// The digits of a text end where the first other character stands.
pub proof fn lemma_digits_upto(t: Seq<char>, i: int, end: int)
    requires
        0 <= i <= end <= t.len(),
        forall|k: int| i <= k < end ==> is_digit(#[trigger] t[k]),
        end < t.len() ==> !is_digit(t[end]),
    ensures
        digits_upto(t, i) == end,
    decreases end - i,
{
    if i < end {
        lemma_digits_upto(t, i + 1, end);
    }
}

/// A number has a decimal notation of digits, and can be read back from it.
pub proof fn lemma_decimal_reads_back(n: nat)
    ensures
        decimal(n).len() > 0,
        forall|k: int| 0 <= k < decimal(n).len() ==> is_digit(#[trigger] decimal(n)[k]),
        number_of(decimal(n)) == n,
    decreases n,
{
    if n < 10 {
        reveal_with_fuel(number_of, 2);
        assert(decimal(n).drop_last() =~= Seq::empty());
    } else {
        lemma_decimal_reads_back(n / 10);
        assert(decimal(n).drop_last() =~= decimal(n / 10));
    }
}

/// The first line feed of a text that has one stands in it, and stays the first
/// with a text behind.
proof fn lemma_line_feed_kept(a: Seq<char>, b: Seq<char>)
    requires
        a.contains('\n'),
    ensures
        line_feed_at(a) < a.len(),
        line_feed_at(a + b) == line_feed_at(a),
    decreases a.len(),
{
    assert((a + b)[0] == a[0]);
    if a[0] != '\n' {
        let rest = a.drop_first();
        let k = choose|k: int| 0 <= k < a.len() && a[k] == '\n';
        assert(rest[k - 1] == '\n');
        lemma_line_feed_kept(rest, b);
        assert((a + b).drop_first() =~= rest + b);
    }
}

/// A text that ends with a line has the lines of both parts once another stands
/// behind it.
pub proof fn lemma_lines_join(a: Seq<char>, b: Seq<char>)
    requires
        a.len() == 0 || a.last() == '\n',
    ensures
        lines(a + b) == lines(a) + lines(b),
    decreases a.len(),
{
    if a.len() == 0 {
        assert(a + b =~= b);
        assert(lines(a) + lines(b) =~= lines(b));
    } else {
        assert(a[a.len() - 1] == '\n');
        lemma_line_feed_kept(a, b);
        let n = line_feed_at(a) as int;
        let rest = a.skip(n + 1);
        lemma_lines_join(rest, b);
        assert((a + b).take(n) =~= a.take(n));
        assert((a + b).skip(n + 1) =~= rest + b);
        assert(lines(a + b) =~= lines(a) + lines(b));
    }
}

/// White space at the end counts for nothing once it is trimmed.
pub proof fn lemma_trim_white_end(s: Seq<char>)
    requires
        s.len() > 0,
        is_white(s.last()),
    ensures
        trim(s.drop_last()) == trim(s),
    decreases s.len(),
{
    if is_white(s[0]) {
        if s.len() > 1 {
            lemma_trim_white_end(s.drop_first());
            assert(s.drop_last().drop_first() =~= s.drop_first().drop_last());
        } else {
            assert(s.drop_last() =~= s.drop_first());
        }
    }
}

/// A text has the same lines once a line feed ends the last one, but for a
/// carriage return at its end, or else one empty line more.
pub proof fn lemma_lines_ended(s: Seq<char>)
    ensures
        ({
            let ended = lines(s.push('\n'));
            let open = lines(s);
            ||| ended == open.push(Seq::<char>::empty())
            ||| open.len() > 0 && ended == open.drop_last().push(strip_return(open.last()))
        }),
    decreases s.len(),
{
    let t = s.push('\n');
    assert(t.contains('\n')) by {
        assert(t[s.len() as int] == '\n');
    }
    lemma_line_feed_kept(t, Seq::empty());
    let n = line_feed_at(s) as int;
    assert(lines(Seq::<char>::empty()) =~= Seq::<Seq<char>>::empty());
    if s.len() == 0 {
        assert(t.take(0) =~= Seq::<char>::empty());
        assert(t.skip(1) =~= Seq::<char>::empty());
        assert(lines(t) =~= lines(s).push(Seq::<char>::empty()));
    } else if s.contains('\n') {
        lemma_line_feed_kept(s, seq!['\n']);
        assert(s + seq!['\n'] =~= t);
        let rest = s.skip(n + 1);
        lemma_lines_ended(rest);
        assert(t.take(n) =~= s.take(n));
        assert(t.skip(n + 1) =~= rest.push('\n'));
        let first = seq![strip_return(s.take(n))];
        let ended = lines(rest.push('\n'));
        let open = lines(rest);
        assert(lines(t) == first + ended);
        assert(lines(s) == first + open);
        if ended == open.push(Seq::<char>::empty()) {
            assert(first + ended =~= (first + open).push(Seq::<char>::empty()));
        } else {
            assert(first + ended =~= (first + open).drop_last().push(
                strip_return((first + open).last()),
            ));
        }
    } else {
        lemma_no_line_feed(s);
        assert(t.take(s.len() as int) =~= s);
        assert(t.skip(s.len() as int + 1) =~= Seq::<char>::empty());
        assert(lines(s) == seq![s]);
        assert(lines(t) =~= seq![strip_return(s)]);
        assert(seq![s].drop_last().push(strip_return(s)) =~= seq![strip_return(s)]);
    }
}

/// Without a line feed a text ends before one is met; one put behind it is the
/// first.
proof fn lemma_no_line_feed(s: Seq<char>)
    requires
        !s.contains('\n'),
    ensures
        line_feed_at(s) == s.len(),
        line_feed_at(s.push('\n')) == s.len(),
    decreases s.len(),
{
    if s.len() > 0 {
        assert(s.contains(s[0]));
        let rest = s.drop_first();
        assert(!rest.contains('\n')) by {
            if rest.contains('\n') {
                let k = choose|k: int| 0 <= k < rest.len() && rest[k] == '\n';
                assert(s[k + 1] == '\n');
            }
        }
        lemma_no_line_feed(rest);
        assert(s.push('\n').drop_first() =~= rest.push('\n'));
    }
}

/// Of the first 128 characters, the space and those from tab to carriage return are
/// white space, and no others; the sets of one character hold just that.
pub proof fn law_white_space(c: char)
    ensures
        (c as u32) < 128 ==> (is_white(c) <==> c == ' ' || '\t' <= c <= '\r'),
        is_white('\u{a0}') && is_white('\u{3000}') && is_white('\u{2028}'),
        in_class(CharClass::White, c) == is_white(c),
        in_class(CharClass::Hash, c) == (c == '#'),
        in_class(CharClass::Dash, c) == (c == '-'),
        in_class(CharClass::Underscore, c) == (c == '_'),
{
}

proof fn lemma_drop_trailing(s: Seq<char>, k: CharClass)
    ensures
        drop_trailing(s, k).len() <= s.len(),
        drop_trailing(s, k) == s.take(drop_trailing(s, k).len() as int),
        drop_trailing(s, k).len() > 0 ==> !in_class(k, drop_trailing(s, k).last()),
        forall|i: int| drop_trailing(s, k).len() <= i < s.len() ==> in_class(k, #[trigger] s[i]),
    decreases s.len(),
{
    if s.len() > 0 && in_class(k, s.last()) {
        lemma_drop_trailing(s.drop_last(), k);
        let t = drop_trailing(s, k);
        assert(s.drop_last().take(t.len() as int) =~= s.take(t.len() as int));
        assert forall|i: int| t.len() <= i < s.len() implies in_class(k, #[trigger] s[i]) by {
            if i < s.len() - 1 {
                assert(s.drop_last()[i] == s[i]);
            }
        }
    } else {
        assert(s.take(s.len() as int) =~= s);
    }
}

proof fn lemma_dropped_leading(s: Seq<char>, k: CharClass)
    ensures
        forall|i: int| 0 <= i < s.len() - drop_leading(s, k).len() ==> in_class(k, #[trigger] s[i]),
    decreases s.len(),
{
    lemma_drop_leading(s, k);
    if s.len() > 0 && in_class(k, s[0]) {
        lemma_dropped_leading(s.drop_first(), k);
        let t = drop_leading(s, k);
        assert forall|i: int| 0 <= i < s.len() - t.len() implies in_class(k, #[trigger] s[i]) by {
            if i > 0 {
                assert(s.drop_first()[i - 1] == s[i]);
            }
        }
    }
}

/// What stands at the start or at the end of a text is dropped as long as it is in
/// the set: the dropped part is in the set, and what is left neither begins nor,
/// in the other case, ends with a character of it.
pub proof fn law_ends_are_dropped(s: Seq<char>, k: CharClass)
    ensures
        ({
            let n = s.len() - drop_leading(s, k).len();
            &&& 0 <= n <= s.len()
            &&& drop_leading(s, k) == s.skip(n)
            &&& forall|i: int| 0 <= i < n ==> in_class(k, #[trigger] s[i])
            &&& n < s.len() ==> !in_class(k, s[n])
        }),
        ({
            let n = drop_trailing(s, k).len() as int;
            &&& 0 <= n <= s.len()
            &&& drop_trailing(s, k) == s.take(n)
            &&& forall|i: int| n <= i < s.len() ==> in_class(k, #[trigger] s[i])
            &&& n > 0 ==> !in_class(k, s[n - 1])
        }),
{
    lemma_drop_leading(s, k);
    lemma_dropped_leading(s, k);
    lemma_drop_trailing(s, k);
}

/// A text is its trimmed part with white space around it, and the trimmed part
/// neither begins nor ends with white space.
pub proof fn law_trim_takes_white_space_only(s: Seq<char>)
    ensures
        exists|i: int, j: int|
            {
                &&& 0 <= i <= j <= s.len()
                &&& trim(s) == #[trigger] s.subrange(i, j)
                &&& forall|k: int| 0 <= k < i || j <= k < s.len() ==> is_white(#[trigger] s[k])
            },
        trim(s).len() > 0 ==> !is_white(trim(s)[0]) && !is_white(trim(s).last()),
{
    let k = CharClass::White;
    law_ends_are_dropped(s, k);
    let t = drop_leading(s, k);
    law_ends_are_dropped(t, k);
    let i = s.len() - t.len();
    let j = i + trim(s).len();
    assert(trim(s) =~= s.subrange(i, j));
    assert forall|n: int| 0 <= n < i || j <= n < s.len() implies is_white(#[trigger] s[n]) by {
        if n >= j {
            assert(t[n - i] == s[n]);
            assert(in_class(k, t[n - i]));
        } else {
            assert(in_class(k, s[n]));
        }
    }
    if trim(s).len() > 0 {
        assert(trim(s)[0] == t[0]);
    }
}

/// A text that is not empty and neither begins nor ends with white space stays as
/// it is.
pub proof fn law_trimmed_stays(s: Seq<char>)
    requires
        s.len() > 0 ==> !is_white(s[0]) && !is_white(s.last()),
    ensures
        trim(s) == s,
{
}

/// A text without white space is one word, unless it is empty.
pub proof fn law_one_word(s: Seq<char>)
    requires
        forall|i: int| 0 <= i < s.len() ==> !is_white(#[trigger] s[i]),
    ensures
        s.len() > 0 ==> words(s) == seq![s],
        s.len() == 0 ==> words(s).len() == 0,
{
    if s.len() > 0 {
        lemma_word_len(s);
        assert(!is_white(s[0]));
        assert(word_len(s) == s.len());
        assert(s.take(s.len() as int) =~= s);
        assert(s.skip(s.len() as int) =~= Seq::<char>::empty());
        assert(words(Seq::<char>::empty()) =~= Seq::<Seq<char>>::empty());
        assert(words(s) =~= seq![s]);
    }
}

/// White space parts words: a text with white space in it has the words before it
/// and those behind it.
pub proof fn law_white_space_parts_words(a: Seq<char>, w: char, b: Seq<char>)
    requires
        is_white(w),
    ensures
        words(a.push(w) + b) == words(a) + words(b),
    decreases a.len(),
{
    let s = a.push(w) + b;
    if a.len() == 0 {
        assert(s[0] == w);
        assert(s.drop_first() =~= b);
        assert(drop_leading(s, CharClass::White) == drop_leading(b, CharClass::White));
        assert(words(s) =~= words(b));
        assert(words(a) =~= Seq::<Seq<char>>::empty());
        assert(words(a) + words(b) =~= words(b));
    } else if is_white(a[0]) {
        let rest = a.drop_first();
        law_white_space_parts_words(rest, w, b);
        assert(s[0] == a[0]);
        assert(s.drop_first() =~= rest.push(w) + b);
        assert(words(s) == words(rest.push(w) + b));
        assert(words(a) == words(rest));
    } else {
        assert(s[0] == a[0]);
        lemma_word_len(a);
        let n = word_len(a) as int;
        lemma_word_len_kept(a, w, b);
        assert(s.take(n) =~= a.take(n));
        let rest = a.skip(n);
        law_white_space_parts_words(rest, w, b);
        assert(s.skip(n) =~= rest.push(w) + b);
        assert(words(s) == seq![a.take(n)] + words(rest.push(w) + b));
        assert(words(a) == seq![a.take(n)] + words(rest));
        assert(words(s) =~= words(a) + words(b));
    }
}

proof fn lemma_word_len_kept(a: Seq<char>, w: char, b: Seq<char>)
    requires
        is_white(w),
    ensures
        word_len(a.push(w) + b) == word_len(a),
    decreases a.len(),
{
    let s = a.push(w) + b;
    if a.len() == 0 {
        assert(s[0] == w);
    } else {
        assert(s[0] == a[0]);
        if !is_white(a[0]) {
            assert(s.drop_first() =~= a.drop_first().push(w) + b);
            lemma_word_len_kept(a.drop_first(), w, b);
        }
    }
}

/// A line feed ends a line, which keeps neither it nor a carriage return before
/// it; what is behind the last line feed is a line of its own, unless it is empty.
/// The lines of a text that ends with a line feed come before those of what is
/// added to it.
pub proof fn law_lines_end_with_line_feeds(line: Seq<char>, rest: Seq<char>)
    requires
        !line.contains('\n'),
    ensures
        line.len() > 0 ==> lines(line) == seq![line],
        lines(Seq::<char>::empty()).len() == 0,
        lines(line.push('\n') + rest) == seq![
            if line.len() > 0 && line.last() == '\r' {
                line.drop_last()
            } else {
                line
            },
        ] + lines(rest),
{
    lemma_no_line_feed(line);
    let ended = line.push('\n');
    assert(ended.take(line.len() as int) =~= line);
    assert(ended.skip(line.len() as int + 1) =~= Seq::<char>::empty());
    assert(lines(Seq::<char>::empty()) =~= Seq::<Seq<char>>::empty());
    assert(lines(ended) =~= seq![strip_return(line)]);
    lemma_lines_join(ended, rest);
}

/// The place that is found for a part is the first one at which it stands.
pub proof fn law_find_is_first(before: Seq<char>, p: Seq<char>, after: Seq<char>)
    ensures
        ({
            let s = before + p + after;
            &&& find(s, p) matches Some(i) && 0 <= i <= before.len() && s.subrange(i, i + p.len())
                == p
            &&& forall|i: int|
                0 <= i < find(s, p)->0 ==> #[trigger] s.subrange(i, i + p.len()) != p
        }),
{
    let s = before + p + after;
    let n = before.len() as int;
    assert(s.subrange(n, n + p.len()) =~= p);
    assert(occurs_at(s, p, n));
    lemma_find_from(s, p, 0);
    let j = find(s, p)->0;
    assert forall|i: int| 0 <= i < j implies #[trigger] s.subrange(i, i + p.len()) != p by {
        assert(!occurs_at(s, p, i));
    }
}

/// A part stands in a text if and only if the text is made of something, the part
/// and something else; it begins the text if nothing comes before it, and ends it
/// if nothing comes behind.
pub proof fn law_contains_is_made_of(s: Seq<char>, p: Seq<char>)
    ensures
        contains(s, p) <==> exists|a: Seq<char>, b: Seq<char>| s == #[trigger] (a + p + b),
        starts_with(s, p) <==> exists|b: Seq<char>| s == #[trigger] (p + b),
        ends_with(s, p) <==> exists|a: Seq<char>| s == #[trigger] (a + p),
        find(s, p) is None <==> !contains(s, p),
{
    lemma_find_from(s, p, 0);
    if let Some(i) = find(s, p) {
        assert(occurs_at(s, p, i));
    }
    if contains(s, p) {
        let i = choose|i: int| occurs_at(s, p, i);
        lemma_parts_at(s, p, i);
    }
    if exists|a: Seq<char>, b: Seq<char>| s == #[trigger] (a + p + b) {
        let (a, b) = choose|a: Seq<char>, b: Seq<char>| s == #[trigger] (a + p + b);
        let i = a.len() as int;
        assert(s.subrange(i, i + p.len()) =~= p);
        assert(occurs_at(s, p, i));
    }
    if starts_with(s, p) {
        lemma_parts_at(s, p, 0);
        assert(s =~= p + s.skip(p.len() as int));
    }
    if exists|b: Seq<char>| s == #[trigger] (p + b) {
        let b = choose|b: Seq<char>| s == #[trigger] (p + b);
        assert(s.subrange(0, p.len() as int) =~= p);
    }
    if ends_with(s, p) {
        lemma_parts_at(s, p, s.len() - p.len());
        assert(s =~= s.take(s.len() - p.len()) + p);
    }
    if exists|a: Seq<char>| s == #[trigger] (a + p) {
        let a = choose|a: Seq<char>| s == #[trigger] (a + p);
        assert(s.subrange(s.len() - p.len(), s.len() as int) =~= p);
    }
}

proof fn lemma_parts_at(s: Seq<char>, p: Seq<char>, i: int)
    requires
        occurs_at(s, p, i),
    ensures
        s == s.take(i) + p + s.skip(i + p.len()),
{
    assert forall|k: int| 0 <= k < s.len() implies s[k] == (s.take(i) + p + s.skip(
        i + p.len(),
    ))[k] by {
        if i <= k < i + p.len() {
            assert(s.subrange(i, i + p.len())[k - i] == s[k]);
        }
    }
    assert(s =~= s.take(i) + p + s.skip(i + p.len()));
}

/// Replacing one character by another goes through the text place by place.
pub proof fn law_replace_character(s: Seq<char>, p: Seq<char>, r: Seq<char>)
    requires
        p.len() == 1,
        r.len() == 1,
    ensures
        replace(s, p, r).len() == s.len(),
        forall|i: int|
            0 <= i < s.len() ==> #[trigger] replace(s, p, r)[i] == if s[i] == p[0] {
                r[0]
            } else {
                s[i]
            },
    decreases s.len(),
{
    lemma_find_from(s, p, 0);
    match find(s, p) {
        Some(i) => {
            let rest = s.skip(i + 1);
            law_replace_character(rest, p, r);
            assert(s.subrange(i, i + 1)[0] == s[i]);
            let whole = s.take(i) + r + replace(rest, p, r);
            assert(replace(s, p, r) == whole);
            assert forall|k: int| 0 <= k < s.len() implies #[trigger] whole[k] == if s[k] == p[0] {
                r[0]
            } else {
                s[k]
            } by {
                if k < i {
                    assert(!occurs_at(s, p, k));
                    if s[k] == p[0] {
                        assert(s.subrange(k, k + 1) =~= p);
                    }
                } else if k > i {
                    assert(rest[k - i - 1] == s[k]);
                }
            }
        },
        None => {
            assert forall|k: int| 0 <= k < s.len() implies s[k] != p[0] by {
                assert(!occurs_at(s, p, k));
                if s[k] == p[0] {
                    assert(s.subrange(k, k + 1) =~= p);
                }
            }
        },
    }
}

/// The first place of a part is replaced, and then what is behind it; a text
/// without the part stays as it is.
pub proof fn law_replace_goes_on_behind(before: Seq<char>, p: Seq<char>, after: Seq<char>, r: Seq<char>)
    requires
        p.len() > 0,
    ensures
        find(before + p + after, p) == Some(before.len() as int) ==> replace(
            before + p + after,
            p,
            r,
        ) == before + r + replace(after, p, r),
        !contains(before, p) ==> replace(before, p, r) == before,
{
    let s = before + p + after;
    let n = before.len() as int;
    assert(s.take(n) =~= before);
    assert(s.skip(n + p.len()) =~= after);
    law_contains_is_made_of(before, p);
}

/// Joined texts stand in their order with the separator between them, and nothing
/// else.
pub proof fn law_join_puts_between(parts: Seq<Seq<char>>, last: Seq<char>, sep: Seq<char>)
    ensures
        join(Seq::<Seq<char>>::empty(), sep).len() == 0,
        join(seq![last], sep) == last,
        parts.len() > 0 ==> join(parts.push(last), sep) == join(parts, sep) + sep + last,
{
    assert(parts.push(last).drop_last() =~= parts);
}

/// The decimal notation of a number is made of digits, reads back as the number,
/// and has no zero in front but for zero itself.
pub proof fn law_decimal_notation(n: nat)
    ensures
        decimal(n).len() > 0,
        forall|k: int| 0 <= k < decimal(n).len() ==> '0' <= #[trigger] decimal(n)[k] <= '9',
        n < 10 ==> decimal(n) == seq![(48 + n) as u8 as char],
        n >= 10 ==> decimal(n) == decimal(n / 10) + decimal(n % 10),
{
    lemma_decimal_reads_back(n);
    assert forall|k: int| 0 <= k < decimal(n).len() implies '0' <= #[trigger] decimal(n)[k]
        <= '9' by {
        assert(is_digit(decimal(n)[k]));
    }
    if n >= 10 {
        assert(decimal(n) =~= decimal(n / 10) + decimal(n % 10));
    } else {
        assert(decimal(n) =~= seq![(48 + n) as u8 as char]);
    }
}

} // verus!
