//! Passage between `str`, `String` and character vectors, and the case
//! mappings: ASCII text is folded here, any other text by the standard
//! library.

use vstd::prelude::*;

verus! {

/// `String::push` of the standard library: the string afterwards is the
/// string before with `c` at its end.
pub assume_specification[ String::push ](s: &mut String, c: char)
    ensures
        final(s)@ == old(s)@.push(c),
;

/// What `str::to_lowercase` gives for a text. The mapping follows the
/// Unicode case tables and is not spelled out here.
pub uninterp spec fn unicode_lowercase(s: Seq<char>) -> Seq<char>;

/// What `str::to_uppercase` gives for a text. The mapping follows the
/// Unicode case tables and is not spelled out here.
pub uninterp spec fn unicode_uppercase(s: Seq<char>) -> Seq<char>;

/// `str::to_lowercase` of the standard library: the result is a function of
/// the characters of `s` alone, called `unicode_lowercase` in contracts.
pub assume_specification[ str::to_lowercase ](s: &str) -> (r: String)
    ensures
        r@ == unicode_lowercase(s@),
;

/// `str::to_uppercase` of the standard library: the result is a function of
/// the characters of `s` alone, called `unicode_uppercase` in contracts.
pub assume_specification[ str::to_uppercase ](s: &str) -> (r: String)
    ensures
        r@ == unicode_uppercase(s@),
;

/// Whether every character of `s` is an ASCII character.
pub open spec fn is_ascii_text(s: Seq<char>) -> bool {
    forall|i: int| 0 <= i < s.len() ==> #[trigger] s[i] <= '\u{7f}'
}

/// An ASCII capital as its small letter; any other character as it is.
pub open spec fn lower_char(c: char) -> char {
    if 'A' <= c <= 'Z' {
        (c as int + 32) as char
    } else {
        c
    }
}

/// An ASCII small letter as its capital; any other character as it is.
pub open spec fn upper_char(c: char) -> char {
    if 'a' <= c <= 'z' {
        (c as int - 32) as char
    } else {
        c
    }
}

/// The lower-case form of a text: for ASCII text, the text with its
/// capitals as small letters; for any other text, what the Unicode case
/// tables give.
pub open spec fn lowercase(s: Seq<char>) -> Seq<char> {
    if is_ascii_text(s) {
        Seq::new(s.len(), |i: int| lower_char(s[i]))
    } else {
        unicode_lowercase(s)
    }
}

/// The upper-case form of a text: for ASCII text, the text with its small
/// letters as capitals; for any other text, what the Unicode case tables
/// give.
pub open spec fn uppercase(s: Seq<char>) -> Seq<char> {
    if is_ascii_text(s) {
        Seq::new(s.len(), |i: int| upper_char(s[i]))
    } else {
        unicode_uppercase(s)
    }
}

/// Tells whether every character of `s` is an ASCII character.
pub fn is_ascii(s: &[char]) -> (r: bool)
    ensures
        r == is_ascii_text(s@),
{
    let mut i: usize = 0;
    while i < s.len()
        invariant
            i <= s.len(),
            forall|j: int| 0 <= j < i ==> #[trigger] s@[j] <= '\u{7f}',
        decreases s.len() - i,
    {
        if !ascii_char(s[i]) {
            return false;
        }
        i += 1;
    }
    true
}

/// Tells whether `c` is an ASCII character.
fn ascii_char(c: char) -> (r: bool)
    ensures
        r == (c <= '\u{7f}'),
{
    let n: u32 = c as u32;
    n <= 127
}

/// An ASCII character in lower case.
fn to_lower_char(c: char) -> (r: char)
    requires
        c <= '\u{7f}',
    ensures
        r == lower_char(c),
{
    let n: u32 = c as u32;
    if 65 <= n && n <= 90 {
        let m: u8 = (n + 32) as u8;
        m as char
    } else {
        c
    }
}

/// An ASCII character in upper case.
fn to_upper_char(c: char) -> (r: char)
    requires
        c <= '\u{7f}',
    ensures
        r == upper_char(c),
{
    let n: u32 = c as u32;
    if 97 <= n && n <= 122 {
        let m: u8 = (n - 32) as u8;
        m as char
    } else {
        c
    }
}

/// The characters of `s`, in order.
pub fn chars_of(s: &str) -> (out: Vec<char>)
    ensures
        out@ == s@,
{
    let mut out: Vec<char> = Vec::new();
    for c in it: s.chars()
        invariant
            out@ == it.seq().take(it.index() as int),
            it.seq() == s@,
    {
        out.push(c);
    }
    out
}

/// A string of the characters of `chars`, in order.
pub fn string_of(chars: &[char]) -> (out: String)
    ensures
        out@ == chars@,
{
    let mut out = String::new();
    let mut i: usize = 0;
    while i < chars.len()
        invariant
            i <= chars.len(),
            out@ == chars@.take(i as int),
        decreases chars.len() - i,
    {
        out.push(chars[i]);
        i += 1;
    }
    out
}

/// The lower-case form of `s`.
pub fn lower(s: &[char]) -> (out: Vec<char>)
    ensures
        out@ == lowercase(s@),
{
    if !is_ascii(s) {
        let text = string_of(s);
        let mapped = text.as_str().to_lowercase();
        return chars_of(mapped.as_str());
    }
    let mut out: Vec<char> = Vec::new();
    let mut i: usize = 0;
    while i < s.len()
        invariant
            i <= s.len(),
            is_ascii_text(s@),
            out.len() == i,
            forall|j: int| 0 <= j < i ==> #[trigger] out@[j] == lower_char(s@[j]),
        decreases s.len() - i,
    {
        out.push(to_lower_char(s[i]));
        i += 1;
    }
    proof {
        assert(out@ =~= lowercase(s@));
    }
    out
}

/// The upper-case form of `s`.
pub fn upper(s: &[char]) -> (out: Vec<char>)
    ensures
        out@ == uppercase(s@),
{
    if !is_ascii(s) {
        let text = string_of(s);
        let mapped = text.as_str().to_uppercase();
        return chars_of(mapped.as_str());
    }
    let mut out: Vec<char> = Vec::new();
    let mut i: usize = 0;
    while i < s.len()
        invariant
            i <= s.len(),
            is_ascii_text(s@),
            out.len() == i,
            forall|j: int| 0 <= j < i ==> #[trigger] out@[j] == upper_char(s@[j]),
        decreases s.len() - i,
    {
        out.push(to_upper_char(s[i]));
        i += 1;
    }
    proof {
        assert(out@ =~= uppercase(s@));
    }
    out
}

/// The lower-case form of a text.
pub fn lower_str(s: &str) -> (out: Vec<char>)
    ensures
        out@ == lowercase(s@),
{
    let chars = chars_of(s);
    lower(chars.as_slice())
}

/// Whether `s` holds exactly the characters of `word`.
pub fn is_word(s: &[char], word: &str) -> (r: bool)
    ensures
        r == (s@ == word@),
{
    let w = chars_of(word);
    crate::text::same(s, w.as_slice())
}

/// Whether `s` begins with the characters of `word`.
pub fn begins_with(s: &[char], word: &str) -> (r: bool)
    ensures
        r == word@.is_prefix_of(s@),
{
    let w = chars_of(word);
    crate::text::starts_with(s, w.as_slice())
}

/// Appends the text of `s` to `out`.
pub fn push_str(out: &mut Vec<char>, s: &str)
    ensures
        final(out)@ == old(out)@ + s@,
{
    let tail = chars_of(s);
    crate::text::append(out, tail.as_slice());
}

/// The text of `prefix` followed by the characters of `tail`.
pub fn tagged(prefix: &str, tail: &[char]) -> (out: String)
    ensures
        out@ == prefix@ + tail@,
{
    let mut chars = chars_of(prefix);
    crate::text::append(&mut chars, tail);
    string_of(chars.as_slice())
}

/// The texts that a sequence of strings holds.
pub open spec fn strings_view(v: Seq<String>) -> Seq<Seq<char>> {
    Seq::new(v.len(), |i: int| v[i]@)
}

/// The text that an optional string holds.
pub open spec fn opt_view(o: Option<String>) -> Option<Seq<char>> {
    match o {
        Some(s) => Some(s@),
        None => None,
    }
}

/// Whether two texts hold the same characters.
pub fn str_eq(a: &str, b: &str) -> (r: bool)
    ensures
        r == (a@ == b@),
{
    let x = chars_of(a);
    let y = chars_of(b);
    crate::text::same(x.as_slice(), y.as_slice())
}

/// Whether a text holds nothing but white space.
pub fn str_blank(s: &str) -> (r: bool)
    ensures
        r == (crate::text::trimmed(s@).len() == 0),
{
    let x = chars_of(s);
    crate::text::trim(x.as_slice()).len() == 0
}

/// The text of `a` followed by the text of `b`.
pub fn join2(a: &str, b: &str) -> (out: String)
    ensures
        out@ == a@ + b@,
{
    let mut chars = chars_of(a);
    let tail = chars_of(b);
    crate::text::append(&mut chars, tail.as_slice());
    string_of(chars.as_slice())
}

} // verus!
