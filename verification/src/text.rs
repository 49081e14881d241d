//! Text building blocks: decimal and hexadecimal rendering, substring search
//! and the small parsers that the record-keeping modules share.

use vstd::prelude::*;

verus! {

/// The text of one decimal digit.
pub open spec fn digit_text(d: nat) -> Seq<char> {
    if d == 0 {
        "0"@
    } else if d == 1 {
        "1"@
    } else if d == 2 {
        "2"@
    } else if d == 3 {
        "3"@
    } else if d == 4 {
        "4"@
    } else if d == 5 {
        "5"@
    } else if d == 6 {
        "6"@
    } else if d == 7 {
        "7"@
    } else if d == 8 {
        "8"@
    } else {
        "9"@
    }
}

/// The decimal rendering of a natural number, without leading zeros.
pub open spec fn decimal(n: nat) -> Seq<char>
    decreases n,
{
    if n < 10 {
        digit_text(n)
    } else {
        decimal(n / 10) + digit_text(n % 10)
    }
}

/// The string slice of one decimal digit.
pub fn digit_str(d: u64) -> (s: &'static str)
    requires
        d < 10,
    ensures
        s@ == digit_text(d as nat),
{
    if d == 0 {
        "0"
    } else if d == 1 {
        "1"
    } else if d == 2 {
        "2"
    } else if d == 3 {
        "3"
    } else if d == 4 {
        "4"
    } else if d == 5 {
        "5"
    } else if d == 6 {
        "6"
    } else if d == 7 {
        "7"
    } else if d == 8 {
        "8"
    } else {
        "9"
    }
}

/// Appends the decimal rendering of `n` to `out`.
pub fn push_decimal(out: &mut String, n: u64)
    ensures
        final(out)@ == old(out)@ + decimal(n as nat),
    decreases n,
{
    if n >= 10 {
        push_decimal(out, n / 10);
    }
    out.append(digit_str(n % 10));
}

/// Whether two byte slices hold the same bytes.
pub fn bytes_equal(a: &[u8], b: &[u8]) -> (equal: bool)
    ensures
        equal == (a@ == b@),
{
    if a.len() != b.len() {
        return false;
    }
    let mut i: usize = 0;
    while i < a.len()
        invariant
            a@.len() == b@.len(),
            i <= a@.len(),
            forall|j: int| 0 <= j < i ==> a@[j] == b@[j],
        decreases a@.len() - i,
    {
        if a[i] != b[i] {
            return false;
        }
        i += 1;
    }
    assert(a@ =~= b@);
    true
}

/// Whether two string slices hold the same text.
pub fn same_text(a: &str, b: &str) -> (equal: bool)
    ensures
        equal == (a@ == b@),
{
    let equal = bytes_equal(a.as_bytes(), b.as_bytes());
    proof {
        vstd::utf8::encode_utf8_decode_utf8(a@);
        vstd::utf8::encode_utf8_decode_utf8(b@);
    }
    equal
}

/// The characters of a string slice, one by one.
pub fn chars_of(s: &str) -> (chars: Vec<char>)
    ensures
        chars@ == s@,
{
    let n = s.unicode_len();
    let mut chars: Vec<char> = Vec::new();
    let mut i: usize = 0;
    while i < n
        invariant
            n == s@.len(),
            i <= n,
            chars@ == s@.subrange(0, i as int),
        decreases n - i,
    {
        chars.push(s.get_char(i));
        assert(chars@ =~= s@.subrange(0, i + 1));
        i += 1;
    }
    assert(chars@ =~= s@);
    chars
}

/// Calls `String::push`, which appends one character to the string.
#[verifier::external_body]
pub(crate) fn push_char(out: &mut String, c: char)
    ensures
        final(out)@ == old(out)@.push(c),
{
    out.push(c)
}

/// The text that a slice of characters spells.
pub fn text_of(chars: &[char]) -> (text: String)
    ensures
        text@ == chars@,
{
    let mut text = String::new();
    let mut i: usize = 0;
    while i < chars.len()
        invariant
            i <= chars@.len(),
            text@ == chars@.subrange(0, i as int),
        decreases chars@.len() - i,
    {
        push_char(&mut text, chars[i]);
        assert(text@ =~= chars@.subrange(0, i + 1));
        i += 1;
    }
    assert(text@ =~= chars@);
    text
}

/// The text of the characters from `from` up to `to`.
pub fn text_between(chars: &[char], from: usize, to: usize) -> (text: String)
    requires
        from <= to <= chars@.len(),
    ensures
        text@ == chars@.subrange(from as int, to as int),
{
    let mut text = String::new();
    let mut i: usize = from;
    while i < to
        invariant
            from <= i <= to <= chars@.len(),
            text@ == chars@.subrange(from as int, i as int),
        decreases to - i,
    {
        push_char(&mut text, chars[i]);
        assert(text@ =~= chars@.subrange(from as int, i + 1));
        i += 1;
    }
    text
}

/// Whether `needle` stands in `hay` at position `at`.
pub open spec fn occurs_at(hay: Seq<char>, needle: Seq<char>, at: int) -> bool {
    0 <= at && at + needle.len() <= hay.len() && hay.subrange(at, at + needle.len()) == needle
}

/// Whether `needle` stands somewhere in `hay`. The empty text stands in
/// every text.
pub open spec fn is_substring(needle: Seq<char>, hay: Seq<char>) -> bool {
    exists|at: int| occurs_at(hay, needle, at)
}

/// Whether `text` begins with `prefix`.
pub open spec fn has_prefix(text: Seq<char>, prefix: Seq<char>) -> bool {
    occurs_at(text, prefix, 0)
}

/// Whether `text` ends with `suffix`.
pub open spec fn has_suffix(text: Seq<char>, suffix: Seq<char>) -> bool {
    occurs_at(text, suffix, text.len() - suffix.len())
}

/// Whether `needle` stands in `hay` at position `at`.
pub fn matches_at(hay: &[char], needle: &[char], at: usize) -> (found: bool)
    ensures
        found == occurs_at(hay@, needle@, at as int),
{
    if needle.len() > hay.len() || at > hay.len() - needle.len() {
        return false;
    }
    let mut j: usize = 0;
    while j < needle.len()
        invariant
            at + needle@.len() <= hay@.len(),
            hay@.len() == hay.len(),
            j <= needle@.len(),
            forall|k: int| 0 <= k < j ==> hay@[at + k] == needle@[k],
        decreases needle@.len() - j,
    {
        if hay[at + j] != needle[j] {
            assert(hay@.subrange(at as int, at + needle@.len())[j as int] == hay@[at + j]);
            return false;
        }
        j += 1;
    }
    assert(hay@.subrange(at as int, at + needle@.len()) =~= needle@);
    true
}

/// Whether `needle` stands somewhere in `hay`.
pub fn chars_contain(hay: &[char], needle: &[char]) -> (found: bool)
    ensures
        found == is_substring(needle@, hay@),
{
    if needle.len() > hay.len() {
        return false;
    }
    let last: usize = hay.len() - needle.len();
    let mut at: usize = 0;
    loop
        invariant
            last == hay@.len() - needle@.len(),
            at <= last,
            forall|k: int| 0 <= k < at ==> !occurs_at(hay@, needle@, k),
        decreases last - at,
    {
        if matches_at(hay, needle, at) {
            return true;
        }
        if at == last {
            return false;
        }
        at += 1;
    }
}

/// Whether `needle` stands somewhere in `hay`.
pub fn contains(hay: &str, needle: &str) -> (found: bool)
    ensures
        found == is_substring(needle@, hay@),
{
    let hay_chars = chars_of(hay);
    let needle_chars = chars_of(needle);
    chars_contain(hay_chars.as_slice(), needle_chars.as_slice())
}

/// Whether `text` begins with `prefix`.
pub fn starts_with(text: &str, prefix: &str) -> (found: bool)
    ensures
        found == has_prefix(text@, prefix@),
{
    let text_chars = chars_of(text);
    let prefix_chars = chars_of(prefix);
    matches_at(text_chars.as_slice(), prefix_chars.as_slice(), 0)
}

/// Whether `text` ends with `suffix`.
pub fn ends_with(text: &str, suffix: &str) -> (found: bool)
    ensures
        found == has_suffix(text@, suffix@),
{
    let text_chars = chars_of(text);
    let suffix_chars = chars_of(suffix);
    if suffix_chars.len() > text_chars.len() {
        return false;
    }
    matches_at(text_chars.as_slice(), suffix_chars.as_slice(), text_chars.len() - suffix_chars.len())
}

/// The texts of a sequence of strings.
pub open spec fn texts(strings: Seq<String>) -> Seq<Seq<char>> {
    strings.map_values(|s: String| s@)
}

/// Whether one of the strings holds the text of `wanted`.
pub fn strings_contain(strings: &[String], wanted: &str) -> (found: bool)
    ensures
        found == texts(strings@).contains(wanted@),
{
    let mut i: usize = 0;
    while i < strings.len()
        invariant
            i <= strings@.len(),
            forall|j: int| 0 <= j < i ==> texts(strings@)[j] != wanted@,
        decreases strings@.len() - i,
    {
        if same_text(strings[i].as_str(), wanted) {
            assert(texts(strings@)[i as int] == wanted@);
            return true;
        }
        i += 1;
    }
    false
}

/// Whether two lists of strings hold the same texts in the same order.
pub fn strings_equal(a: &[String], b: &[String]) -> (equal: bool)
    ensures
        equal == (texts(a@) == texts(b@)),
{
    if a.len() != b.len() {
        assert(texts(a@).len() != texts(b@).len());
        return false;
    }
    let mut i: usize = 0;
    while i < a.len()
        invariant
            a@.len() == b@.len(),
            i <= a@.len(),
            forall|j: int| 0 <= j < i ==> texts(a@)[j] == texts(b@)[j],
        decreases a@.len() - i,
    {
        if !same_text(a[i].as_str(), b[i].as_str()) {
            assert(texts(a@)[i as int] != texts(b@)[i as int]);
            return false;
        }
        i += 1;
    }
    assert(texts(a@) =~= texts(b@));
    true
}

/// A copy of a list of strings.
pub fn clone_strings(strings: &[String]) -> (copy: Vec<String>)
    ensures
        copy@ == strings@,
{
    let mut copy: Vec<String> = Vec::new();
    let mut i: usize = 0;
    while i < strings.len()
        invariant
            i <= strings@.len(),
            copy@ == strings@.subrange(0, i as int),
        decreases strings@.len() - i,
    {
        copy.push(strings[i].clone());
        assert(copy@ =~= strings@.subrange(0, i + 1));
        i += 1;
    }
    assert(copy@ =~= strings@);
    copy
}

/// The position of the first `c` in `text`, or the length of `text` where
/// there is none.
pub open spec fn first_index(text: Seq<char>, c: char) -> int
    decreases text.len(),
{
    if text.len() == 0 {
        0
    } else if text[0] == c {
        0
    } else {
        1 + first_index(text.skip(1), c)
    }
}

/// `first_index` finds the first occurrence, and only that.
pub proof fn lemma_first_index(text: Seq<char>, c: char)
    ensures
        0 <= first_index(text, c) <= text.len(),
        first_index(text, c) < text.len() ==> text[first_index(text, c)] == c,
        forall|i: int| 0 <= i < first_index(text, c) ==> text[i] != c,
    decreases text.len(),
{
    if text.len() > 0 && text[0] != c {
        lemma_first_index(text.skip(1), c);
        assert forall|i: int| 0 <= i < first_index(text, c) implies text[i] != c by {
            if i > 0 {
                assert(text.skip(1)[i - 1] == text[i]);
            }
        }
    }
}

/// A position that holds `c` after a stretch without `c` is the first
/// index; a text without `c` has its length as first index.
pub proof fn lemma_first_index_is(text: Seq<char>, c: char, at: int)
    requires
        0 <= at <= text.len(),
        forall|i: int| 0 <= i < at ==> text[i] != c,
        at < text.len() ==> text[at] == c,
    ensures
        first_index(text, c) == at,
{
    lemma_first_index(text, c);
}

/// The pieces of `text` between occurrences of `sep`. A text without `sep`
/// is one piece; a text that ends with `sep` has an empty last piece.
pub open spec fn split_on(text: Seq<char>, sep: char) -> Seq<Seq<char>>
    decreases text.len(),
{
    let at = first_index(text, sep);
    if 0 <= at < text.len() {
        seq![text.take(at)] + split_on(text.skip(at + 1), sep)
    } else {
        seq![text]
    }
}

/// Splits `text` at every `sep`.
pub fn split_chars(text: &[char], sep: char) -> (pieces: Vec<String>)
    ensures
        texts(pieces@) == split_on(text@, sep),
{
    let mut pieces: Vec<String> = Vec::new();
    let mut start: usize = 0;
    let mut i: usize = 0;
    assert(text@.skip(0) =~= text@);
    while i < text.len()
        invariant
            start <= i <= text@.len(),
            forall|k: int| start <= k < i ==> text@[k] != sep,
            split_on(text@, sep) == texts(pieces@) + split_on(text@.skip(start as int), sep),
        decreases text@.len() - i,
    {
        if text[i] == sep {
            let piece = text_between(text, start, i);
            proof {
                let rest = text@.skip(start as int);
                assert forall|k: int| 0 <= k < i - start implies rest[k] != sep by {
                    assert(rest[k] == text@[start + k]);
                }
                lemma_first_index_is(rest, sep, i - start);
                assert(rest.take(i - start) =~= text@.subrange(start as int, i as int));
                assert(rest.skip(i - start + 1) =~= text@.skip(i + 1));
                assert(texts(pieces@.push(piece)) =~= texts(pieces@) + seq![piece@]);
            }
            pieces.push(piece);
            start = i + 1;
        }
        i += 1;
    }
    let piece = text_between(text, start, text.len());
    proof {
        let rest = text@.skip(start as int);
        assert forall|k: int| 0 <= k < rest.len() implies rest[k] != sep by {
            assert(rest[k] == text@[start + k]);
        }
        lemma_first_index_is(rest, sep, rest.len() as int);
        assert(rest =~= text@.subrange(start as int, text@.len() as int));
        assert(texts(pieces@.push(piece)) =~= texts(pieces@) + seq![piece@]);
    }
    pieces.push(piece);
    pieces
}

/// Splits `text` at every `sep`.
pub fn split(text: &str, sep: char) -> (pieces: Vec<String>)
    ensures
        texts(pieces@) == split_on(text@, sep),
{
    let chars = chars_of(text);
    split_chars(chars.as_slice(), sep)
}

/// A line without the carriage return that stood before its line feed.
pub open spec fn without_carriage_return(line: Seq<char>) -> Seq<char> {
    if line.len() > 0 && line.last() == '\r' {
        line.drop_last()
    } else {
        line
    }
}

/// The lines of `text`. A line ends with a line feed, or with a carriage
/// return and a line feed; neither belongs to the line. What follows the
/// last line feed is a line of its own unless it is empty.
pub open spec fn lines_of(text: Seq<char>) -> Seq<Seq<char>>
    decreases text.len(),
{
    let at = first_index(text, '\n');
    if text.len() == 0 {
        Seq::empty()
    } else if 0 <= at < text.len() {
        seq![without_carriage_return(text.take(at))] + lines_of(text.skip(at + 1))
    } else {
        seq![text]
    }
}

/// The lines of `text`.
pub fn lines_of_chars(text: &[char]) -> (lines: Vec<String>)
    ensures
        texts(lines@) == lines_of(text@),
{
    let mut lines: Vec<String> = Vec::new();
    let mut start: usize = 0;
    let mut i: usize = 0;
    assert(text@.skip(0) =~= text@);
    while i < text.len()
        invariant
            start <= i <= text@.len(),
            forall|k: int| start <= k < i ==> text@[k] != '\n',
            lines_of(text@) == texts(lines@) + lines_of(text@.skip(start as int)),
        decreases text@.len() - i,
    {
        if text[i] == '\n' {
            let end: usize = if i > start && text[i - 1] == '\r' {
                i - 1
            } else {
                i
            };
            let line = text_between(text, start, end);
            proof {
                let rest = text@.skip(start as int);
                assert forall|k: int| 0 <= k < i - start implies rest[k] != '\n' by {
                    assert(rest[k] == text@[start + k]);
                }
                lemma_first_index_is(rest, '\n', i - start);
                let raw = rest.take(i - start);
                assert(raw =~= text@.subrange(start as int, i as int));
                if i > start {
                    assert(raw.last() == text@[i - 1]);
                }
                assert(without_carriage_return(raw) =~= text@.subrange(start as int, end as int));
                assert(rest.skip(i - start + 1) =~= text@.skip(i + 1));
                assert(texts(lines@.push(line)) =~= texts(lines@) + seq![line@]);
            }
            lines.push(line);
            start = i + 1;
        }
        i += 1;
    }
    if start < text.len() {
        let line = text_between(text, start, text.len());
        proof {
            let rest = text@.skip(start as int);
            assert forall|k: int| 0 <= k < rest.len() implies rest[k] != '\n' by {
                assert(rest[k] == text@[start + k]);
            }
            lemma_first_index_is(rest, '\n', rest.len() as int);
            assert(rest =~= text@.subrange(start as int, text@.len() as int));
            assert(texts(lines@.push(line)) =~= texts(lines@) + seq![line@]);
        }
        lines.push(line);
    } else {
        proof {
            assert(text@.skip(start as int).len() == 0);
            assert(texts(lines@) + Seq::<Seq<char>>::empty() =~= texts(lines@));
        }
    }
    lines
}

/// The lines of `text`.
pub fn lines(text: &str) -> (lines: Vec<String>)
    ensures
        texts(lines@) == lines_of(text@),
{
    let chars = chars_of(text);
    lines_of_chars(chars.as_slice())
}

/// Whether `c` is white space, as Unicode's `White_Space` property has it.
pub open spec fn is_space(c: char) -> bool {
    let code = c as u32;
    ||| 0x09 <= code <= 0x0D
    ||| code == 0x20
    ||| code == 0x85
    ||| code == 0xA0
    ||| code == 0x1680
    ||| 0x2000 <= code <= 0x200A
    ||| code == 0x2028
    ||| code == 0x2029
    ||| code == 0x202F
    ||| code == 0x205F
    ||| code == 0x3000
}

/// Whether `c` is white space.
pub fn is_whitespace(c: char) -> (space: bool)
    ensures
        space == is_space(c),
{
    let code = c as u32;
    (0x09 <= code && code <= 0x0D) || code == 0x20 || code == 0x85 || code == 0xA0 || code
        == 0x1680 || (0x2000 <= code && code <= 0x200A) || code == 0x2028 || code == 0x2029
        || code == 0x202F || code == 0x205F || code == 0x3000
}

/// How many characters of white space `text` begins with.
pub open spec fn leading_space(text: Seq<char>) -> int
    decreases text.len(),
{
    if text.len() > 0 && is_space(text[0]) {
        1 + leading_space(text.skip(1))
    } else {
        0
    }
}

/// How many characters of white space `text` ends with.
pub open spec fn trailing_space(text: Seq<char>) -> int
    decreases text.len(),
{
    if text.len() > 0 && is_space(text.last()) {
        1 + trailing_space(text.drop_last())
    } else {
        0
    }
}

/// `text` without the white space at its start and at its end.
pub open spec fn trimmed(text: Seq<char>) -> Seq<char> {
    let from = leading_space(text);
    let rest = text.skip(from);
    rest.take(rest.len() - trailing_space(rest))
}

/// The leading white space is a stretch of white space that ends at the
/// first other character.
pub proof fn lemma_leading_space(text: Seq<char>)
    ensures
        0 <= leading_space(text) <= text.len(),
        forall|i: int| 0 <= i < leading_space(text) ==> is_space(text[i]),
        leading_space(text) < text.len() ==> !is_space(text[leading_space(text)]),
    decreases text.len(),
{
    if text.len() > 0 && is_space(text[0]) {
        lemma_leading_space(text.skip(1));
        assert forall|i: int| 0 <= i < leading_space(text) implies is_space(text[i]) by {
            if i > 0 {
                assert(text.skip(1)[i - 1] == text[i]);
            }
        }
    }
}

/// The trailing white space is a stretch of white space that begins after
/// the last other character.
pub proof fn lemma_trailing_space(text: Seq<char>)
    ensures
        0 <= trailing_space(text) <= text.len(),
        forall|i: int| text.len() - trailing_space(text) <= i < text.len() ==> is_space(text[i]),
        trailing_space(text) < text.len() ==> !is_space(
            text[text.len() - trailing_space(text) - 1],
        ),
    decreases text.len(),
{
    if text.len() > 0 && is_space(text.last()) {
        lemma_trailing_space(text.drop_last());
        assert forall|i: int|
            text.len() - trailing_space(text) <= i < text.len() implies is_space(text[i]) by {
            if i < text.len() - 1 {
                assert(text.drop_last()[i] == text[i]);
            }
        }
    }
}

/// A stretch of white space at the start that ends at another character, or
/// at the end of the text, is the leading white space.
pub proof fn lemma_leading_space_is(text: Seq<char>, count: int)
    requires
        0 <= count <= text.len(),
        forall|i: int| 0 <= i < count ==> is_space(text[i]),
        count < text.len() ==> !is_space(text[count]),
    ensures
        leading_space(text) == count,
{
    lemma_leading_space(text);
}

/// A stretch of white space at the end that begins after another character,
/// or at the start of the text, is the trailing white space.
pub proof fn lemma_trailing_space_is(text: Seq<char>, count: int)
    requires
        0 <= count <= text.len(),
        forall|i: int| text.len() - count <= i < text.len() ==> is_space(text[i]),
        count < text.len() ==> !is_space(text[text.len() - count - 1]),
    ensures
        trailing_space(text) == count,
{
    lemma_trailing_space(text);
}

/// `text` without the white space at its start and at its end.
pub fn trim_chars(text: &[char]) -> (inner: String)
    ensures
        inner@ == trimmed(text@),
{
    let mut from: usize = 0;
    while from < text.len() && is_whitespace(text[from])
        invariant
            from <= text@.len(),
            forall|i: int| 0 <= i < from ==> is_space(text@[i]),
        decreases text@.len() - from,
    {
        from += 1;
    }
    let mut to: usize = text.len();
    while to > from && is_whitespace(text[to - 1])
        invariant
            from <= to <= text@.len(),
            forall|i: int| to <= i < text@.len() ==> is_space(text@[i]),
        decreases to,
    {
        to -= 1;
    }
    proof {
        lemma_leading_space_is(text@, from as int);
        let rest = text@.skip(from as int);
        assert forall|i: int| rest.len() - (text@.len() - to) <= i < rest.len() implies is_space(
            rest[i],
        ) by {
            assert(rest[i] == text@[from + i]);
        }
        if text@.len() - to < rest.len() {
            assert(rest[rest.len() - (text@.len() - to) - 1] == text@[to - 1]);
        }
        lemma_trailing_space_is(rest, text@.len() - to);
        assert(rest.take(rest.len() - (text@.len() - to)) =~= text@.subrange(
            from as int,
            to as int,
        ));
    }
    text_between(text, from, to)
}

/// `text` without the white space at its start and at its end.
pub fn trim(text: &str) -> (inner: String)
    ensures
        inner@ == trimmed(text@),
{
    let chars = chars_of(text);
    trim_chars(chars.as_slice())
}

/// How many characters stand before the first white space of `text`.
pub open spec fn word_len(text: Seq<char>) -> int
    decreases text.len(),
{
    if text.len() > 0 && !is_space(text[0]) {
        1 + word_len(text.skip(1))
    } else {
        0
    }
}

/// The word at the start of a text ends at the first white space.
pub proof fn lemma_word_len(text: Seq<char>)
    ensures
        0 <= word_len(text) <= text.len(),
        forall|i: int| 0 <= i < word_len(text) ==> !is_space(text[i]),
        word_len(text) < text.len() ==> is_space(text[word_len(text)]),
    decreases text.len(),
{
    if text.len() > 0 && !is_space(text[0]) {
        lemma_word_len(text.skip(1));
        assert forall|i: int| 0 <= i < word_len(text) implies !is_space(text[i]) by {
            if i > 0 {
                assert(text.skip(1)[i - 1] == text[i]);
            }
        }
    }
}

/// A stretch without white space at the start that ends at white space, or
/// at the end of the text, is the first word.
pub proof fn lemma_word_len_is(text: Seq<char>, count: int)
    requires
        0 <= count <= text.len(),
        forall|i: int| 0 <= i < count ==> !is_space(text[i]),
        count < text.len() ==> is_space(text[count]),
    ensures
        word_len(text) == count,
{
    lemma_word_len(text);
}

/// The words of `text`: the stretches between white space, none of them
/// empty.
pub open spec fn words_of(text: Seq<char>) -> Seq<Seq<char>>
    decreases text.len(),
{
    let from = leading_space(text);
    let rest = text.skip(from);
    let len = word_len(rest);
    if 0 <= from < text.len() && 0 < len <= rest.len() {
        seq![rest.take(len)] + words_of(rest.skip(len))
    } else {
        Seq::empty()
    }
}

/// The words of `text`.
pub fn words_of_chars(text: &[char]) -> (words: Vec<String>)
    ensures
        texts(words@) == words_of(text@),
{
    let mut words: Vec<String> = Vec::new();
    let mut at: usize = 0;
    assert(text@.skip(0) =~= text@);
    assert(texts(words@) + words_of(text@) =~= words_of(text@));
    loop
        invariant
            at <= text@.len(),
            words_of(text@) == texts(words@) + words_of(text@.skip(at as int)),
        ensures
            texts(words@) == words_of(text@),
        decreases text@.len() - at,
    {
        let ghost tail = text@.skip(at as int);
        let mut from: usize = at;
        while from < text.len() && is_whitespace(text[from])
            invariant
                at <= from <= text@.len(),
                forall|i: int| at <= i < from ==> is_space(text@[i]),
            decreases text@.len() - from,
        {
            from += 1;
        }
        proof {
            assert forall|i: int| 0 <= i < from - at implies is_space(tail[i]) by {
                assert(tail[i] == text@[at + i]);
            }
            if from - at < tail.len() {
                assert(tail[from - at] == text@[from as int]);
            }
            lemma_leading_space_is(tail, from - at);
        }
        if from >= text.len() {
            proof {
                assert(words_of(tail) =~= Seq::<Seq<char>>::empty());
                assert(texts(words@) + Seq::<Seq<char>>::empty() =~= texts(words@));
            }
            break;
        }
        let mut to: usize = from;
        while to < text.len() && !is_whitespace(text[to])
            invariant
                from <= to <= text@.len(),
                forall|i: int| from <= i < to ==> !is_space(text@[i]),
            decreases text@.len() - to,
        {
            to += 1;
        }
        let word = text_between(text, from, to);
        proof {
            let rest = tail.skip(from - at);
            assert(rest =~= text@.skip(from as int));
            assert forall|i: int| 0 <= i < to - from implies !is_space(rest[i]) by {
                assert(rest[i] == text@[from + i]);
            }
            if to - from < rest.len() {
                assert(rest[to - from] == text@[to as int]);
            }
            lemma_word_len_is(rest, to - from);
            assert(rest.take(to - from) =~= text@.subrange(from as int, to as int));
            assert(rest.skip(to - from) =~= text@.skip(to as int));
            assert(texts(words@.push(word)) =~= texts(words@) + seq![word@]);
        }
        words.push(word);
        at = to;
    }
    words
}

/// The words of `text`.
pub fn words(text: &str) -> (words: Vec<String>)
    ensures
        texts(words@) == words_of(text@),
{
    let chars = chars_of(text);
    words_of_chars(chars.as_slice())
}

/// Whether `c` is one of the digits `0` to `9`.
pub open spec fn is_digit(c: char) -> bool {
    0x30 <= c as u32 <= 0x39
}

/// The value of a digit.
pub open spec fn digit_value(c: char) -> nat {
    (c as u32 - 0x30) as nat
}

/// Whether `text` is made of digits alone.
pub open spec fn all_digits(text: Seq<char>) -> bool {
    forall|i: int| 0 <= i < text.len() ==> is_digit(text[i])
}

/// The number that a text of digits spells in base ten.
pub open spec fn digits_value(text: Seq<char>) -> nat
    decreases text.len(),
{
    if text.len() == 0 {
        0
    } else {
        digits_value(text.drop_last()) * 10 + digit_value(text.last())
    }
}

/// What parsing `text` as a `u32` gives: an optional `+`, then at least one
/// digit and nothing else, and a value that fits.
pub open spec fn parsed_u32(text: Seq<char>) -> Option<u32> {
    let digits = if text.len() > 0 && text[0] == '+' {
        text.skip(1)
    } else {
        text
    };
    if digits.len() > 0 && all_digits(digits) && digits_value(digits) <= u32::MAX {
        Some(digits_value(digits) as u32)
    } else {
        None
    }
}

/// The value of digits never falls when more digits follow.
pub proof fn lemma_digits_value_grows(text: Seq<char>, count: int)
    requires
        0 <= count <= text.len(),
    ensures
        digits_value(text.take(count)) <= digits_value(text),
    decreases text.len() - count,
{
    if count < text.len() {
        lemma_digits_value_grows(text, count + 1);
        assert(text.take(count + 1).drop_last() =~= text.take(count));
    } else {
        assert(text.take(count) =~= text);
    }
}

/// Parses a `u32` in base ten.
pub fn parse_u32_chars(text: &[char]) -> (value: Option<u32>)
    ensures
        value == parsed_u32(text@),
{
    let start: usize = if text.len() > 0 && text[0] == '+' {
        1
    } else {
        0
    };
    if start >= text.len() {
        assert(text@.skip(start as int).len() == 0);
        return None;
    }
    let ghost digits = text@.skip(start as int);
    let mut total: u64 = 0;
    let mut i: usize = start;
    proof {
        assert(text@.skip(0) =~= text@);
        assert(digits.take(0) =~= Seq::<char>::empty());
        assert(digits == if text@.len() > 0 && text@[0] == '+' {
            text@.skip(1)
        } else {
            text@
        });
    }
    while i < text.len()
        invariant
            start <= i <= text@.len(),
            digits == text@.skip(start as int),
            digits.len() > 0,
            parsed_u32(text@) == if all_digits(digits) && digits_value(digits) <= u32::MAX {
                Some(digits_value(digits) as u32)
            } else {
                None
            },
            all_digits(digits.take(i - start)),
            total == digits_value(digits.take(i - start)),
            total <= u32::MAX,
        decreases text@.len() - i,
    {
        let c = text[i];
        let code = c as u32;
        assert(digits[i - start] == c);
        if code < 0x30 || code > 0x39 {
            assert(!is_digit(digits[i - start]));
            return None;
        }
        let next: u64 = total * 10 + (code - 0x30) as u64;
        proof {
            let longer = digits.take(i - start + 1);
            assert(longer.drop_last() =~= digits.take(i - start));
            assert(longer.last() == c);
            assert(digit_value(c) == code - 0x30);
            assert(digits_value(longer) == digits_value(longer.drop_last()) * 10 + digit_value(
                longer.last(),
            ));
            assert(digits_value(longer) == next);
            assert forall|k: int| 0 <= k < longer.len() implies is_digit(longer[k]) by {
                if k < i - start {
                    assert(digits.take(i - start)[k] == longer[k]);
                }
            }
            lemma_digits_value_grows(digits, i - start + 1);
        }
        if next > 0xffff_ffff {
            return None;
        }
        total = next;
        i += 1;
    }
    assert(digits.take(i - start) =~= digits);
    Some(total as u32)
}

/// Parses a `u32` in base ten.
pub fn parse_u32(text: &str) -> (value: Option<u32>)
    ensures
        value == parsed_u32(text@),
{
    let chars = chars_of(text);
    parse_u32_chars(chars.as_slice())
}

/// The lowercase form of a text, as Unicode defines it.
pub uninterp spec fn lowercase(text: Seq<char>) -> Seq<char>;

/// Calls `str::to_lowercase`, which maps the text to lowercase by Unicode's
/// rules. The result is a function of the text alone; the contract gives it
/// its name.
#[verifier::external_body]
pub(crate) fn lowercase_std(text: &str) -> (lower: String)
    ensures
        lower@ == lowercase(text@),
{
    text.to_lowercase()
}

/// The lowercase form of `text`.
pub fn to_lowercase(text: &str) -> (lower: String)
    ensures
        lower@ == lowercase(text@),
{
    lowercase_std(text)
}

/// `text` with every `from` replaced by `to`.
pub open spec fn replaced(text: Seq<char>, from: char, to: Seq<char>) -> Seq<char>
    decreases text.len(),
{
    if text.len() == 0 {
        Seq::empty()
    } else if text.last() == from {
        replaced(text.drop_last(), from, to) + to
    } else {
        replaced(text.drop_last(), from, to).push(text.last())
    }
}

/// `text` with every `from` replaced by `to`.
pub fn replace_char(text: &str, from: char, to: &str) -> (out: String)
    ensures
        out@ == replaced(text@, from, to@),
{
    let chars = chars_of(text);
    let mut out = String::new();
    let mut i: usize = 0;
    assert(chars@.take(0) =~= Seq::<char>::empty());
    while i < chars.len()
        invariant
            i <= chars@.len(),
            chars@ == text@,
            out@ == replaced(chars@.take(i as int), from, to@),
        decreases chars@.len() - i,
    {
        assert(chars@.take(i + 1).drop_last() =~= chars@.take(i as int));
        if chars[i] == from {
            out.append(to);
        } else {
            push_char(&mut out, chars[i]);
        }
        i += 1;
    }
    assert(chars@.take(i as int) =~= chars@);
    out
}

/// Whether `a` comes before `b` in lexicographic order of code points, or
/// equals it.
pub open spec fn text_le(a: Seq<char>, b: Seq<char>) -> bool
    decreases a.len(),
{
    if a.len() == 0 {
        true
    } else if b.len() == 0 {
        false
    } else if a[0] != b[0] {
        (a[0] as u32) < (b[0] as u32)
    } else {
        text_le(a.skip(1), b.skip(1))
    }
}

/// Whether `a` comes before `b` in lexicographic order, or equals it.
pub fn chars_le(a: &[char], b: &[char]) -> (le: bool)
    ensures
        le == text_le(a@, b@),
{
    let mut i: usize = 0;
    assert(a@.skip(0) =~= a@ && b@.skip(0) =~= b@);
    while i < a.len() && i < b.len()
        invariant
            i <= a@.len(),
            i <= b@.len(),
            text_le(a@, b@) == text_le(a@.skip(i as int), b@.skip(i as int)),
        decreases a@.len() - i,
    {
        if a[i] != b[i] {
            return (a[i] as u32) < (b[i] as u32);
        }
        assert(a@.skip(i as int).skip(1) =~= a@.skip(i + 1));
        assert(b@.skip(i as int).skip(1) =~= b@.skip(i + 1));
        i += 1;
    }
    i >= a.len()
}

/// Whether `a` comes before `b` in lexicographic order, or equals it.
pub fn le(a: &str, b: &str) -> (le: bool)
    ensures
        le == text_le(a@, b@),
{
    let x = chars_of(a);
    let y = chars_of(b);
    chars_le(x.as_slice(), y.as_slice())
}

/// The text of one hexadecimal digit, in upper case.
pub open spec fn hex_digit_text(d: nat) -> Seq<char> {
    if d < 10 {
        digit_text(d)
    } else if d == 10 {
        "A"@
    } else if d == 11 {
        "B"@
    } else if d == 12 {
        "C"@
    } else if d == 13 {
        "D"@
    } else if d == 14 {
        "E"@
    } else {
        "F"@
    }
}

/// A byte as two hexadecimal digits, in upper case.
pub open spec fn hex_byte(value: u8) -> Seq<char> {
    hex_digit_text((value / 16) as nat) + hex_digit_text((value % 16) as nat)
}

/// The string slice of one hexadecimal digit.
pub fn hex_digit_str(d: u8) -> (s: &'static str)
    requires
        d < 16,
    ensures
        s@ == hex_digit_text(d as nat),
{
    if d < 10 {
        digit_str(d as u64)
    } else if d == 10 {
        "A"
    } else if d == 11 {
        "B"
    } else if d == 12 {
        "C"
    } else if d == 13 {
        "D"
    } else if d == 14 {
        "E"
    } else {
        "F"
    }
}

/// Appends a byte as two hexadecimal digits.
pub fn push_hex_byte(out: &mut String, value: u8)
    ensures
        final(out)@ == old(out)@ + hex_byte(value),
{
    out.append(hex_digit_str(value / 16));
    out.append(hex_digit_str(value % 16));
    assert(out@ =~= old(out)@ + hex_byte(value));
}

/// The text of a truth value.
pub open spec fn bool_text(value: bool) -> Seq<char> {
    if value {
        "true"@
    } else {
        "false"@
    }
}

/// The string slice of a truth value.
pub fn bool_str(value: bool) -> (s: &'static str)
    ensures
        s@ == bool_text(value),
{
    if value {
        "true"
    } else {
        "false"
    }
}

/// Whether `text` can be cut `count` bytes into its UTF-8 encoding: the
/// encoding is at least that long, and no character lies across the cut.
pub open spec fn cuts_at(text: Seq<char>, count: int) -> bool {
    vstd::utf8::is_char_boundary(vstd::utf8::encode_utf8(text), count)
}

/// The text that the first `count` bytes of the UTF-8 encoding of `text`
/// hold.
pub open spec fn byte_prefix(text: Seq<char>, count: int) -> Seq<char> {
    vstd::utf8::decode_utf8(vstd::utf8::encode_utf8(text).subrange(0, count))
}

/// In a text of ASCII characters a byte is a character: the text can be cut
/// anywhere within its length, and the first `count` bytes are the first
/// `count` characters.
pub proof fn lemma_byte_prefix_ascii(text: Seq<char>, count: int)
    requires
        vstd::utf8::is_ascii_chars(text),
        0 <= count <= text.len(),
    ensures
        cuts_at(text, count),
        byte_prefix(text, count) == text.take(count),
{
    let bytes = vstd::utf8::encode_utf8(text);
    vstd::utf8::is_ascii_chars_encode_utf8(text);
    vstd::utf8::is_ascii_chars_nat_bound(text);
    vstd::utf8::encode_utf8_valid_utf8(text);
    if count == text.len() {
        vstd::utf8::is_char_boundary_start_end_of_seq(bytes);
    } else {
        vstd::utf8::is_char_boundary_iff_not_is_continuation_byte(bytes, count);
    }
    let head = text.take(count);
    assert(vstd::utf8::is_ascii_chars(head));
    vstd::utf8::is_ascii_chars_encode_utf8(head);
    assert(bytes.subrange(0, count) =~= vstd::utf8::encode_utf8(head));
    vstd::utf8::encode_utf8_decode_utf8(head);
}

/// Whether `text` can be cut `count` bytes into its UTF-8 encoding.
pub fn can_cut(text: &str, count: usize) -> (fits: bool)
    ensures
        fits == cuts_at(text@, count as int),
{
    text.is_char_boundary(count)
}

/// The first `count` bytes of the UTF-8 encoding of `text`, as text.
pub fn head_bytes(text: &str, count: usize) -> (head: &str)
    requires
        cuts_at(text@, count as int),
    ensures
        head@ == byte_prefix(text@, count as int),
{
    let (head, _) = text.split_at(count);
    proof {
        vstd::utf8::encode_utf8_decode_utf8(head@);
    }
    head
}

/// Appends the decimal rendering of a count.
pub fn push_count(out: &mut String, n: usize)
    ensures
        final(out)@ == old(out)@ + decimal(n as nat),
{
    push_decimal(out, n as u64);
}

/// The texts that `line` makes of the items, one after the other.
pub open spec fn joined<T>(items: Seq<T>, line: spec_fn(T) -> Seq<char>) -> Seq<char>
    decreases items.len(),
{
    if items.len() == 0 {
        Seq::empty()
    } else {
        joined(items.drop_last(), line) + line(items.last())
    }
}

/// The step of a loop that writes one line per item.
pub proof fn lemma_joined_step<T>(items: Seq<T>, count: int, line: spec_fn(T) -> Seq<char>)
    requires
        0 <= count < items.len(),
    ensures
        joined(items.take(count + 1), line) == joined(items.take(count), line) + line(
            items[count],
        ),
{
    assert(items.take(count + 1).drop_last() =~= items.take(count));
}

/// The ends of a loop that writes one line per item.
pub proof fn lemma_joined_ends<T>(items: Seq<T>, line: spec_fn(T) -> Seq<char>)
    ensures
        joined(items.take(0), line) == Seq::<char>::empty(),
        items.take(items.len() as int) == items,
{
    assert(items.take(items.len() as int) =~= items);
}

/// One line per text: the prefix, the text, the suffix.
pub open spec fn listed(items: Seq<String>, prefix: Seq<char>, suffix: Seq<char>) -> Seq<char> {
    joined(items, |item: String| prefix + item@ + suffix)
}

/// One line per text: the prefix, the text, the suffix.
pub open spec fn listed_texts(items: Seq<Seq<char>>, prefix: Seq<char>, suffix: Seq<char>) -> Seq<
    char,
> {
    joined(items, |item: Seq<char>| prefix + item + suffix)
}

/// Listing strings is listing their texts.
pub proof fn lemma_listed_texts(items: Seq<String>, prefix: Seq<char>, suffix: Seq<char>)
    ensures
        listed(items, prefix, suffix) == listed_texts(texts(items), prefix, suffix),
    decreases items.len(),
{
    if items.len() > 0 {
        lemma_listed_texts(items.drop_last(), prefix, suffix);
        assert(texts(items).drop_last() =~= texts(items.drop_last()));
    }
}

/// Appends one line per text: the prefix, the text, the suffix.
pub fn push_listed(out: &mut String, items: &[String], prefix: &str, suffix: &str)
    ensures
        final(out)@ == old(out)@ + listed(items@, prefix@, suffix@),
        final(out)@ == old(out)@ + listed_texts(texts(items@), prefix@, suffix@),
{
    let ghost line = |item: String| prefix@ + item@ + suffix@;
    let mut i: usize = 0;
    proof {
        lemma_joined_ends(items@, line);
        assert(out@ =~= old(out)@ + joined(items@.take(0), line));
    }
    while i < items.len()
        invariant
            i <= items@.len(),
            line == |item: String| prefix@ + item@ + suffix@,
            out@ == old(out)@ + joined(items@.take(i as int), line),
        decreases items@.len() - i,
    {
        proof {
            lemma_joined_step(items@, i as int, line);
        }
        let ghost before = out@;
        out.append(prefix);
        out.append(items[i].as_str());
        out.append(suffix);
        assert(out@ =~= before + (prefix@ + items@[i as int]@ + suffix@));
        assert(out@ =~= old(out)@ + joined(items@.take(i + 1), line));
        i += 1;
    }
    proof {
        lemma_joined_ends(items@, line);
        lemma_listed_texts(items@, prefix@, suffix@);
    }
}

/// Appends a label, a text and an ending.
pub fn push_field(out: &mut String, label: &str, value: &str, end: &str)
    ensures
        final(out)@ == old(out)@ + label@ + value@ + end@,
{
    out.append(label);
    out.append(value);
    out.append(end);
}

/// Appends a label, a count in decimal and an ending.
pub fn push_count_field(out: &mut String, label: &str, value: usize, end: &str)
    ensures
        final(out)@ == old(out)@ + label@ + decimal(value as nat) + end@,
{
    out.append(label);
    push_count(out, value);
    out.append(end);
}

/// Appends a label, a number in decimal and an ending.
pub fn push_number_field(out: &mut String, label: &str, value: u64, end: &str)
    ensures
        final(out)@ == old(out)@ + label@ + decimal(value as nat) + end@,
{
    out.append(label);
    push_decimal(out, value);
    out.append(end);
}

/// Appends a label, a truth value and an ending.
pub fn push_bool_field(out: &mut String, label: &str, value: bool, end: &str)
    ensures
        final(out)@ == old(out)@ + label@ + bool_text(value) + end@,
{
    out.append(label);
    out.append(bool_str(value));
    out.append(end);
}

/// The text at `index`, or the empty text where the list ends before.
pub open spec fn text_at(texts: Seq<String>, index: int) -> Seq<char> {
    if 0 <= index < texts.len() {
        texts[index]@
    } else {
        Seq::empty()
    }
}

/// Each item with the text at its position.
pub open spec fn with_texts<T>(items: Seq<T>, texts: Seq<String>) -> Seq<(T, Seq<char>)> {
    Seq::new(items.len(), |i: int| (items[i], text_at(texts, i)))
}

/// The text at `index`, or the empty text where the list ends before.
pub fn text_or_empty(texts: &[String], index: usize) -> (text: &str)
    ensures
        text@ == text_at(texts@, index as int),
{
    if index < texts.len() {
        texts[index].as_str()
    } else {
        proof {
            reveal_strlit("");
            assert(""@ =~= Seq::<char>::empty());
        }
        ""
    }
}

/// Whether one of the needles stands somewhere in `hay`.
pub open spec fn any_occurs(needles: Seq<Seq<char>>, hay: Seq<char>) -> bool {
    exists|i: int| 0 <= i < needles.len() && is_substring(#[trigger] needles[i], hay)
}

/// Whether one of the needles stands somewhere in `hay`.
pub fn contains_any(hay: &str, needles: &[String]) -> (found: bool)
    ensures
        found == any_occurs(texts(needles@), hay@),
{
    let hay_chars = chars_of(hay);
    let mut i: usize = 0;
    while i < needles.len()
        invariant
            i <= needles@.len(),
            hay_chars@ == hay@,
            forall|j: int| 0 <= j < i ==> !is_substring(#[trigger] texts(needles@)[j], hay@),
        decreases needles@.len() - i,
    {
        let needle = chars_of(needles[i].as_str());
        if chars_contain(hay_chars.as_slice(), needle.as_slice()) {
            assert(is_substring(texts(needles@)[i as int], hay@));
            return true;
        }
        i += 1;
    }
    false
}

} // verus!
