//! Strings as sequences of characters: searching, comparing and splitting.
//!
//! Every contract of this crate that speaks of a string speaks of its
//! characters. The functions here are the vocabulary that those contracts use.

use vstd::prelude::*;
use vstd::utf8::*;

verus! {

broadcast use vstd::string::group_string_axioms;

/// The texts of a list of strings.
pub open spec fn texts(strings: Seq<String>) -> Seq<Seq<char>> {
    Seq::new(strings.len(), |i: int| strings[i]@)
}

/// The text of a string that may be absent.
pub open spec fn opt_text(string: Option<String>) -> Option<Seq<char>> {
    match string {
        Some(s) => Some(s@),
        None => None,
    }
}

/// The text of a string slice that may be absent.
pub open spec fn opt_str(string: Option<&str>) -> Option<Seq<char>> {
    match string {
        Some(s) => Some(s@),
        None => None,
    }
}

/// `pattern` stands in `text` from position `at` on.
pub open spec fn occurs_at(text: Seq<char>, pattern: Seq<char>, at: int) -> bool {
    &&& 0 <= at
    &&& at + pattern.len() <= text.len()
    &&& text.subrange(at, at + pattern.len()) == pattern
}

/// `pattern` occurs in `text` at some position.
pub open spec fn contains_text(text: Seq<char>, pattern: Seq<char>) -> bool {
    exists|at: int| occurs_at(text, pattern, at)
}

/// One of `patterns` occurs in `text`.
pub open spec fn contains_any_text(text: Seq<char>, patterns: Seq<&str>) -> bool {
    exists|k: int| 0 <= k < patterns.len() && contains_text(text, #[trigger] patterns[k]@)
}

/// An upper-case letter of ASCII.
pub open spec fn is_ascii_upper(c: char) -> bool {
    'A' <= c <= 'Z'
}

/// The lower-case form of an ASCII character.
pub open spec fn lower_ascii_char(c: char) -> char {
    if is_ascii_upper(c) {
        ((c as u32) + 32) as char
    } else {
        c
    }
}

/// The lower-case form of an ASCII text.
pub open spec fn lower_ascii(text: Seq<char>) -> Seq<char> {
    Seq::new(text.len(), |i: int| lower_ascii_char(text[i]))
}

/// What `str::to_lowercase` makes of a text.
pub uninterp spec fn lowercase(text: Seq<char>) -> Seq<char>;

/// What `String::from_utf8_lossy` makes of a run of bytes.
pub uninterp spec fn lossy_text(bytes: Seq<u8>) -> Seq<char>;

/// Position of the first newline of `text` at or after `from`, or the length
/// of `text` if there is none.
pub open spec fn newline_from(text: Seq<char>, from: int) -> int
    decreases text.len() - from,
{
    if from >= text.len() || text[from] == '\n' {
        from
    } else {
        newline_from(text, from + 1)
    }
}

/// A line without the carriage return that ended it together with a newline.
pub open spec fn without_return(line: Seq<char>) -> Seq<char> {
    if line.len() > 0 && line.last() == '\r' {
        line.drop_last()
    } else {
        line
    }
}

/// The lines of `text` from position `from` on. A line ends with a newline or
/// with a carriage return and a newline, neither of which belongs to it; the
/// last line need not be ended, and a carriage return alone ends nothing.
pub open spec fn lines_from(text: Seq<char>, from: int) -> Seq<Seq<char>>
    decreases text.len() - from,
    when 0 <= from
    via lines_from_shrinks
{
    let end = newline_from(text, from);
    if from >= text.len() {
        Seq::empty()
    } else if end >= text.len() {
        seq![text.subrange(from, text.len() as int)]
    } else {
        seq![without_return(text.subrange(from, end))] + lines_from(text, end + 1)
    }
}

#[via_fn]
proof fn lines_from_shrinks(text: Seq<char>, from: int) {
    if from < text.len() {
        lemma_newline_from(text, from);
    }
}

/// The lines of `text`.
pub open spec fn lines_of(text: Seq<char>) -> Seq<Seq<char>> {
    lines_from(text, 0)
}

/// `a` comes before `b`: at the first place where they differ `a` holds the
/// smaller byte, or `a` ends there.
pub open spec fn bytes_before(a: Seq<u8>, b: Seq<u8>) -> bool {
    exists|k: int| differ_at(a, b, k)
}

/// `a` and `b` agree up to `k`, where `a` ends or holds the smaller byte.
pub open spec fn differ_at(a: Seq<u8>, b: Seq<u8>, k: int) -> bool {
    &&& 0 <= k <= a.len()
    &&& k < b.len()
    &&& forall|i: int| 0 <= i < k ==> a[i] == b[i]
    &&& k == a.len() || a[k] < b[k]
}

/// The lower-case form of an ASCII text is an ASCII text in lower case.
pub proof fn lemma_lower_ascii(text: Seq<char>)
    requires
        is_ascii_chars(text),
    ensures
        is_ascii_chars(lower_ascii(text)),
        lower_ascii(lower_ascii(text)) == lower_ascii(text),
{
    let lower = lower_ascii(text);
    assert forall|i: int| 0 <= i < lower.len() implies '\0' <= #[trigger] lower[i] <= '\u{7f}'
        && !is_ascii_upper(lower[i]) by {
        assert('\0' <= text[i] <= '\u{7f}');
    }
    assert(lower_ascii(lower) =~= lower);
}

/// The newline search stays within the text and stops at the first newline.
pub proof fn lemma_newline_from(text: Seq<char>, from: int)
    requires
        from <= text.len(),
    ensures
        from <= newline_from(text, from) <= text.len(),
        forall|i: int| from <= i < newline_from(text, from) ==> text[i] != '\n',
        newline_from(text, from) < text.len() ==> text[newline_from(text, from)] == '\n',
    decreases text.len() - from,
{
    if from < text.len() && text[from] != '\n' {
        lemma_newline_from(text, from + 1);
    }
}

/// Bytes are ordered totally: of two different runs one comes first.
pub proof fn lemma_bytes_total(a: Seq<u8>, b: Seq<u8>)
    ensures
        bytes_before(a, b) || bytes_before(b, a) || a == b,
    decreases a.len(),
{
    if a.len() == 0 {
        if b.len() > 0 {
            assert(differ_at(a, b, 0));
        } else {
            assert(a =~= b);
        }
    } else if b.len() == 0 {
        assert(differ_at(b, a, 0));
    } else {
        let a0 = a.drop_last();
        lemma_bytes_total(a0, b);
        if bytes_before(a0, b) {
            let k = choose|k: int| differ_at(a0, b, k);
            if k < a0.len() {
                assert(differ_at(a, b, k));
            } else if a[k] < b[k] {
                assert(differ_at(a, b, k));
            } else if b[k] < a[k] {
                assert(differ_at(b, a, k));
            } else if b.len() > a.len() {
                assert(differ_at(a, b, k + 1));
            } else {
                assert(a =~= b);
            }
        } else if bytes_before(b, a0) {
            let k = choose|k: int| differ_at(b, a0, k);
            assert(differ_at(b, a, k));
        } else {
            assert(differ_at(b, a, b.len() as int));
        }
    }
}

/// No run of bytes comes both before and after another, nor before itself.
pub proof fn lemma_bytes_asymmetric(a: Seq<u8>, b: Seq<u8>)
    requires
        bytes_before(a, b),
    ensures
        !bytes_before(b, a),
        a != b,
{
    let k = choose|k: int| differ_at(a, b, k);
    if bytes_before(b, a) {
        let j = choose|j: int| differ_at(b, a, j);
        if j < k {
            assert(a[j] == b[j]);
        } else if k < j {
            assert(b[k] == a[k]);
        }
    }
}

/// The order of bytes is transitive.
pub proof fn lemma_bytes_transitive(a: Seq<u8>, b: Seq<u8>, c: Seq<u8>)
    requires
        bytes_before(a, b),
        bytes_before(b, c),
    ensures
        bytes_before(a, c),
{
    let j = choose|j: int| differ_at(a, b, j);
    let k = choose|k: int| differ_at(b, c, k);
    let m = if j < k { j } else { k };
    assert(differ_at(a, c, m));
}

/// A pattern occurs in a text exactly if the text is the pattern with something,
/// or nothing, before and behind it.
pub proof fn law_found_pattern_splits_text(text: Seq<char>, pattern: Seq<char>)
    ensures
        contains_text(text, pattern) <==> exists|before: Seq<char>, behind: Seq<char>|
            text == #[trigger] (before + pattern + behind),
{
    if contains_text(text, pattern) {
        let at = choose|at: int| occurs_at(text, pattern, at);
        assert(text =~= text.take(at) + pattern + text.skip(at + pattern.len()));
    }
    if exists|before: Seq<char>, behind: Seq<char>| text == #[trigger] (before + pattern + behind) {
        let (before, behind) = choose|before: Seq<char>, behind: Seq<char>|
            text == #[trigger] (before + pattern + behind);
        let at = before.len() as int;
        assert(text.subrange(at, at + pattern.len()) =~= pattern);
        assert(occurs_at(text, pattern, at));
    }
}

/// Nothing is found among no patterns, and one more pattern finds what it finds
/// itself and nothing else.
pub proof fn law_each_pattern_counts(text: Seq<char>, patterns: Seq<&str>, pattern: &str)
    ensures
        !contains_any_text(text, Seq::<&str>::empty()),
        contains_any_text(text, patterns.push(pattern)) <==> contains_any_text(text, patterns)
            || contains_text(text, pattern@),
{
    let more = patterns.push(pattern);
    if contains_any_text(text, patterns) {
        let k = choose|k: int|
            0 <= k < patterns.len() && contains_text(text, #[trigger] patterns[k]@);
        assert(more[k] == patterns[k]);
    }
    if contains_text(text, pattern@) {
        assert(more[patterns.len() as int] == pattern);
    }
    if contains_any_text(text, more) {
        let k = choose|k: int| 0 <= k < more.len() && contains_text(text, #[trigger] more[k]@);
        if k < patterns.len() {
            assert(more[k] == patterns[k]);
        }
    }
}

/// What stands before a newline is a line, without the carriage return at its
/// end, and the lines of what stands behind the newline follow.
pub proof fn law_newline_ends_line(head: Seq<char>, tail: Seq<char>)
    requires
        !head.contains('\n'),
    ensures
        lines_of(head + seq!['\n'] + tail) == seq![
            if head.len() > 0 && head.last() == '\r' {
                head.drop_last()
            } else {
                head
            },
        ] + lines_of(tail),
{
    let first = head + seq!['\n'];
    let all = first + tail;
    let end = newline_from(all, 0);
    lemma_newline_from(all, 0);
    assert(all[head.len() as int] == '\n');
    if end < head.len() {
        assert(head[end] == all[end]);
        assert(head.contains(head[end]));
    }
    assert(end == head.len());
    assert(all.subrange(0, end) =~= head);
    lemma_lines_behind(first, tail, 0);
}

/// A text without a newline is one line as it stands, and no line if it is empty.
pub proof fn law_text_without_newline_is_one_line(text: Seq<char>)
    requires
        !text.contains('\n'),
    ensures
        text.len() == 0 ==> lines_of(text).len() == 0,
        text.len() > 0 ==> lines_of(text) == seq![text],
{
    if text.len() > 0 {
        let end = newline_from(text, 0);
        lemma_newline_from(text, 0);
        if end < text.len() {
            assert(text.contains(text[end]));
        }
        assert(text.subrange(0, text.len() as int) =~= text);
    }
}

/// Searching and splitting do not look at what stands before.
proof fn lemma_newline_behind(first: Seq<char>, tail: Seq<char>, from: int)
    requires
        0 <= from <= tail.len(),
    ensures
        newline_from(first + tail, first.len() + from) == first.len() + newline_from(tail, from),
    decreases tail.len() - from,
{
    if from < tail.len() {
        assert((first + tail)[first.len() + from] == tail[from]);
        if tail[from] != '\n' {
            lemma_newline_behind(first, tail, from + 1);
        }
    }
}

proof fn lemma_lines_behind(first: Seq<char>, tail: Seq<char>, from: int)
    requires
        0 <= from <= tail.len(),
    ensures
        lines_from(first + tail, first.len() + from) == lines_from(tail, from),
    decreases tail.len() - from,
{
    let all = first + tail;
    let n = first.len() as int;
    if from < tail.len() {
        let end = newline_from(tail, from);
        lemma_newline_from(tail, from);
        lemma_newline_behind(first, tail, from);
        assert(all.subrange(n + from, n + end) =~= tail.subrange(from, end));
        if end < tail.len() {
            lemma_lines_behind(first, tail, end + 1);
        }
    }
}

/// Bytes are ordered as words in a dictionary: equal starts do not matter, then
/// the first byte decides, and nothing comes before something.
pub proof fn law_bytes_are_ordered_as_words(start: Seq<u8>, a: Seq<u8>, b: Seq<u8>)
    ensures
        bytes_before(start + a, start + b) <==> bytes_before(a, b),
        a.len() == 0 ==> (bytes_before(a, b) <==> b.len() > 0),
        b.len() == 0 ==> !bytes_before(a, b),
        a.len() > 0 && b.len() > 0 && a[0] != b[0] ==> (bytes_before(a, b) <==> a[0] < b[0]),
{
    let n = start.len() as int;
    let x = start + a;
    let y = start + b;
    if bytes_before(a, b) {
        let k = choose|k: int| differ_at(a, b, k);
        assert(differ_at(x, y, n + k));
        if a.len() > 0 && b.len() > 0 && a[0] != b[0] {
            assert(k == 0);
        }
    }
    if bytes_before(x, y) {
        let k = choose|k: int| differ_at(x, y, k);
        if k < n {
            assert(x[k] == start[k] && y[k] == start[k]);
        }
        assert forall|i: int| 0 <= i < k - n implies a[i] == b[i] by {
            assert(x[n + i] == y[n + i]);
        }
        assert(differ_at(a, b, k - n));
    }
    if a.len() == 0 && b.len() > 0 {
        assert(differ_at(a, b, 0));
    }
    if a.len() > 0 && b.len() > 0 && a[0] < b[0] {
        assert(differ_at(a, b, 0));
    }
}

/// The letters of an ASCII text become the small letters with the same names,
/// and everything else stays as it is.
pub proof fn law_ascii_letters_are_lowered(text: Seq<char>, i: int)
    requires
        0 <= i < text.len(),
    ensures
        lower_ascii(text).len() == text.len(),
        'A' <= text[i] <= 'Z' ==> lower_ascii(text)[i] as int - 'a' as int == text[i] as int
            - 'A' as int,
        !('A' <= text[i] <= 'Z') ==> lower_ascii(text)[i] == text[i],
{
}

/// The characters of a string, in order.
pub fn chars_of(text: &str) -> (chars: Vec<char>)
    ensures
        chars@ == text@,
{
    let mut chars: Vec<char> = Vec::new();
    for c in it: text.chars()
        invariant
            it.seq() == text@,
            chars@ == text@.take(it.index() as int),
    {
        chars.push(c);
    }
    assert(text@.take(text@.len() as int) == text@);
    chars
}

/// The string of the characters from `from` up to `to`.
pub fn string_of(chars: &Vec<char>, from: usize, to: usize) -> (text: String)
    requires
        from <= to <= chars@.len(),
    ensures
        text@ == chars@.subrange(from as int, to as int),
{
    let mut text: String = String::new();
    let mut i: usize = from;
    while i < to
        invariant
            from <= i <= to <= chars@.len(),
            text@ == chars@.subrange(from as int, i as int),
        decreases to - i,
    {
        text.push(chars[i]);
        i = i + 1;
        assert(chars@.subrange(from as int, i as int) == chars@.subrange(
            from as int,
            i - 1,
        ).push(chars@[i - 1]));
    }
    text
}

/// Whether two strings hold the same characters.
pub fn same_text(a: &str, b: &str) -> (same: bool)
    ensures
        same == (a@ == b@),
{
    let x: Vec<char> = chars_of(a);
    let y: Vec<char> = chars_of(b);
    if x.len() != y.len() {
        return false;
    }
    let mut i: usize = 0;
    while i < x.len()
        invariant
            i <= x.len() == y.len(),
            x@ == a@,
            y@ == b@,
            forall|j: int| 0 <= j < i ==> a@[j] == b@[j],
        decreases x.len() - i,
    {
        if x[i] != y[i] {
            return false;
        }
        i = i + 1;
    }
    assert(a@ =~= b@);
    true
}

/// Whether `pattern` occurs in `text`.
pub fn contains(text: &str, pattern: &str) -> (found: bool)
    ensures
        found == contains_text(text@, pattern@),
{
    let hay: Vec<char> = chars_of(text);
    let pat: Vec<char> = chars_of(pattern);
    if pat.len() > hay.len() {
        return false;
    }
    let last: usize = hay.len() - pat.len();
    let mut at: usize = 0;
    loop
        invariant
            hay@ == text@,
            pat@ == pattern@,
            at <= last,
            last + pat.len() == hay.len(),
            forall|i: int| 0 <= i < at ==> !occurs_at(text@, pattern@, i),
        decreases last - at,
    {
        if stands_at(&hay, &pat, at) {
            assert(occurs_at(text@, pattern@, at as int));
            return true;
        }
        if at == last {
            assert forall|i: int| !occurs_at(text@, pattern@, i) by {
                if 0 <= i && i + pattern@.len() <= text@.len() {
                    assert(i <= at);
                }
            }
            return false;
        }
        at = at + 1;
    }
}

fn stands_at(hay: &Vec<char>, pat: &Vec<char>, at: usize) -> (found: bool)
    requires
        at + pat@.len() <= hay@.len(),
    ensures
        found == occurs_at(hay@, pat@, at as int),
{
    let size: usize = hay.len();
    let mut i: usize = 0;
    while i < pat.len()
        invariant
            i <= pat@.len(),
            at + pat@.len() <= hay@.len() == size,
            forall|j: int| 0 <= j < i ==> hay@[at + j] == pat@[j],
        decreases pat@.len() - i,
    {
        if hay[at + i] != pat[i] {
            assert(hay@.subrange(at as int, at + pat@.len())[i as int] != pat@[i as int]);
            return false;
        }
        i = i + 1;
    }
    assert(hay@.subrange(at as int, at + pat@.len()) =~= pat@);
    true
}

/// Whether one of `patterns` occurs in `text`.
pub fn contains_any(text: &str, patterns: &[&str]) -> (found: bool)
    ensures
        found == contains_any_text(text@, patterns@),
{
    let mut k: usize = 0;
    while k < patterns.len()
        invariant
            k <= patterns@.len(),
            forall|j: int| 0 <= j < k ==> !contains_text(text@, #[trigger] patterns@[j]@),
        decreases patterns@.len() - k,
    {
        if contains(text, patterns[k]) {
            assert(contains_text(text@, patterns@[k as int]@));
            return true;
        }
        k = k + 1;
    }
    false
}

/// The lines of a text.
pub fn text_lines(text: &str) -> (lines: Vec<String>)
    ensures
        texts(lines@) == lines_of(text@),
{
    let chars: Vec<char> = chars_of(text);
    let mut lines: Vec<String> = Vec::new();
    let mut from: usize = 0;
    assert(texts(lines@) + lines_from(text@, 0) == lines_of(text@));
    while from < chars.len()
        invariant
            chars@ == text@,
            from <= chars@.len(),
            texts(lines@) + lines_from(text@, from as int) == lines_of(text@),
        decreases chars@.len() - from,
    {
        let ghost before = lines@;
        let mut end: usize = from;
        while end < chars.len() && chars[end] != '\n'
            invariant
                chars@ == text@,
                from <= end <= chars@.len(),
                newline_from(text@, end as int) == newline_from(text@, from as int),
            decreases chars@.len() - end,
        {
            end = end + 1;
        }
        if end == chars.len() {
            let line: String = string_of(&chars, from, end);
            lines.push(line);
            assert(texts(lines@) =~= texts(before).push(line@));
            assert(texts(lines@) =~= lines_of(text@));
            return lines;
        }
        let stop: usize = if end > from && chars[end - 1] == '\r' {
            end - 1
        } else {
            end
        };
        let line: String = string_of(&chars, from, stop);
        assert(line@ =~= without_return(text@.subrange(from as int, end as int)));
        lines.push(line);
        assert(texts(lines@) =~= texts(before).push(line@));
        from = end + 1;
        assert(texts(lines@) + lines_from(text@, from as int) =~= lines_of(text@));
    }
    assert(texts(lines@) =~= lines_of(text@));
    lines
}

/// Whether `a` comes before `b`.
pub fn comes_before(a: &[u8], b: &[u8]) -> (before: bool)
    ensures
        before == bytes_before(a@, b@),
{
    let mut k: usize = 0;
    while k < a.len() && k < b.len() && a[k] == b[k]
        invariant
            k <= a@.len(),
            k <= b@.len(),
            forall|i: int| 0 <= i < k ==> a@[i] == b@[i],
        decreases a@.len() - k,
    {
        k = k + 1;
    }
    let before: bool = k < b.len() && (k == a.len() || a[k] < b[k]);
    proof {
        if before {
            assert(differ_at(a@, b@, k as int));
        } else if bytes_before(a@, b@) {
            let j = choose|j: int| differ_at(a@, b@, j);
            if k < j {
                assert(a@[k as int] == b@[k as int]);
            }
        }
    }
    before
}

/// Appends a character: `String::push`. The text afterwards is the text before
/// with the character behind it.
pub assume_specification[ String::push ](string: &mut String, ch: char)
    ensures
        final(string)@ == old(string)@.push(ch),
;

/// The lower-case form of a text: `str::to_lowercase`, which follows the case
/// mappings of Unicode. Its result is named `lowercase`. Two facts are claimed
/// of it: a text of ASCII characters has its letters mapped one by one, and no
/// result holds an upper-case letter of ASCII.
#[verifier::external_body]
pub(crate) fn to_lowercase(text: &str) -> (lower: String)
    ensures
        lower@ == lowercase(text@),
        is_ascii_chars(text@) ==> lower@ == lower_ascii(text@),
        forall|i: int| 0 <= i < lower@.len() ==> !is_ascii_upper(#[trigger] lower@[i]),
{
    text.to_lowercase()
}

/// Bytes read as UTF-8: `String::from_utf8_lossy`. Its result is named
/// `lossy_text`; of bytes that are UTF-8 it is the text that they encode.
#[verifier::external_body]
pub(crate) fn decode_lossy(bytes: &[u8]) -> (text: String)
    ensures
        text@ == lossy_text(bytes@),
        valid_utf8(bytes@) ==> text@ == decode_utf8(bytes@),
{
    String::from_utf8_lossy(bytes).into_owned()
}

} // verus!
