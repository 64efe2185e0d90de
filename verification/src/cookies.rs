//! Cookie profiles: their names, their files and their list.
//!
//! A profile is a cookies.txt that the user imported under a name of their
//! choice. It is stored as `<name>.txt` in one directory.

use vstd::prelude::*;
use vstd::string::*;
use vstd::utf8::*;

use crate::text;

verus! {

broadcast use vstd::string::group_string_axioms;

/// The length to which a profile name is cut.
pub const MAX_NAME: usize = 64;

/// A stored profile.
#[derive(Debug)]
pub struct CookieEntry {
    pub name: String,
    pub path: String,
}

/// An entry of the directory that holds the profiles.
#[derive(Debug)]
pub struct ListedFile {
    pub file_name: String,
    pub path: String,
    pub is_file: bool,
}

/// Where an imported profile goes.
#[derive(Debug)]
pub struct CookieImport {
    /// The name under which the profile is known from now on.
    pub name: String,
    /// The name of its file.
    pub file_name: String,
}

/// A lower-case letter or a digit.
pub open spec fn is_lower_or_digit(c: char) -> bool {
    'a' <= c <= 'z' || '0' <= c <= '9'
}

/// A letter or a digit of ASCII.
pub open spec fn is_alphanumeric(c: char) -> bool {
    is_lower_or_digit(c) || text::is_ascii_upper(c)
}

/// One of the three marks that a name may hold inside.
pub open spec fn is_mark(c: char) -> bool {
    c == '.' || c == '_' || c == '-'
}

/// The character that stands for `c` in a name.
pub open spec fn name_char(c: char) -> char {
    if is_alphanumeric(c) || is_mark(c) {
        c
    } else {
        '_'
    }
}

/// `lower` with everything replaced that a name cannot hold.
pub open spec fn cleaned(lower: Seq<char>) -> Seq<char> {
    Seq::new(lower.len(), |i: int| name_char(lower[i]))
}

/// `name` without the marks at its start.
pub open spec fn trim_start(name: Seq<char>) -> Seq<char>
    decreases name.len(),
{
    if name.len() > 0 && is_mark(name[0]) {
        trim_start(name.drop_first())
    } else {
        name
    }
}

/// `name` without the marks at its end.
pub open spec fn trim_end(name: Seq<char>) -> Seq<char>
    decreases name.len(),
{
    if name.len() > 0 && is_mark(name.last()) {
        trim_end(name.drop_last())
    } else {
        name
    }
}

/// The start of `name`, as long as a name may be.
pub open spec fn capped(name: Seq<char>) -> Seq<char> {
    if name.len() <= MAX_NAME {
        name
    } else {
        name.take(MAX_NAME as int)
    }
}

/// The profile name that `lower`, a text in lower case, is made into.
pub open spec fn sanitized(lower: Seq<char>) -> Option<Seq<char>> {
    let trimmed = trim_end(trim_start(cleaned(lower)));
    if trimmed.len() == 0 {
        None
    } else {
        Some(trim_end(capped(trimmed)))
    }
}

/// `name` can be the name of a profile: it is not empty, not too long, starts
/// and ends with a letter or a digit, and holds only lower-case letters, digits
/// and marks.
pub open spec fn is_profile_name(name: Seq<char>) -> bool {
    &&& 0 < name.len() <= MAX_NAME
    &&& is_lower_or_digit(name[0])
    &&& is_lower_or_digit(name.last())
    &&& forall|i: int|
        0 <= i < name.len() ==> is_lower_or_digit(#[trigger] name[i]) || is_mark(name[i])
}

/// The file of a profile.
pub open spec fn file_of(name: Seq<char>) -> Seq<char> {
    name + ".txt"@
}

/// What cleaning the name `raw` may give.
pub open spec fn is_cleaning(raw: Seq<char>, name: Result<String, String>) -> bool {
    match name {
        Ok(n) => sanitized(text::lowercase(raw)) == Some(n@),
        Err(e) => sanitized(text::lowercase(raw)) is None && e@
            == "cookie name must contain at least one letter or digit"@,
    }
}

/// What an import under the name `raw` may give.
pub open spec fn is_import(raw: Seq<char>, import: Result<CookieImport, String>) -> bool {
    match import {
        Ok(i) => {
            &&& sanitized(text::lowercase(raw)) == Some(i.name@)
            &&& is_profile_name(i.name@)
            &&& is_profile_name(raw) ==> i.name@ == raw
            &&& i.file_name@ == file_of(i.name@)
        },
        Err(e) => {
            &&& sanitized(text::lowercase(raw)) is None
            &&& !is_profile_name(raw)
            &&& e@ == "cookie name must contain at least one letter or digit"@
        },
    }
}

/// What a deletion under the name `raw` may give: the file of the profile that
/// an import under this name makes.
pub open spec fn is_deletion(raw: Seq<char>, file_name: Result<String, String>) -> bool {
    match file_name {
        Ok(f) => {
            &&& sanitized(text::lowercase(raw)) matches Some(name)
            &&& is_profile_name(name)
            &&& is_profile_name(raw) ==> name == raw
            &&& f@ == file_of(name)
        },
        Err(e) => {
            &&& sanitized(text::lowercase(raw)) is None
            &&& !is_profile_name(raw)
            &&& e@ == "cookie name must contain at least one letter or digit"@
        },
    }
}

/// The profile that a file holds, by the name of the file.
pub open spec fn profile_of(file_name: Seq<char>) -> Option<Seq<char>> {
    let n = file_name.len() as int;
    if n > 4 && file_name.subrange(n - 4, n) == ".txt"@ {
        Some(file_name.take(n - 4))
    } else {
        None
    }
}

impl ListedFile {
    /// The profile that this entry holds, if it holds one.
    pub open spec fn profile(self) -> Option<Seq<char>> {
        if self.is_file {
            profile_of(self.file_name@)
        } else {
            None
        }
    }
}

impl CookieEntry {
    /// The name and the path.
    pub open spec fn parts(self) -> (Seq<char>, Seq<char>) {
        (self.name@, self.path@)
    }
}

/// The names and paths of a list of profiles.
pub open spec fn parts_of(entries: Seq<CookieEntry>) -> Seq<(Seq<char>, Seq<char>)> {
    Seq::new(entries.len(), |i: int| entries[i].parts())
}

/// The profiles in a directory, in the order of its entries.
pub open spec fn profiles_in(files: Seq<ListedFile>) -> Seq<(Seq<char>, Seq<char>)>
    decreases files.len(),
{
    if files.len() == 0 {
        Seq::empty()
    } else {
        let before = profiles_in(files.drop_last());
        match files.last().profile() {
            Some(name) => before.push((name, files.last().path@)),
            None => before,
        }
    }
}

/// The entries of a directory that are called `file_name`.
pub open spec fn called(files: Seq<ListedFile>, file_name: Seq<char>) -> Seq<ListedFile> {
    files.filter(is_called(file_name))
}

/// Tells the entries of a directory that are called `file_name`.
pub open spec fn is_called(file_name: Seq<char>) -> spec_fn(ListedFile) -> bool {
    |file: ListedFile| file.file_name@ == file_name
}

/// Two states of a directory hold the same entries, in whatever order, but for
/// those that are called `file_name`.
pub open spec fn differ_only_in(
    before: Seq<ListedFile>,
    after: Seq<ListedFile>,
    file_name: Seq<char>,
) -> bool {
    forall|other: Seq<char>|
        other != file_name ==> #[trigger] called(before, other) == called(after, other)
}

/// The profiles of a list that have the name `name`.
pub open spec fn named(list: Seq<(Seq<char>, Seq<char>)>, name: Seq<char>) -> Seq<
    (Seq<char>, Seq<char>),
> {
    list.filter(has_name(name))
}

/// Tells the profiles that have the name `name`.
pub open spec fn has_name(name: Seq<char>) -> spec_fn((Seq<char>, Seq<char>)) -> bool {
    |entry: (Seq<char>, Seq<char>)| entry.0 == name
}

/// No profile of a list comes after one whose name is larger; names are
/// compared by their bytes.
pub open spec fn in_order(list: Seq<(Seq<char>, Seq<char>)>) -> bool {
    forall|i: int, j: int|
        0 <= i < j < list.len() ==> !text::bytes_before(
            encode_utf8((#[trigger] list[j]).0),
            encode_utf8((#[trigger] list[i]).0),
        )
}

/// `sorted` holds the profiles of `list` in the order of their names, and those
/// of one name in the order that they have in `list`.
pub open spec fn sorts(
    sorted: Seq<(Seq<char>, Seq<char>)>,
    list: Seq<(Seq<char>, Seq<char>)>,
) -> bool {
    &&& in_order(sorted)
    &&& forall|name: Seq<char>| #[trigger] named(sorted, name) == named(list, name)
}

/// Makes a name that a user entered into a safe file stem: in lower case,
/// restricted to letters, digits and `.`, `_`, `-`, with none of these three at
/// either end, and cut to a maximal length. A name without a letter or a digit
/// is refused.
pub fn sanitize_cookie_name(raw: &str) -> (name: Result<String, String>)
    ensures
        is_cleaning(raw@, name),
        name is Ok <==> exists|i: int|
            0 <= i < text::lowercase(raw@).len() && is_alphanumeric(
                #[trigger] text::lowercase(raw@)[i],
            ),
        name matches Ok(n) ==> is_profile_name(n@),
        is_profile_name(raw@) ==> (name matches Ok(n) && n@ == raw@),
        is_ascii_chars(raw@) ==> text::lowercase(raw@) == text::lower_ascii(raw@),
{
    let lower: String = text::to_lowercase(raw);
    let name: Option<String> = clean_name(lower.as_str());
    proof {
        lemma_refused(lower@);
        lemma_sanitized_is_profile_name(lower@);
        if is_profile_name(raw@) {
            lemma_profile_name_is_ascii(raw@);
            law_profile_name_is_kept(raw@);
        }
    }
    match name {
        Some(n) => Ok(n),
        None => Err("cookie name must contain at least one letter or digit".to_owned()),
    }
}

/// Makes a text that is in lower case already into a profile name.
pub fn clean_name(lower: &str) -> (name: Option<String>)
    ensures
        text::opt_text(name) == sanitized(lower@),
{
    let mut chars: Vec<char> = text::chars_of(lower);
    let mut i: usize = 0;
    while i < chars.len()
        invariant
            i <= chars@.len() == lower@.len(),
            forall|k: int| 0 <= k < i ==> chars@[k] == name_char(lower@[k]),
            forall|k: int| i <= k < chars@.len() ==> chars@[k] == lower@[k],
        decreases chars@.len() - i,
    {
        let c: char = chars[i];
        if !(is_alphanumeric_char(c) || is_mark_char(c)) {
            chars.set(i, '_');
        }
        i = i + 1;
    }
    assert(chars@ =~= cleaned(lower@));
    let mut start: usize = 0;
    assert(chars@.skip(0) =~= chars@);
    while start < chars.len() && is_mark_char(chars[start])
        invariant
            start <= chars@.len(),
            chars@ == cleaned(lower@),
            trim_start(chars@) == trim_start(chars@.skip(start as int)),
        decreases chars@.len() - start,
    {
        assert(chars@.skip(start as int).drop_first() =~= chars@.skip(start + 1));
        start = start + 1;
    }
    let ghost rest = trim_start(cleaned(lower@));
    assert(rest =~= chars@.skip(start as int));
    assert(rest =~= chars@.subrange(start as int, chars@.len() as int));
    let mut end: usize = trimmed_end(&chars, start, chars.len());
    if end == start {
        return None;
    }
    let ghost trimmed = trim_end(rest);
    if end - start > MAX_NAME {
        end = start + MAX_NAME;
    }
    assert(capped(trimmed) =~= chars@.subrange(start as int, end as int));
    let end: usize = trimmed_end(&chars, start, end);
    Some(text::string_of(&chars, start, end))
}

/// Where the characters from `start` to `end` end without the marks at their end.
fn trimmed_end(chars: &Vec<char>, start: usize, end: usize) -> (trimmed: usize)
    requires
        start <= end <= chars@.len(),
    ensures
        start <= trimmed <= end,
        chars@.subrange(start as int, trimmed as int) == trim_end(
            chars@.subrange(start as int, end as int),
        ),
{
    let mut trimmed: usize = end;
    while trimmed > start && is_mark_char(chars[trimmed - 1])
        invariant
            start <= trimmed <= end <= chars@.len(),
            trim_end(chars@.subrange(start as int, end as int)) == trim_end(
                chars@.subrange(start as int, trimmed as int),
            ),
        decreases trimmed - start,
    {
        assert(chars@.subrange(start as int, trimmed as int).drop_last() =~= chars@.subrange(
            start as int,
            trimmed - 1,
        ));
        trimmed = trimmed - 1;
    }
    trimmed
}

fn is_alphanumeric_char(c: char) -> (yes: bool)
    ensures
        yes == is_alphanumeric(c),
{
    ('a' <= c && c <= 'z') || ('0' <= c && c <= '9') || ('A' <= c && c <= 'Z')
}

fn is_mark_char(c: char) -> (yes: bool)
    ensures
        yes == is_mark(c),
{
    c == '.' || c == '_' || c == '-'
}

/// Trimming the start leaves a final part that starts with no mark.
proof fn lemma_trim_start(name: Seq<char>)
    ensures
        trim_start(name).len() <= name.len(),
        trim_start(name) == name.skip(name.len() - trim_start(name).len()),
        trim_start(name).len() > 0 ==> !is_mark(trim_start(name)[0]),
        forall|i: int| 0 <= i < name.len() - trim_start(name).len() ==> is_mark(#[trigger] name[i]),
    decreases name.len(),
{
    if name.len() > 0 && is_mark(name[0]) {
        let rest = name.drop_first();
        lemma_trim_start(rest);
        let k = rest.len() - trim_start(rest).len();
        assert(rest.skip(k) =~= name.skip(k + 1));
        assert forall|i: int| 0 <= i < k + 1 implies is_mark(#[trigger] name[i]) by {
            if i > 0 {
                assert(rest[i - 1] == name[i]);
            }
        }
    } else {
        assert(name.skip(0) =~= name);
    }
}

/// Trimming the end leaves a first part that ends with no mark.
proof fn lemma_trim_end(name: Seq<char>)
    ensures
        trim_end(name).len() <= name.len(),
        trim_end(name) == name.take(trim_end(name).len() as int),
        trim_end(name).len() > 0 ==> !is_mark(trim_end(name).last()),
        forall|i: int| trim_end(name).len() <= i < name.len() ==> is_mark(#[trigger] name[i]),
    decreases name.len(),
{
    if name.len() > 0 && is_mark(name.last()) {
        let rest = name.drop_last();
        lemma_trim_end(rest);
        let k = trim_end(rest).len() as int;
        assert(rest.take(k) =~= name.take(k));
        assert forall|i: int| k <= i < name.len() implies is_mark(#[trigger] name[i]) by {
            if i < rest.len() {
                assert(rest[i] == name[i]);
            }
        }
    } else {
        assert(name.take(name.len() as int) =~= name);
    }
}

/// A text is refused exactly if it holds no letter or digit.
proof fn lemma_refused(lower: Seq<char>)
    ensures
        sanitized(lower) is None <==> forall|i: int|
            0 <= i < lower.len() ==> !is_alphanumeric(#[trigger] lower[i]),
{
    let clean = cleaned(lower);
    let rest = trim_start(clean);
    let trimmed = trim_end(rest);
    lemma_trim_start(clean);
    lemma_trim_end(rest);
    let k = clean.len() - rest.len();
    if trimmed.len() == 0 {
        assert forall|i: int| 0 <= i < lower.len() implies !is_alphanumeric(#[trigger] lower[i]) by {
            if i < k {
                assert(is_mark(clean[i]));
            } else {
                assert(rest[i - k] == clean[i]);
                assert(is_mark(rest[i - k]));
            }
        }
    } else {
        assert(rest[0] == clean[k]);
        assert(trimmed[0] == rest[0]);
        assert(is_alphanumeric(lower[k]));
    }
}

/// A name made from a text without upper-case letters is a profile name.
proof fn lemma_sanitized_is_profile_name(lower: Seq<char>)
    requires
        forall|i: int| 0 <= i < lower.len() ==> !text::is_ascii_upper(#[trigger] lower[i]),
    ensures
        sanitized(lower) matches Some(name) ==> is_profile_name(name),
{
    let clean = cleaned(lower);
    let rest = trim_start(clean);
    let trimmed = trim_end(rest);
    lemma_trim_start(clean);
    lemma_trim_end(rest);
    let k = clean.len() - rest.len();
    if trimmed.len() > 0 {
        let cut = capped(trimmed);
        let name = trim_end(cut);
        lemma_trim_end(cut);
        assert(cut[0] == trimmed[0]);
        assert(trimmed[0] == rest[0]);
        assert(name.len() > 0);
        assert forall|i: int| 0 <= i < name.len() implies is_lower_or_digit(#[trigger] name[i])
            || is_mark(name[i]) by {
            assert(name[i] == cut[i]);
            assert(cut[i] == trimmed[i]);
            assert(trimmed[i] == rest[i]);
            assert(rest[i] == clean[i + k]);
            assert(!text::is_ascii_upper(lower[i + k]));
        }
        assert(name[0] == cut[0]);
        assert(!is_mark(name[name.len() - 1]));
    }
}

proof fn lemma_profile_name_is_ascii(name: Seq<char>)
    requires
        is_profile_name(name),
    ensures
        is_ascii_chars(name),
        text::lower_ascii(name) == name,
{
    assert forall|i: int| 0 <= i < name.len() implies '\0' <= #[trigger] name[i] <= '\u{7f}' by {
        assert(is_lower_or_digit(name[i]) || is_mark(name[i]));
    }
    assert forall|i: int| 0 <= i < name.len() implies #[trigger] text::lower_ascii(name)[i]
        == name[i] by {
        assert(is_lower_or_digit(name[i]) || is_mark(name[i]));
    }
    assert(text::lower_ascii(name) =~= name);
}

/// A name that is a profile name already is kept as it is.
pub proof fn law_profile_name_is_kept(name: Seq<char>)
    requires
        is_profile_name(name),
    ensures
        sanitized(name) == Some(name),
{
    assert forall|i: int| 0 <= i < name.len() implies #[trigger] cleaned(name)[i] == name[i] by {
        assert(is_lower_or_digit(name[i]) || is_mark(name[i]));
    }
    assert(cleaned(name) =~= name);
    lemma_trim_start(name);
    assert(trim_start(name) == name);
    assert(trim_end(name) == name);
}

/// A cleaned name is read off the text in lower case from its first letter or
/// digit to its last one among the 64 characters from there on. Letters, digits,
/// dots, underscores and hyphens are kept, and anything else becomes an
/// underscore.
pub proof fn law_name_is_read_off_text(lower: Seq<char>, name: Seq<char>) -> (start: int)
    requires
        sanitized(lower) == Some(name),
    ensures
        0 <= start,
        0 < name.len() <= 64,
        start + name.len() <= lower.len(),
        forall|i: int|
            0 <= i < name.len() ==> #[trigger] name[i] == (if 'a' <= lower[start + i] <= 'z'
                || 'A' <= lower[start + i] <= 'Z' || '0' <= lower[start + i] <= '9' || lower[start
                + i] == '.' || lower[start + i] == '_' || lower[start + i] == '-' {
                lower[start + i]
            } else {
                '_'
            }),
        name[0] != '.' && name[0] != '_' && name[0] != '-',
        name.last() != '.' && name.last() != '_' && name.last() != '-',
        forall|i: int|
            (0 <= i < start || (start + name.len() <= i < lower.len() && i < start + 64)) ==> !('a'
                <= #[trigger] lower[i] <= 'z' || 'A' <= lower[i] <= 'Z' || '0' <= lower[i] <= '9'),
{
    let clean = cleaned(lower);
    let rest = trim_start(clean);
    let trimmed = trim_end(rest);
    let cut = capped(trimmed);
    lemma_trim_start(clean);
    lemma_trim_end(rest);
    lemma_trim_end(cut);
    let start = clean.len() - rest.len();
    assert(cut[0] == trimmed[0]);
    assert(trimmed[0] == rest[0]);
    assert forall|i: int| 0 <= i < name.len() implies #[trigger] name[i] == name_char(
        lower[start + i],
    ) by {
        assert(name[i] == cut[i]);
        assert(cut[i] == trimmed[i]);
        assert(trimmed[i] == rest[i]);
        assert(rest[i] == clean[start + i]);
    }
    assert forall|i: int|
        (0 <= i < start || (start + name.len() <= i < lower.len() && i < start
            + 64)) implies !is_alphanumeric(#[trigger] lower[i]) by {
        assert(clean[i] == name_char(lower[i]));
        if i < start {
            assert(is_mark(clean[i]));
        } else {
            assert(rest[i - start] == clean[i]);
            if i - start < trimmed.len() {
                assert(trimmed[i - start] == rest[i - start]);
                assert(cut[i - start] == trimmed[i - start]);
                assert(is_mark(cut[i - start]));
            } else {
                assert(is_mark(rest[i - start]));
            }
        }
    }
    start
}

/// A name is refused exactly if its lower-case form holds no letter or digit, and
/// the refusal says so.
pub proof fn law_name_without_letter_is_refused(raw: Seq<char>, name: Result<String, String>)
    requires
        is_cleaning(raw, name),
    ensures
        name is Err <==> forall|i: int|
            0 <= i < text::lowercase(raw).len() ==> !('a' <= #[trigger] text::lowercase(raw)[i]
                <= 'z' || 'A' <= text::lowercase(raw)[i] <= 'Z' || '0' <= text::lowercase(raw)[i]
                <= '9'),
        name matches Err(e) ==> e@ == "cookie name must contain at least one letter or digit"@,
        name matches Ok(n) ==> sanitized(text::lowercase(raw)) == Some(n@),
{
    let lower = text::lowercase(raw);
    lemma_refused(lower);
    assert forall|i: int| 0 <= i < lower.len() implies (is_alphanumeric(#[trigger] lower[i])
        <==> 'a' <= lower[i] <= 'z' || 'A' <= lower[i] <= 'Z' || '0' <= lower[i] <= '9') by {
    }
}

/// A profile name holds small letters, digits, dots, underscores and hyphens
/// alone, at most 64 of them, and starts and ends with a letter or a digit.
pub proof fn law_profile_name_is_plain(name: Seq<char>)
    ensures
        is_profile_name(name) <==> {
            &&& 1 <= name.len() <= 64
            &&& 'a' <= name[0] <= 'z' || '0' <= name[0] <= '9'
            &&& 'a' <= name.last() <= 'z' || '0' <= name.last() <= '9'
            &&& forall|i: int|
                0 <= i < name.len() ==> 'a' <= #[trigger] name[i] <= 'z' || '0' <= name[i] <= '9'
                    || name[i] == '.' || name[i] == '_' || name[i] == '-'
        },
{
}

/// An import and a deletion under one name speak of the cleaned name and of the
/// file that has ".txt" behind it, and both are refused as the name is.
pub proof fn law_import_and_deletion_clean_name(
    raw: Seq<char>,
    name: Result<String, String>,
    import: Result<CookieImport, String>,
    deletion: Result<String, String>,
)
    requires
        is_cleaning(raw, name),
        is_import(raw, import),
        is_deletion(raw, deletion),
    ensures
        match name {
            Ok(n) => {
                &&& import matches Ok(i) && i.name@ == n@ && i.file_name@ == n@ + ".txt"@
                &&& deletion matches Ok(f) && f@ == n@ + ".txt"@
            },
            Err(e) => {
                &&& import matches Err(x) && x@ == e@
                &&& deletion matches Err(x) && x@ == e@
            },
        },
{
}

/// An entry of a directory holds a profile exactly if it is a file whose name is
/// that of the profile, which is not empty, with ".txt" behind it.
pub proof fn law_text_files_hold_profiles(file: ListedFile, name: Seq<char>)
    ensures
        file.profile() == Some(name) <==> file.is_file && name.len() > 0 && file.file_name@ == name
            + ".txt"@,
        profile_of(file.file_name@) == Some(name) <==> name.len() > 0 && file.file_name@ == name
            + ".txt"@,
{
    reveal_strlit(".txt");
    lemma_profile_has_one_file(file.file_name@);
    if name.len() > 0 {
        law_file_leads_back_to_profile(name);
    }
}

/// The list of profiles runs from the smallest name to the largest; names are
/// compared by their bytes.
pub proof fn law_list_is_in_order(
    files: Seq<ListedFile>,
    list: Seq<(Seq<char>, Seq<char>)>,
    i: int,
    j: int,
)
    requires
        sorts(list, profiles_in(files)),
        0 <= i < j < list.len(),
    ensures
        text::bytes_before(encode_utf8(list[i].0), encode_utf8(list[j].0)) || list[i].0
            == list[j].0,
{
    let x = encode_utf8(list[i].0);
    let y = encode_utf8(list[j].0);
    assert(!text::bytes_before(y, x));
    text::lemma_bytes_total(x, y);
    encode_utf8_decode_utf8(list[i].0);
    encode_utf8_decode_utf8(list[j].0);
}

/// The profiles of one name are those of the entries that are called by it, in
/// the order of the directory. An empty directory has no profiles, and one more
/// entry adds one profile if it is a file that holds one, and none otherwise.
pub proof fn law_each_file_is_listed_once(
    files: Seq<ListedFile>,
    list: Seq<(Seq<char>, Seq<char>)>,
    file: ListedFile,
    name: Seq<char>,
)
    requires
        sorts(list, profiles_in(files)),
    ensures
        named(list, name) == profiles_in(called(files, name + ".txt"@)),
        profiles_in(Seq::<ListedFile>::empty()).len() == 0,
        !file.is_file ==> profiles_in(files.push(file)) == profiles_in(files),
        file.is_file && name.len() > 0 && file.file_name@ == name + ".txt"@ ==> profiles_in(
            files.push(file),
        ) == profiles_in(files).push((name, file.path@)),
{
    assert(named(list, name) == named(profiles_in(files), name));
    lemma_profiles_come_from_their_file(files, name);
    assert(files.push(file).drop_last() =~= files);
    if name.len() > 0 {
        law_file_leads_back_to_profile(name);
    }
}

/// Each entry of the list of profiles gives the name and the path of a file of
/// the directory that has ".txt" behind the name.
pub proof fn law_entry_names_its_file(
    files: Seq<ListedFile>,
    entries: Seq<CookieEntry>,
    i: int,
) -> (k: int)
    requires
        sorts(parts_of(entries), profiles_in(files)),
        0 <= i < entries.len(),
    ensures
        0 <= k < files.len(),
        files[k].is_file,
        files[k].file_name@ == entries[i].name@ + ".txt"@,
        files[k].path@ == entries[i].path@,
{
    law_listed_profile_has_file(files, parts_of(entries), i)
}

/// Each listed profile has its file in the directory.
pub proof fn law_listed_profile_has_file(
    files: Seq<ListedFile>,
    list: Seq<(Seq<char>, Seq<char>)>,
    i: int,
) -> (k: int)
    requires
        sorts(list, profiles_in(files)),
        0 <= i < list.len(),
    ensures
        0 <= k < files.len(),
        files[k].is_file,
        files[k].file_name@ == list[i].0 + ".txt"@,
        files[k].path@ == list[i].1,
{
    let name = list[i].0;
    let all = profiles_in(files);
    list.lemma_filter_contains(has_name(name), i);
    assert(named(list, name) == named(all, name));
    all.lemma_filter_contains_rev(has_name(name), list[i]);
    let m = choose|m: int| 0 <= m < all.len() && all[m] == list[i];
    lemma_profile_comes_from_file(files, m)
}

proof fn lemma_profile_comes_from_file(files: Seq<ListedFile>, m: int) -> (k: int)
    requires
        0 <= m < profiles_in(files).len(),
    ensures
        0 <= k < files.len(),
        files[k].is_file,
        files[k].file_name@ == file_of(profiles_in(files)[m].0),
        files[k].path@ == profiles_in(files)[m].1,
    decreases files.len(),
{
    let rest = files.drop_last();
    if m < profiles_in(rest).len() {
        lemma_profile_comes_from_file(rest, m)
    } else {
        lemma_profile_has_one_file(files.last().file_name@);
        files.len() - 1
    }
}

/// A name that came out of the cleaning is not changed by another cleaning.
pub proof fn law_cleaning_twice_changes_nothing(lower: Seq<char>)
    requires
        forall|i: int| 0 <= i < lower.len() ==> !text::is_ascii_upper(#[trigger] lower[i]),
        sanitized(lower) is Some,
    ensures
        is_profile_name(sanitized(lower)->0),
        sanitized(sanitized(lower)->0) == sanitized(lower),
{
    lemma_sanitized_is_profile_name(lower);
    law_profile_name_is_kept(sanitized(lower)->0);
}

/// A profile name names a file of the profile directory itself: it holds no path
/// separator and is none of the names that lead elsewhere.
pub proof fn law_profile_name_stays_in_directory(name: Seq<char>)
    requires
        is_profile_name(name),
    ensures
        !file_of(name).contains('/'),
        !file_of(name).contains('\\'),
        file_of(name) != "."@,
        file_of(name) != ".."@,
{
    reveal_strlit(".txt");
    reveal_strlit(".");
    reveal_strlit("..");
    let file = file_of(name);
    assert forall|i: int| 0 <= i < file.len() implies #[trigger] file[i] != '/' && file[i] != '\\' by {
        if i < name.len() {
            assert(file[i] == name[i]);
            assert(is_lower_or_digit(name[i]) || is_mark(name[i]));
        }
    }
    assert(file[0] == name[0]);
}

/// The file of a profile.
pub fn file_name_of(name: &str) -> (file_name: String)
    ensures
        file_name@ == file_of(name@),
{
    let mut file_name: String = name.to_owned();
    file_name.append(".txt");
    file_name
}

/// Where a profile goes that is imported under the name `name`.
pub fn import_cookie(name: &str) -> (import: Result<CookieImport, String>)
    ensures
        is_import(name@, import),
        is_ascii_chars(name@) ==> text::lowercase(name@) == text::lower_ascii(name@),
{
    match sanitize_cookie_name(name) {
        Ok(clean) => {
            let file_name: String = file_name_of(clean.as_str());
            Ok(CookieImport { name: clean, file_name })
        },
        Err(e) => Err(e),
    }
}

/// What the user is told when a cookie file cannot be copied.
pub fn copy_failure(error: &str) -> (message: String)
    ensures
        message@ == "failed to copy cookies: "@ + error@,
{
    let mut message: String = "failed to copy cookies: ".to_owned();
    message.append(error);
    message
}

/// The file that goes when the profile `name` is deleted. The name is cleaned as
/// for an import, so the name that an import gave leads back to its file.
pub fn delete_cookie(name: &str) -> (file_name: Result<String, String>)
    ensures
        is_deletion(name@, file_name),
        is_ascii_chars(name@) ==> text::lowercase(name@) == text::lower_ascii(name@),
{
    match sanitize_cookie_name(name) {
        Ok(clean) => Ok(file_name_of(clean.as_str())),
        Err(e) => Err(e),
    }
}

/// The profile that a file holds, by the name of the file.
pub fn profile_stem(file_name: &str) -> (stem: Option<String>)
    ensures
        text::opt_text(stem) == profile_of(file_name@),
{
    let chars: Vec<char> = text::chars_of(file_name);
    let n: usize = chars.len();
    proof {
        reveal_strlit(".txt");
    }
    if n > 4 && chars[n - 4] == '.' && chars[n - 3] == 't' && chars[n - 2] == 'x' && chars[n - 1]
        == 't' {
        assert(file_name@.subrange(n - 4, n as int) =~= ".txt"@);
        let stem: String = text::string_of(&chars, 0, n - 4);
        assert(stem@ =~= file_name@.take(n - 4));
        Some(stem)
    } else {
        proof {
            if n > 4 {
                let end = file_name@.subrange(n - 4, n as int);
                assert(end[0] == chars@[n - 4]);
                assert(end[1] == chars@[n - 3]);
                assert(end[2] == chars@[n - 2]);
                assert(end[3] == chars@[n - 1]);
            }
        }
        None
    }
}

/// All stored profiles, in the order of their names.
pub fn list_cookies(files: &Vec<ListedFile>) -> (list: Vec<CookieEntry>)
    ensures
        sorts(parts_of(list@), profiles_in(files@)),
{
    let mut list: Vec<CookieEntry> = Vec::new();
    let mut i: usize = 0;
    assert(parts_of(list@) =~= Seq::empty());
    assert(profiles_in(files@.take(0)) =~= Seq::empty());
    while i < files.len()
        invariant
            i <= files@.len(),
            sorts(parts_of(list@), profiles_in(files@.take(i as int))),
        decreases files@.len() - i,
    {
        let ghost before = profiles_in(files@.take(i as int));
        let ghost sorted = parts_of(list@);
        assert(files@.take(i + 1).drop_last() =~= files@.take(i as int));
        assert(files@.take(i + 1).last() == files@[i as int]);
        if files[i].is_file {
            if let Some(stem) = profile_stem(files[i].file_name.as_str()) {
                let entry: CookieEntry = CookieEntry { name: stem, path: files[i].path.clone() };
                let ghost parts = entry.parts();
                insert_in_order(&mut list, entry);
                assert forall|name: Seq<char>| #[trigger]
                    named(parts_of(list@), name) == named(before.push(parts), name) by {
                    assert(named(parts_of(list@), name) == named(sorted.push(parts), name));
                    assert(named(sorted, name) == named(before, name));
                    lemma_named_push(sorted, parts, name);
                    lemma_named_push(before, parts, name);
                }
            }
        }
        i = i + 1;
    }
    assert(files@.take(files@.len() as int) =~= files@);
    list
}

/// Puts a profile behind those whose names are not larger.
fn insert_in_order(list: &mut Vec<CookieEntry>, entry: CookieEntry)
    requires
        in_order(parts_of(old(list)@)),
    ensures
        in_order(parts_of(final(list)@)),
        forall|name: Seq<char>| #[trigger]
            named(parts_of(final(list)@), name) == named(
                parts_of(old(list)@).push(entry.parts()),
                name,
            ),
{
    let ghost before = parts_of(list@);
    let ghost parts = entry.parts();
    let mut at: usize = list.len();
    while at > 0 && text::comes_before(
        entry.name.as_str().as_bytes(),
        list[at - 1].name.as_str().as_bytes(),
    )
        invariant
            at <= list@.len(),
            before == parts_of(list@),
            parts == entry.parts(),
            forall|k: int|
                at <= k < list@.len() ==> text::bytes_before(
                    encode_utf8(parts.0),
                    encode_utf8((#[trigger] before[k]).0),
                ),
        decreases at,
    {
        assert(before[at - 1] == list@[at - 1].parts());
        at = at - 1;
    }
    proof {
        if at > 0 {
            assert(before[at - 1] == list@[at - 1].parts());
        }
    }
    list.insert(at, entry);
    proof {
        assert(parts_of(list@) =~= before.insert(at as int, parts));
        lemma_insert_keeps_order(before, parts, at as int);
    }
}

proof fn lemma_named_push(
    list: Seq<(Seq<char>, Seq<char>)>,
    entry: (Seq<char>, Seq<char>),
    name: Seq<char>,
)
    ensures
        named(list.push(entry), name) == if entry.0 == name {
            named(list, name).push(entry)
        } else {
            named(list, name)
        },
{
    reveal(Seq::filter);
    assert(list.push(entry).drop_last() =~= list);
}

proof fn lemma_none_named(list: Seq<(Seq<char>, Seq<char>)>, name: Seq<char>)
    requires
        forall|i: int| 0 <= i < list.len() ==> (#[trigger] list[i]).0 != name,
    ensures
        named(list, name) == Seq::<(Seq<char>, Seq<char>)>::empty(),
    decreases list.len(),
{
    reveal(Seq::filter);
    if list.len() > 0 {
        let rest = list.drop_last();
        assert forall|i: int| 0 <= i < rest.len() implies (#[trigger] rest[i]).0 != name by {
            assert(rest[i] == list[i]);
        }
        lemma_none_named(rest, name);
        assert(list.last().0 != name);
    }
}

proof fn lemma_insert_keeps_order(
    list: Seq<(Seq<char>, Seq<char>)>,
    entry: (Seq<char>, Seq<char>),
    at: int,
)
    requires
        in_order(list),
        0 <= at <= list.len(),
        at > 0 ==> !text::bytes_before(encode_utf8(entry.0), encode_utf8(list[at - 1].0)),
        forall|k: int|
            at <= k < list.len() ==> text::bytes_before(
                encode_utf8(entry.0),
                encode_utf8((#[trigger] list[k]).0),
            ),
    ensures
        in_order(list.insert(at, entry)),
        forall|name: Seq<char>| #[trigger]
            named(list.insert(at, entry), name) == named(list.push(entry), name),
{
    let new = list.insert(at, entry);
    let key = encode_utf8(entry.0);
    assert forall|i: int, j: int| 0 <= i < j < new.len() implies !text::bytes_before(
        encode_utf8((#[trigger] new[j]).0),
        encode_utf8((#[trigger] new[i]).0),
    ) by {
        if i == at {
            assert(new[j] == list[j - 1]);
            text::lemma_bytes_asymmetric(key, encode_utf8(list[j - 1].0));
        } else if j == at {
            assert(new[i] == list[i]);
            if text::bytes_before(key, encode_utf8(list[i].0)) {
                let last = encode_utf8(list[at - 1].0);
                if i < at - 1 {
                    assert(!text::bytes_before(last, encode_utf8(list[i].0)));
                    text::lemma_bytes_total(last, encode_utf8(list[i].0));
                    if text::bytes_before(encode_utf8(list[i].0), last) {
                        text::lemma_bytes_transitive(key, encode_utf8(list[i].0), last);
                    }
                }
            }
        } else {
            let a = if i < at { i } else { i - 1 };
            let b = if j < at { j } else { j - 1 };
            assert(new[i] == list[a]);
            assert(new[j] == list[b]);
        }
    }
    assert forall|name: Seq<char>| #[trigger]
        named(new, name) == named(list.push(entry), name) by {
        let head = list.take(at);
        let tail = list.skip(at);
        let pred = has_name(name);
        assert(list =~= head + tail);
        assert(new =~= head.push(entry) + tail);
        Seq::filter_distributes_over_add(head.push(entry), tail, pred);
        Seq::filter_distributes_over_add(head, tail, pred);
        lemma_named_push(head, entry, name);
        lemma_named_push(list, entry, name);
        if entry.0 == name {
            assert forall|i: int| 0 <= i < tail.len() implies (#[trigger] tail[i]).0 != name by {
                assert(tail[i] == list[at + i]);
                text::lemma_bytes_asymmetric(key, encode_utf8(list[at + i].0));
            }
            lemma_none_named(tail, name);
        }
        assert(named(new, name) =~= named(list.push(entry), name));
    }
}

/// A profile is found again under its name by the name of its file.
pub proof fn law_file_leads_back_to_profile(name: Seq<char>)
    requires
        name.len() > 0,
    ensures
        profile_of(file_of(name)) == Some(name),
{
    reveal_strlit(".txt");
    let file = file_of(name);
    let n = file.len() as int;
    assert(file.subrange(n - 4, n) =~= ".txt"@);
    assert(file.take(n - 4) =~= name);
}

/// Only the file of a profile leads to the profile.
proof fn lemma_profile_has_one_file(file_name: Seq<char>)
    ensures
        profile_of(file_name) matches Some(name) ==> file_name == file_of(name),
{
    reveal_strlit(".txt");
    if let Some(name) = profile_of(file_name) {
        let n = file_name.len() as int;
        assert(file_name =~= name + file_name.subrange(n - 4, n));
    }
}

/// Whatever name a profile was imported under, deleting it by the name that the
/// import gave removes the file that the import made.
pub proof fn law_import_is_deleted_by_its_name(
    raw: Seq<char>,
    import: CookieImport,
    deletion: Result<String, String>,
)
    requires
        is_import(raw, Ok(import)),
        is_deletion(import.name@, deletion),
    ensures
        deletion matches Ok(file_name) && file_name@ == import.file_name@,
{
}

/// A name leads to the same file, or is refused, each time that it is deleted.
pub proof fn law_deletion_is_repeatable(
    raw: Seq<char>,
    first: Result<String, String>,
    second: Result<String, String>,
)
    requires
        is_deletion(raw, first),
        is_deletion(raw, second),
    ensures
        match first {
            Ok(file_name) => second matches Ok(again) && again@ == file_name@,
            Err(e) => second matches Err(again) && again@ == e@,
        },
{
}

/// A profile whose file is in the directory is listed, with the path of its file.
pub proof fn law_profile_with_file_is_listed(
    files: Seq<ListedFile>,
    list: Seq<(Seq<char>, Seq<char>)>,
    name: Seq<char>,
    at: int,
)
    requires
        sorts(list, profiles_in(files)),
        0 <= at < files.len(),
        files[at].is_file,
        files[at].file_name@ == file_of(name),
        name.len() > 0,
    ensures
        list.contains((name, files[at].path@)),
{
    let entry = (name, files[at].path@);
    let k = lemma_file_gives_profile(files, name, at);
    profiles_in(files).lemma_filter_contains(has_name(name), k);
    assert(named(list, name) == named(profiles_in(files), name));
    list.lemma_filter_contains_rev(has_name(name), entry);
}

proof fn lemma_file_gives_profile(files: Seq<ListedFile>, name: Seq<char>, at: int) -> (k: int)
    requires
        0 <= at < files.len(),
        files[at].is_file,
        files[at].file_name@ == file_of(name),
        name.len() > 0,
    ensures
        0 <= k < profiles_in(files).len(),
        profiles_in(files)[k] == (name, files[at].path@),
    decreases files.len(),
{
    if at == files.len() - 1 {
        law_file_leads_back_to_profile(name);
        profiles_in(files).len() - 1
    } else {
        lemma_file_gives_profile(files.drop_last(), name, at)
    }
}

/// A change of one file of the directory leaves the profiles of all other files
/// listed as they were.
pub proof fn law_other_profiles_stay_listed(
    before: Seq<ListedFile>,
    after: Seq<ListedFile>,
    list_before: Seq<(Seq<char>, Seq<char>)>,
    list_after: Seq<(Seq<char>, Seq<char>)>,
    name: Seq<char>,
)
    requires
        sorts(list_before, profiles_in(before)),
        sorts(list_after, profiles_in(after)),
        differ_only_in(before, after, file_of(name)),
    ensures
        forall|other: Seq<char>|
            other != name ==> #[trigger] named(list_after, other) == named(list_before, other),
{
    assert forall|other: Seq<char>| other != name implies #[trigger] named(list_after, other)
        == named(list_before, other) by {
        lemma_file_names_differ(name, other);
        assert(called(before, file_of(other)) == called(after, file_of(other)));
        lemma_profiles_come_from_their_file(before, other);
        lemma_profiles_come_from_their_file(after, other);
        assert(named(list_before, other) == named(profiles_in(before), other));
    }
}

proof fn lemma_file_names_differ(a: Seq<char>, b: Seq<char>)
    requires
        a != b,
    ensures
        file_of(a) != file_of(b),
{
    if file_of(a) == file_of(b) {
        let size = file_of(a).len() - ".txt"@.len();
        assert(file_of(a).take(size) =~= a);
        assert(file_of(b).take(size) =~= b);
    }
}

proof fn lemma_profiles_come_from_their_file(files: Seq<ListedFile>, name: Seq<char>)
    ensures
        named(profiles_in(files), name) == profiles_in(called(files, file_of(name))),
    decreases files.len(),
{
    reveal(Seq::filter);
    if files.len() > 0 {
        let rest = files.drop_last();
        let last = files.last();
        lemma_profiles_come_from_their_file(rest, name);
        lemma_profile_has_one_file(last.file_name@);
        if last.profile() is Some {
            lemma_named_push(profiles_in(rest), (last.profile()->0, last.path@), name);
        }
        let mine = called(rest, file_of(name));
        if last.file_name@ == file_of(name) {
            assert(mine.push(last).drop_last() =~= mine);
            if name.len() > 0 {
                law_file_leads_back_to_profile(name);
            }
        }
    }
}

/// Once the file of an import is in the directory, its profile is listed under
/// the name that the import gave, and all other profiles stay as they were.
pub proof fn law_import_is_listed(
    raw: Seq<char>,
    import: CookieImport,
    before: Seq<ListedFile>,
    after: Seq<ListedFile>,
    at: int,
    list_before: Seq<(Seq<char>, Seq<char>)>,
    list_after: Seq<(Seq<char>, Seq<char>)>,
)
    requires
        is_import(raw, Ok(import)),
        0 <= at < after.len(),
        after[at].is_file,
        after[at].file_name@ == import.file_name@,
        differ_only_in(before, after, import.file_name@),
        sorts(list_before, profiles_in(before)),
        sorts(list_after, profiles_in(after)),
    ensures
        list_after.contains((import.name@, after[at].path@)),
        forall|other: Seq<char>|
            other != import.name@ ==> #[trigger] named(list_after, other) == named(
                list_before,
                other,
            ),
{
    law_profile_with_file_is_listed(after, list_after, import.name@, at);
    law_other_profiles_stay_listed(before, after, list_before, list_after, import.name@);
}

/// Once the file that a deletion by the name of an import gives is gone from the
/// directory, no profile of this name is listed, and all other profiles stay as
/// they were.
pub proof fn law_deleted_import_is_not_listed(
    raw: Seq<char>,
    import: CookieImport,
    deletion: Result<String, String>,
    before: Seq<ListedFile>,
    after: Seq<ListedFile>,
    list_before: Seq<(Seq<char>, Seq<char>)>,
    list_after: Seq<(Seq<char>, Seq<char>)>,
)
    requires
        is_import(raw, Ok(import)),
        is_deletion(import.name@, deletion),
        deletion matches Ok(file_name) ==> {
            &&& called(after, file_name@).len() == 0
            &&& differ_only_in(before, after, file_name@)
        },
        sorts(list_before, profiles_in(before)),
        sorts(list_after, profiles_in(after)),
    ensures
        deletion is Ok,
        forall|i: int| 0 <= i < list_after.len() ==> (#[trigger] list_after[i]).0 != import.name@,
        forall|other: Seq<char>|
            other != import.name@ ==> #[trigger] named(list_after, other) == named(
                list_before,
                other,
            ),
{
    law_import_is_deleted_by_its_name(raw, import, deletion);
    let gone = import.file_name@;
    assert forall|i: int| 0 <= i < after.len() && (#[trigger] after[i]).is_file implies
        after[i].file_name@ != file_of(import.name@) by {
        if after[i].file_name@ == gone {
            after.lemma_filter_contains(is_called(gone), i);
        }
    }
    law_profile_without_file_is_not_listed(after, list_after, import.name@);
    law_other_profiles_stay_listed(before, after, list_before, list_after, import.name@);
}

/// A profile whose file is gone is not listed any more.
pub proof fn law_profile_without_file_is_not_listed(
    files: Seq<ListedFile>,
    list: Seq<(Seq<char>, Seq<char>)>,
    name: Seq<char>,
)
    requires
        sorts(list, profiles_in(files)),
        forall|i: int|
            0 <= i < files.len() && (#[trigger] files[i]).is_file ==> files[i].file_name@
                != file_of(name),
    ensures
        forall|i: int| 0 <= i < list.len() ==> (#[trigger] list[i]).0 != name,
{
    lemma_no_file_no_profile(files, name);
    lemma_none_named(profiles_in(files), name);
    assert(named(list, name).len() == 0);
    assert forall|i: int| 0 <= i < list.len() implies (#[trigger] list[i]).0 != name by {
        if list[i].0 == name {
            list.lemma_filter_contains(has_name(name), i);
        }
    }
}

proof fn lemma_no_file_no_profile(files: Seq<ListedFile>, name: Seq<char>)
    requires
        forall|i: int|
            0 <= i < files.len() && (#[trigger] files[i]).is_file ==> files[i].file_name@
                != file_of(name),
    ensures
        forall|i: int|
            0 <= i < profiles_in(files).len() ==> (#[trigger] profiles_in(files)[i]).0 != name,
    decreases files.len(),
{
    if files.len() > 0 {
        let rest = files.drop_last();
        assert forall|i: int| 0 <= i < rest.len() && (#[trigger] rest[i]).is_file implies
            rest[i].file_name@ != file_of(name) by {
            assert(rest[i] == files[i]);
        }
        lemma_no_file_no_profile(rest, name);
        lemma_profile_has_one_file(files.last().file_name@);
        assert(files.last() == files[files.len() - 1]);
        let before = profiles_in(rest);
        assert forall|i: int| 0 <= i < profiles_in(files).len() implies (
        #[trigger] profiles_in(files)[i]).0 != name by {
            if i < before.len() {
                assert(profiles_in(files)[i] == before[i]);
            }
        }
    }
}

/// The directory determines the list of profiles, order included.
pub proof fn law_list_is_determined(
    a: Seq<(Seq<char>, Seq<char>)>,
    b: Seq<(Seq<char>, Seq<char>)>,
    profiles: Seq<(Seq<char>, Seq<char>)>,
)
    requires
        sorts(a, profiles),
        sorts(b, profiles),
    ensures
        a == b,
{
    assert forall|name: Seq<char>| #[trigger] named(a, name) == named(b, name) by {
        assert(named(a, name) == named(profiles, name));
        assert(named(b, name) == named(profiles, name));
    }
    lemma_same_order(a, b);
}

proof fn lemma_named_last(list: Seq<(Seq<char>, Seq<char>)>)
    requires
        list.len() > 0,
    ensures
        named(list, list.last().0).len() > 0,
        named(list, list.last().0).last() == list.last(),
{
    assert(list.drop_last().push(list.last()) =~= list);
    lemma_named_push(list.drop_last(), list.last(), list.last().0);
}

proof fn lemma_named_is_inside(list: Seq<(Seq<char>, Seq<char>)>, name: Seq<char>) -> (i: int)
    requires
        named(list, name).len() > 0,
    ensures
        0 <= i < list.len(),
        list[i].0 == name,
{
    if forall|i: int| 0 <= i < list.len() ==> (#[trigger] list[i]).0 != name {
        lemma_none_named(list, name);
    }
    choose|i: int| 0 <= i < list.len() && (#[trigger] list[i]).0 == name
}

proof fn lemma_same_order(a: Seq<(Seq<char>, Seq<char>)>, b: Seq<(Seq<char>, Seq<char>)>)
    requires
        in_order(a),
        in_order(b),
        forall|name: Seq<char>| #[trigger] named(a, name) == named(b, name),
    ensures
        a == b,
    decreases a.len(),
{
    if a.len() == 0 {
        if b.len() > 0 {
            lemma_named_last(b);
            let i = lemma_named_is_inside(a, b.last().0);
        }
        assert(a =~= b);
    } else {
        lemma_named_last(a);
        let j = lemma_named_is_inside(b, a.last().0);
        lemma_named_last(b);
        let i = lemma_named_is_inside(a, b.last().0);
        let x = encode_utf8(a.last().0);
        let y = encode_utf8(b.last().0);
        assert(!text::bytes_before(x, y)) by {
            if i < a.len() - 1 {
                assert(!text::bytes_before(encode_utf8(a[a.len() - 1].0), encode_utf8(a[i].0)));
            } else if text::bytes_before(x, y) {
                text::lemma_bytes_asymmetric(x, y);
            }
        }
        assert(!text::bytes_before(y, x)) by {
            if j < b.len() - 1 {
                assert(!text::bytes_before(encode_utf8(b[b.len() - 1].0), encode_utf8(b[j].0)));
            } else if text::bytes_before(y, x) {
                text::lemma_bytes_asymmetric(y, x);
            }
        }
        text::lemma_bytes_total(x, y);
        encode_utf8_decode_utf8(a.last().0);
        encode_utf8_decode_utf8(b.last().0);
        assert(a.last() == b.last());
        let c = a.drop_last();
        let d = b.drop_last();
        assert(c.push(a.last()) =~= a);
        assert(d.push(b.last()) =~= b);
        assert forall|name: Seq<char>| #[trigger] named(c, name) == named(d, name) by {
            lemma_named_push(c, a.last(), name);
            lemma_named_push(d, b.last(), name);
            assert(named(a, name) == named(b, name));
            if a.last().0 == name {
                assert(named(c, name).push(a.last()).drop_last() =~= named(c, name));
                assert(named(d, name).push(b.last()).drop_last() =~= named(d, name));
            }
        }
        lemma_same_order(c, d);
    }
}

} // verus!
