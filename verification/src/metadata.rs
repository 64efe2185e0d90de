//! Describing a URL: how yt-dlp is asked about it, and what its answer means.

use vstd::prelude::*;
use vstd::string::*;
use vstd::utf8::*;

use crate::errors;
use crate::errors::FailureKind;
use crate::json;
use crate::json::{Json, JsonTree};
use crate::text;

verus! {

broadcast use vstd::string::group_string_axioms;

/// How many titles of a playlist are listed.
pub const MAX_TITLES: usize = 500;

/// What the user is shown of a URL before a download.
#[derive(Debug)]
pub struct Metadata {
    /// "video" or "playlist".
    pub kind: String,
    pub title: String,
    pub thumbnail: Option<String>,
    /// The bits of the length in seconds, a 64-bit float.
    pub duration_bits: Option<u64>,
    /// The heights on offer, from the largest down.
    pub heights: Vec<u32>,
    pub entry_count: Option<u64>,
    pub entries: Vec<String>,
    /// The yt-dlp extractor, such as "Youtube" or "Twitter".
    pub source: String,
}

/// The arguments that ask for login cookies from a browser.
pub open spec fn browser_args(browser: Option<Seq<char>>) -> Seq<Seq<char>> {
    match browser {
        Some(name) => if name.len() > 0 && name != "none"@ {
            seq!["--cookies-from-browser"@, name]
        } else {
            Seq::empty()
        },
        None => Seq::empty(),
    }
}

/// The arguments that ask for the cookies in a file.
pub open spec fn cookie_args(file: Option<Seq<char>>) -> Seq<Seq<char>> {
    match file {
        Some(path) => seq!["--cookies"@, path],
        None => Seq::empty(),
    }
}

/// The arguments by which yt-dlp is asked to describe a URL.
pub open spec fn describe_args(
    playlist: bool,
    browser: Option<Seq<char>>,
    file: Option<Seq<char>>,
    url: Seq<char>,
) -> Seq<Seq<char>> {
    seq!["-J"@, "--no-warnings"@] + (if playlist {
        seq!["--flat-playlist"@, "--yes-playlist"@]
    } else {
        seq!["--no-playlist"@]
    }) + browser_args(browser) + cookie_args(file) + seq![url]
}

/// The first of `lines` at or after `from` that reports an error, or a general
/// remark if none does.
pub open spec fn error_line(lines: Seq<Seq<char>>, from: int) -> Seq<char>
    decreases lines.len() - from,
{
    if from >= lines.len() {
        "yt-dlp could not read this URL"@
    } else if text::contains_text(lines[from], "ERROR"@) {
        lines[from]
    } else {
        error_line(lines, from + 1)
    }
}

/// What the user is told of an error line about a URL: guidance where its cause
/// is known, and the line itself otherwise.
pub open spec fn explained(line: Seq<char>, url: &str) -> Seq<char> {
    let kind = errors::kind_of_message(text::lowercase(line), Some(url@));
    if kind is Other {
        line
    } else {
        errors::friendly_text(kind, errors::site_of(Some(url)))
    }
}

/// The extractor of a document.
pub open spec fn extractor(doc: JsonTree) -> Seq<char> {
    match doc.text_field("extractor_key"@) {
        Some(key) => key,
        None => match doc.text_field("extractor"@) {
            Some(name) => name,
            None => Seq::empty(),
        },
    }
}

/// The address of the last, largest thumbnail of a document.
pub open spec fn largest_thumbnail(doc: JsonTree) -> Option<Seq<char>> {
    match doc.items_field("thumbnails"@) {
        Some(items) => if items.len() > 0 {
            items.last().text_field("url"@)
        } else {
            None
        },
        None => None,
    }
}

/// `text`, or `default` if there is none.
pub open spec fn text_or(text: Option<Seq<char>>, default: Seq<char>) -> Seq<char> {
    match text {
        Some(t) => t,
        None => default,
    }
}

/// The document describes a playlist.
pub open spec fn is_playlist(doc: JsonTree) -> bool {
    doc.text_field("_type"@) == Some("playlist"@)
}

/// The entries of a playlist.
pub open spec fn playlist_entries(doc: JsonTree) -> Seq<JsonTree> {
    match doc.items_field("entries"@) {
        Some(items) => items,
        None => Seq::empty(),
    }
}

/// The titles of the first entries of a playlist.
pub open spec fn playlist_titles(doc: JsonTree) -> Seq<Seq<char>> {
    let entries = playlist_entries(doc);
    let shown = if entries.len() <= MAX_TITLES {
        entries.len()
    } else {
        MAX_TITLES as nat
    };
    Seq::new(shown, |i: int| text_or(entries[i].text_field("title"@), "(untitled)"@))
}

/// The thumbnail of a playlist: its own, or that of its first entry.
pub open spec fn playlist_thumbnail(doc: JsonTree) -> Option<Seq<char>> {
    match largest_thumbnail(doc) {
        Some(url) => Some(url),
        None => if playlist_entries(doc).len() > 0 {
            largest_thumbnail(playlist_entries(doc)[0])
        } else {
            None
        },
    }
}

/// The thumbnail of a video: the one named, or else the largest listed.
pub open spec fn video_thumbnail(doc: JsonTree) -> Option<Seq<char>> {
    match doc.text_field("thumbnail"@) {
        Some(url) => Some(url),
        None => largest_thumbnail(doc),
    }
}

/// The low half of a number.
pub open spec fn low_half(number: u64) -> u32 {
    (number % 0x1_0000_0000) as u32
}

/// The formats of a video.
pub open spec fn formats(doc: JsonTree) -> Seq<JsonTree> {
    match doc.items_field("formats"@) {
        Some(items) => items,
        None => Seq::empty(),
    }
}

/// A format states the height `height`.
pub open spec fn has_height(format: JsonTree, height: u32) -> bool {
    match format.unsigned_field("height"@) {
        Some(number) => low_half(number) == height,
        None => false,
    }
}

/// One of `formats` states the height `height`.
pub open spec fn offers(formats: Seq<JsonTree>, height: u32) -> bool {
    exists|i: int| 0 <= i < formats.len() && has_height(#[trigger] formats[i], height)
}

/// Each number is smaller than those before it.
pub open spec fn descending(numbers: Seq<u32>) -> bool {
    forall|i: int, j: int| 0 <= i < j < numbers.len() ==> numbers[i] > numbers[j]
}

/// `heights` holds each height on offer once, from the largest down.
pub open spec fn lists_heights(heights: Seq<u32>, formats: Seq<JsonTree>) -> bool {
    &&& descending(heights)
    &&& forall|h: u32| #[trigger] heights.contains(h) <==> offers(formats, h)
}

impl Metadata {
    /// This is what a document says of a video or a playlist.
    pub open spec fn describes(self, doc: JsonTree) -> bool {
        &&& self.source@ == extractor(doc)
        &&& if is_playlist(doc) {
            &&& self.kind@ == "playlist"@
            &&& self.title@ == text_or(doc.text_field("title"@), "Playlist"@)
            &&& text::opt_text(self.thumbnail) == playlist_thumbnail(doc)
            &&& self.duration_bits is None
            &&& self.heights@.len() == 0
            &&& self.entry_count == Some(
                match doc.unsigned_field("playlist_count"@) {
                    Some(count) => count,
                    None => playlist_entries(doc).len() as u64,
                },
            )
            &&& text::texts(self.entries@) == playlist_titles(doc)
        } else {
            &&& self.kind@ == "video"@
            &&& self.title@ == text_or(doc.text_field("title"@), "(untitled)"@)
            &&& text::opt_text(self.thumbnail) == video_thumbnail(doc)
            &&& self.duration_bits == doc.float_bits_field("duration"@)
            &&& lists_heights(self.heights@, formats(doc))
            &&& self.entry_count is None
            &&& self.entries@.len() == 0
        }
    }
}

/// What yt-dlp's answer about a URL means.
pub open spec fn is_answer(
    success: bool,
    stdout: Seq<u8>,
    stderr: Seq<u8>,
    url: &str,
    metadata: Result<Metadata, String>,
) -> bool {
    if success {
        match json::parsed_json(stdout) {
            Ok(doc) => metadata matches Ok(m) && m.describes(doc),
            Err(error) => metadata matches Err(message) && message@ == "unexpected yt-dlp output: "@
                + error,
        }
    } else {
        metadata matches Err(message) && message@ == explained(
            error_line(text::lines_of(text::lossy_text(stderr)), 0),
            url,
        )
    }
}

/// The arguments by which yt-dlp is asked to describe a URL. A flat listing of
/// a playlist is instant, a full one takes minutes.
pub fn metadata_args(
    url: &str,
    playlist_mode: bool,
    cookies_from_browser: Option<&str>,
    cookies_file: Option<&str>,
) -> (args: Vec<String>)
    ensures
        text::texts(args@) == describe_args(
            playlist_mode,
            text::opt_str(cookies_from_browser),
            text::opt_str(cookies_file),
            url@,
        ),
{
    let mut args: Vec<String> = Vec::new();
    args.push("-J".to_owned());
    args.push("--no-warnings".to_owned());
    if playlist_mode {
        args.push("--flat-playlist".to_owned());
        args.push("--yes-playlist".to_owned());
    } else {
        args.push("--no-playlist".to_owned());
    }
    if let Some(browser) = cookies_from_browser {
        if !browser.is_empty() && !text::same_text(browser, "none") {
            args.push("--cookies-from-browser".to_owned());
            args.push(browser.to_owned());
        }
    }
    if let Some(file) = cookies_file {
        args.push("--cookies".to_owned());
        args.push(file.to_owned());
    }
    args.push(url.to_owned());
    assert(text::texts(args@) =~= describe_args(
        playlist_mode,
        text::opt_str(cookies_from_browser),
        text::opt_str(cookies_file),
        url@,
    ));
    args
}

/// The line of an error output that says what went wrong.
pub fn failure_line(output: &str) -> (line: String)
    ensures
        line@ == error_line(text::lines_of(output@), 0),
{
    let lines: Vec<String> = text::text_lines(output);
    let ghost all = text::lines_of(output@);
    let mut i: usize = 0;
    while i < lines.len()
        invariant
            i <= lines@.len(),
            all == text::lines_of(output@),
            all == text::texts(lines@),
            error_line(all, 0) == error_line(all, i as int),
        decreases lines@.len() - i,
    {
        assert(all[i as int] == lines@[i as int]@);
        if text::contains(lines[i].as_str(), "ERROR") {
            return lines[i].clone();
        }
        i = i + 1;
    }
    "yt-dlp could not read this URL".to_owned()
}

/// What the user is told of an error line about a URL. A line whose cause is
/// unknown is kept, since the user is debugging their input.
pub fn explain_line(line: &str, url: &str) -> (message: String)
    ensures
        message@ == explained(line@, url),
        is_ascii_chars(line@) ==> text::lowercase(line@) == text::lower_ascii(line@),
        is_ascii_chars(url@) ==> text::lowercase(url@) == text::lower_ascii(url@),
{
    let (kind, friendly): (FailureKind, String) = errors::classify(line, Some(url));
    if kind == FailureKind::Other {
        line.to_owned()
    } else {
        friendly
    }
}

/// What the user is told when yt-dlp could not describe a URL.
pub fn explain_failure(stderr: &[u8], url: &str) -> (message: String)
    ensures
        message@ == explained(error_line(text::lines_of(text::lossy_text(stderr@)), 0), url),
        valid_utf8(stderr@) ==> text::lossy_text(stderr@) == decode_utf8(stderr@),
        ({
            let line = error_line(text::lines_of(text::lossy_text(stderr@)), 0);
            &&& is_ascii_chars(line) ==> text::lowercase(line) == text::lower_ascii(line)
            &&& is_ascii_chars(url@) ==> text::lowercase(url@) == text::lower_ascii(url@)
        }),
{
    let output: String = text::decode_lossy(stderr);
    let line: String = failure_line(output.as_str());
    explain_line(line.as_str(), url)
}

/// The extractor of a document.
pub fn extractor_of(doc: &Json) -> (name: String)
    ensures
        name@ == extractor(doc.tree()),
{
    match doc.text_at("extractor_key") {
        Some(key) => key,
        None => match doc.text_at("extractor") {
            Some(name) => name,
            None => String::new(),
        },
    }
}

/// The address of the last, largest thumbnail of a document.
pub fn last_thumbnail(doc: &Json) -> (url: Option<String>)
    ensures
        text::opt_text(url) == largest_thumbnail(doc.tree()),
{
    match doc.items_at("thumbnails") {
        Some(items) => {
            if items.len() == 0 {
                None
            } else {
                items[items.len() - 1].text_at("url")
            }
        },
        None => None,
    }
}

/// `text`, or `default` if there is none.
fn string_or(text: Option<String>, default: &str) -> (string: String)
    ensures
        string@ == text_or(text::opt_text(text), default@),
{
    match text {
        Some(t) => t,
        None => default.to_owned(),
    }
}

/// The titles of the first entries of a playlist.
fn titles_of(doc: &Json) -> (titles: Vec<String>)
    ensures
        text::texts(titles@) == playlist_titles(doc.tree()),
{
    let mut titles: Vec<String> = Vec::new();
    if let Some(items) = doc.items_at("entries") {
        let mut i: usize = 0;
        while i < items.len() && i < MAX_TITLES
            invariant
                i <= items@.len(),
                i <= MAX_TITLES,
                playlist_entries(doc.tree()) == json::trees(items@),
                titles@.len() == i,
                forall|k: int|
                    0 <= k < i ==> (#[trigger] titles@[k])@ == text_or(
                        items@[k].tree().text_field("title"@),
                        "(untitled)"@,
                    ),
            decreases items@.len() - i,
        {
            titles.push(string_or(items[i].text_at("title"), "(untitled)"));
            i = i + 1;
        }
    }
    assert(text::texts(titles@) =~= playlist_titles(doc.tree()));
    titles
}

/// The heights on offer, each once, from the largest down.
fn heights_of(doc: &Json) -> (heights: Vec<u32>)
    ensures
        lists_heights(heights@, formats(doc.tree())),
{
    let mut heights: Vec<u32> = Vec::new();
    if let Some(items) = doc.items_at("formats") {
        let ghost all = json::trees(items@);
        let mut i: usize = 0;
        assert(all.take(0) =~= Seq::empty());
        while i < items.len()
            invariant
                i <= items@.len(),
                all == json::trees(items@),
                lists_heights(heights@, all.take(i as int)),
            decreases items@.len() - i,
        {
            let ghost before = heights@;
            let ghost seen = all.take(i as int);
            let ghost next = all.take(i + 1);
            assert(next =~= seen.push(all[i as int]));
            assert(all[i as int] == items@[i as int].tree());
            match items[i].u64_at("height") {
                Some(number) => {
                    let height: u32 = number as u32;
                    assert(number as u32 == number % 0x1_0000_0000) by (bit_vector);
                    assert(height == low_half(number));
                    insert_descending(&mut heights, height);
                    assert forall|h: u32| #[trigger] heights@.contains(h) <==> offers(next, h) by {
                        lemma_offers_one_more(seen, all[i as int], h);
                        assert(before.contains(h) <==> offers(seen, h));
                    }
                },
                None => {
                    assert forall|h: u32| #[trigger] heights@.contains(h) <==> offers(next, h) by {
                        lemma_offers_one_more(seen, all[i as int], h);
                    }
                },
            }
            i = i + 1;
        }
        assert(all.take(items@.len() as int) =~= all);
    }
    heights
}

proof fn lemma_offers_one_more(formats: Seq<JsonTree>, format: JsonTree, height: u32)
    ensures
        offers(formats.push(format), height) <==> offers(formats, height) || has_height(
            format,
            height,
        ),
{
    let more = formats.push(format);
    if offers(formats, height) {
        let i = choose|i: int| 0 <= i < formats.len() && has_height(#[trigger] formats[i], height);
        assert(more[i] == formats[i]);
    }
    if has_height(format, height) {
        assert(more[formats.len() as int] == format);
    }
    if offers(more, height) {
        let i = choose|i: int| 0 <= i < more.len() && has_height(#[trigger] more[i], height);
        if i < formats.len() {
            assert(more[i] == formats[i]);
        }
    }
}

/// Puts a number in its place among descending numbers, unless it is there.
fn insert_descending(numbers: &mut Vec<u32>, number: u32)
    requires
        descending(old(numbers)@),
    ensures
        descending(final(numbers)@),
        forall|n: u32| #[trigger]
            final(numbers)@.contains(n) <==> old(numbers)@.contains(n) || n == number,
{
    let ghost before = numbers@;
    let mut i: usize = 0;
    while i < numbers.len() && numbers[i] > number
        invariant
            i <= numbers@.len(),
            numbers@ == before,
            forall|k: int| 0 <= k < i ==> numbers@[k] > number,
        decreases numbers@.len() - i,
    {
        i = i + 1;
    }
    if i < numbers.len() && numbers[i] == number {
        return ;
    }
    numbers.insert(i, number);
    let ghost after = numbers@;
    assert(after == before.insert(i as int, number));
    assert forall|n: u32| #[trigger] after.contains(n) <==> before.contains(n) || n == number by {
        if before.contains(n) {
            let k = choose|k: int| 0 <= k < before.len() && before[k] == n;
            if k < i {
                assert(after[k] == n);
            } else {
                assert(after[k + 1] == n);
            }
        }
        if n == number {
            assert(after[i as int] == n);
        }
        if after.contains(n) {
            let k = choose|k: int| 0 <= k < after.len() && after[k] == n;
            if k < i {
                assert(before[k] == n);
            } else if k > i {
                assert(before[k - 1] == n);
            }
        }
    }
}

/// What a document says of a video or a playlist.
pub fn describe(doc: &Json) -> (metadata: Metadata)
    ensures
        metadata.describes(doc.tree()),
{
    let kind: Option<String> = doc.text_at("_type");
    let playlist: bool = match &kind {
        Some(k) => text::same_text(k.as_str(), "playlist"),
        None => false,
    };
    let source: String = extractor_of(doc);
    if playlist {
        let entries: Option<&Vec<Json>> = doc.items_at("entries");
        let listed: u64 = match entries {
            Some(items) => items.len() as u64,
            None => 0,
        };
        let count: u64 = match doc.u64_at("playlist_count") {
            Some(c) => c,
            None => listed,
        };
        let thumbnail: Option<String> = match last_thumbnail(doc) {
            Some(url) => Some(url),
            None => match entries {
                Some(items) => if items.len() > 0 {
                    last_thumbnail(&items[0])
                } else {
                    None
                },
                None => None,
            },
        };
        Metadata {
            kind: "playlist".to_owned(),
            title: string_or(doc.text_at("title"), "Playlist"),
            thumbnail,
            duration_bits: None,
            heights: Vec::new(),
            entry_count: Some(count),
            entries: titles_of(doc),
            source,
        }
    } else {
        let thumbnail: Option<String> = match doc.text_at("thumbnail") {
            Some(url) => Some(url),
            None => last_thumbnail(doc),
        };
        Metadata {
            kind: "video".to_owned(),
            title: string_or(doc.text_at("title"), "(untitled)"),
            thumbnail,
            duration_bits: doc.float_bits_at("duration"),
            heights: heights_of(doc),
            entry_count: None,
            entries: Vec::new(),
            source,
        }
    }
}

/// What yt-dlp's answer about a URL means: the description, or what the user is
/// told instead.
pub fn metadata_from_output(success: bool, stdout: &[u8], stderr: &[u8], url: &str) -> (metadata:
    Result<Metadata, String>)
    ensures
        is_answer(success, stdout@, stderr@, url, metadata),
        !success ==> ({
            let line = error_line(text::lines_of(text::lossy_text(stderr@)), 0);
            &&& valid_utf8(stderr@) ==> text::lossy_text(stderr@) == decode_utf8(stderr@)
            &&& is_ascii_chars(line) ==> text::lowercase(line) == text::lower_ascii(line)
            &&& is_ascii_chars(url@) ==> text::lowercase(url@) == text::lower_ascii(url@)
        }),
{
    if !success {
        return Err(explain_failure(stderr, url));
    }
    match json::parse_json(stdout) {
        Ok(doc) => Ok(describe(&doc)),
        Err(error) => Err(unreadable_output(error.as_str())),
    }
}

/// What the user is told when yt-dlp's answer is no document.
pub fn unreadable_output(error: &str) -> (message: String)
    ensures
        message@ == "unexpected yt-dlp output: "@ + error@,
{
    let mut message: String = "unexpected yt-dlp output: ".to_owned();
    message.append(error);
    message
}

/// Without cookies yt-dlp is asked for a document about the URL and nothing else:
/// flat for a playlist, and not for the playlist of a single video.
pub proof fn law_arguments_ask_for_document(playlist: bool, url: Seq<char>)
    ensures
        playlist ==> describe_args(playlist, None, None, url) == seq![
            "-J"@,
            "--no-warnings"@,
            "--flat-playlist"@,
            "--yes-playlist"@,
            url,
        ],
        !playlist ==> describe_args(playlist, None, None, url) == seq![
            "-J"@,
            "--no-warnings"@,
            "--no-playlist"@,
            url,
        ],
{
    assert(describe_args(true, None, None, url) =~= seq![
        "-J"@,
        "--no-warnings"@,
        "--flat-playlist"@,
        "--yes-playlist"@,
        url,
    ]);
    assert(describe_args(false, None, None, url) =~= seq![
        "-J"@,
        "--no-warnings"@,
        "--no-playlist"@,
        url,
    ]);
}

/// A cookie file is passed whatever the browser and the mode: "--cookies" and its
/// path stand directly before the URL, and are all that it changes.
pub proof fn law_cookie_file_is_passed(
    playlist: bool,
    browser: Option<Seq<char>>,
    path: Seq<char>,
    url: Seq<char>,
)
    ensures
        ({
            let args = describe_args(playlist, browser, Some(path), url);
            let plain = describe_args(playlist, browser, None, url);
            let n = args.len() as int;
            &&& n >= 3
            &&& args[n - 3] == "--cookies"@
            &&& args[n - 2] == path
            &&& args[n - 1] == url
            &&& args == plain.drop_last() + seq!["--cookies"@, path, url]
            &&& plain.last() == url
        }),
{
    assert(describe_args(playlist, browser, Some(path), url) =~= describe_args(
        playlist,
        browser,
        None,
        url,
    ).drop_last() + seq!["--cookies"@, path, url]);
}

/// Without a cookie file no argument of the tool's own is "--cookies": only the
/// name of the browser and the URL could be that word.
pub proof fn law_no_cookie_file_is_invented(
    playlist: bool,
    browser: Option<Seq<char>>,
    url: Seq<char>,
    i: int,
)
    requires
        0 <= i < describe_args(playlist, browser, None, url).len(),
        describe_args(playlist, browser, None, url)[i] == "--cookies"@,
    ensures
        url == "--cookies"@ || browser == Some("--cookies"@),
{
    reveal_strlit("-J");
    reveal_strlit("--no-warnings");
    reveal_strlit("--flat-playlist");
    reveal_strlit("--yes-playlist");
    reveal_strlit("--no-playlist");
    reveal_strlit("--cookies-from-browser");
    reveal_strlit("--cookies");
    assert("--cookies"@.len() == 9);
}

/// A browser is passed whatever the cookie file and the mode: unless its name is
/// empty or "none", "--cookies-from-browser" and the name stand behind the
/// arguments of the mode, and are all that it changes.
pub proof fn law_browser_is_passed(
    playlist: bool,
    name: Seq<char>,
    file: Option<Seq<char>>,
    url: Seq<char>,
)
    ensures
        ({
            let args = describe_args(playlist, Some(name), file, url);
            let plain = describe_args(playlist, None, file, url);
            let mode: int = if playlist {
                4
            } else {
                3
            };
            if name == ""@ || name == "none"@ {
                args == plain
            } else {
                args == plain.take(mode) + seq!["--cookies-from-browser"@, name] + plain.skip(mode)
            }
        }),
{
    reveal_strlit("");
    let args = describe_args(playlist, Some(name), file, url);
    let plain = describe_args(playlist, None, file, url);
    let mode: int = if playlist {
        4
    } else {
        3
    };
    if name.len() == 0 {
        assert(name =~= ""@);
    }
    if name != ""@ && name != "none"@ {
        assert(args =~= plain.take(mode) + seq!["--cookies-from-browser"@, name] + plain.skip(mode));
    }
}

/// The line that is explained is the first one that reports an error.
pub proof fn law_first_error_is_explained(lines: Seq<Seq<char>>, k: int)
    ensures
        0 <= k < lines.len() && text::contains_text(lines[k], "ERROR"@) && (forall|i: int|
            0 <= i < k ==> !text::contains_text(#[trigger] lines[i], "ERROR"@)) ==> error_line(
            lines,
            0,
        ) == lines[k],
        (forall|i: int| 0 <= i < lines.len() ==> !text::contains_text(#[trigger] lines[i], "ERROR"@))
            ==> error_line(lines, 0) == "yt-dlp could not read this URL"@,
{
    if 0 <= k < lines.len() && text::contains_text(lines[k], "ERROR"@) && (forall|i: int|
        0 <= i < k ==> !text::contains_text(#[trigger] lines[i], "ERROR"@)) {
        lemma_error_line_from(lines, 0, k);
    }
    if forall|i: int| 0 <= i < lines.len() ==> !text::contains_text(#[trigger] lines[i], "ERROR"@) {
        lemma_error_line_from(lines, 0, lines.len() as int);
    }
}

proof fn lemma_error_line_from(lines: Seq<Seq<char>>, from: int, to: int)
    requires
        0 <= from <= to <= lines.len(),
        forall|i: int| from <= i < to ==> !text::contains_text(#[trigger] lines[i], "ERROR"@),
    ensures
        error_line(lines, from) == error_line(lines, to),
    decreases to - from,
{
    if from < to {
        lemma_error_line_from(lines, from + 1, to);
    }
}

/// A line whose cause is known is never shown, but the guidance for its kind and
/// the site of the URL; a line of unknown cause is shown as it is.
pub proof fn law_only_unknown_causes_are_shown(
    line: Seq<char>,
    url: &str,
    failure: errors::Failure,
)
    requires
        errors::is_classification(line, Some(url), failure),
    ensures
        failure.0 is Other ==> explained(line, url) == line,
        !(failure.0 is Other) ==> explained(line, url) == failure.1@,
{
}

/// An answer is taken from the document if yt-dlp succeeded, whatever else it
/// printed, and is otherwise an explanation of its error output, whatever else it
/// printed.
pub proof fn law_answer_follows_success(
    stdout: Seq<u8>,
    stderr: Seq<u8>,
    url: &str,
    metadata: Result<Metadata, String>,
)
    ensures
        is_answer(true, stdout, stderr, url, metadata) && json::parsed_json(stdout) is Ok ==> (
        metadata matches Ok(m) && m.describes(json::parsed_json(stdout)->Ok_0)),
        is_answer(true, stdout, stderr, url, metadata) && json::parsed_json(stdout) is Err ==> (
        metadata matches Err(message) && message@ == "unexpected yt-dlp output: "@
            + json::parsed_json(stdout)->Err_0),
        is_answer(false, stdout, stderr, url, metadata) ==> (metadata matches Err(message)
            && message@ == explained(
            error_line(text::lines_of(text::lossy_text(stderr)), 0),
            url,
        )),
{
}

/// A document describes a playlist exactly if its type says so, and a video
/// otherwise.
pub proof fn law_type_tells_playlist(doc: JsonTree, metadata: Metadata)
    requires
        metadata.describes(doc),
    ensures
        doc.field("_type"@) == Some(JsonTree::Text("playlist"@)) ==> metadata.kind@ == "playlist"@,
        doc.field("_type"@) != Some(JsonTree::Text("playlist"@)) ==> metadata.kind@ == "video"@,
{
}

/// The length of a video is the reading of its duration as a float, whatever its
/// reading as an integer; without a number there is no length. A playlist has
/// none.
pub proof fn law_duration_is_float_reading(doc: JsonTree, metadata: Metadata)
    requires
        metadata.describes(doc),
    ensures
        doc.field("_type"@) == Some(JsonTree::Text("playlist"@)) ==> metadata.duration_bits is None,
        doc.field("_type"@) != Some(JsonTree::Text("playlist"@)) ==> match doc.field("duration"@) {
            Some(JsonTree::Number { unsigned, float_bits }) => metadata.duration_bits == float_bits,
            _ => metadata.duration_bits is None,
        },
{
}

/// The title is the one that the document gives, or a word for what has none.
pub proof fn law_title_is_that_of_document(doc: JsonTree, metadata: Metadata)
    requires
        metadata.describes(doc),
    ensures
        match doc.field("title"@) {
            Some(JsonTree::Text(title)) => metadata.title@ == title,
            _ => metadata.title@ == if doc.field("_type"@) == Some(JsonTree::Text("playlist"@)) {
                "Playlist"@
            } else {
                "(untitled)"@
            },
        },
{
}

/// The source is the key of the extractor, or else its name, or else nothing.
pub proof fn law_source_is_extractor(doc: JsonTree, metadata: Metadata)
    requires
        metadata.describes(doc),
    ensures
        match (doc.field("extractor_key"@), doc.field("extractor"@)) {
            (Some(JsonTree::Text(key)), _) => metadata.source@ == key,
            (_, Some(JsonTree::Text(name))) => metadata.source@ == name,
            _ => metadata.source@.len() == 0,
        },
{
}

/// The largest thumbnail of a document is the last one that it lists.
pub proof fn law_last_thumbnail_is_largest(doc: JsonTree, url: Seq<char>)
    ensures
        largest_thumbnail(doc) == Some(url) <==> (doc.field("thumbnails"@) matches Some(
            JsonTree::Array(items),
        ) && items.len() > 0 && items[items.len() - 1].field("url"@) == Some(JsonTree::Text(url))),
{
}

/// A video is shown by the thumbnail that it names, and only without one by the
/// largest that it lists. A playlist is shown by the largest that it lists
/// itself, and only without one by the largest of its first entry.
pub proof fn law_own_thumbnail_is_preferred(doc: JsonTree, metadata: Metadata)
    requires
        metadata.describes(doc),
    ensures
        doc.field("_type"@) != Some(JsonTree::Text("playlist"@)) ==> match doc.field("thumbnail"@) {
            Some(JsonTree::Text(url)) => text::opt_text(metadata.thumbnail) == Some(url),
            _ => text::opt_text(metadata.thumbnail) == largest_thumbnail(doc),
        },
        doc.field("_type"@) == Some(JsonTree::Text("playlist"@)) ==> match (
            largest_thumbnail(doc),
            doc.field("entries"@),
        ) {
            (Some(url), _) => text::opt_text(metadata.thumbnail) == Some(url),
            (None, Some(JsonTree::Array(entries))) if entries.len() > 0 => text::opt_text(
                metadata.thumbnail,
            ) == largest_thumbnail(entries[0]),
            _ => metadata.thumbnail is None,
        },
{
}

/// The heights of a video run strictly down, and a height is among them exactly
/// if a format states it, as an integer of which the low 32 bits count. A
/// playlist has none.
pub proof fn law_heights_are_those_of_formats(
    doc: JsonTree,
    metadata: Metadata,
    height: u32,
    i: int,
    j: int,
)
    requires
        metadata.describes(doc),
    ensures
        0 <= i < j < metadata.heights@.len() ==> metadata.heights@[i] > metadata.heights@[j],
        metadata.heights@.contains(height) <==> {
            &&& doc.field("_type"@) != Some(JsonTree::Text("playlist"@))
            &&& doc.field("formats"@) matches Some(JsonTree::Array(all))
            &&& exists|k: int|
                0 <= k < all.len() && ((#[trigger] all[k]).field("height"@) matches Some(
                    JsonTree::Number { unsigned: Some(number), float_bits },
                ) && number % 0x1_0000_0000 == height)
        },
{
    if is_playlist(doc) {
        assert(metadata.heights@ =~= Seq::<u32>::empty());
    } else {
        assert(metadata.heights@.contains(height) <==> offers(formats(doc), height));
        if let Some(JsonTree::Array(all)) = doc.field("formats"@) {
            if offers(all, height) {
                let k = choose|k: int| 0 <= k < all.len() && has_height(#[trigger] all[k], height);
                assert(all[k].field("height"@) is Some);
            }
            if exists|k: int|
                0 <= k < all.len() && ((#[trigger] all[k]).field("height"@) matches Some(
                    JsonTree::Number { unsigned: Some(number), float_bits },
                ) && number % 0x1_0000_0000 == height) {
                let k = choose|k: int|
                    0 <= k < all.len() && ((#[trigger] all[k]).field("height"@) matches Some(
                        JsonTree::Number { unsigned: Some(number), float_bits },
                    ) && number % 0x1_0000_0000 == height);
                assert(has_height(all[k], height));
            }
        }
    }
}

/// A playlist lists the titles of its first 500 entries, or of all if they are
/// fewer, each in its place. A video lists none.
pub proof fn law_titles_are_those_of_first_entries(doc: JsonTree, metadata: Metadata, i: int)
    requires
        metadata.describes(doc),
    ensures
        match doc.field("entries"@) {
            Some(JsonTree::Array(entries)) if doc.field("_type"@) == Some(
                JsonTree::Text("playlist"@),
            ) => {
                &&& metadata.entries@.len() == if entries.len() < 500 {
                    entries.len() as int
                } else {
                    500
                }
                &&& 0 <= i < metadata.entries@.len() ==> metadata.entries@[i]@ == match entries[i].field(
                    "title"@,
                ) {
                    Some(JsonTree::Text(title)) => title,
                    _ => "(untitled)"@,
                }
            },
            _ => metadata.entries@.len() == 0,
        },
{
    if is_playlist(doc) {
        let titles = text::texts(metadata.entries@);
        assert(titles.len() == metadata.entries@.len());
        if 0 <= i < metadata.entries@.len() {
            assert(titles[i] == metadata.entries@[i]@);
        }
    }
}

/// A playlist counts as many entries as it says, or, if it does not say, as it
/// has. A video counts none.
pub proof fn law_playlist_counts_entries(doc: JsonTree, metadata: Metadata)
    requires
        metadata.describes(doc),
    ensures
        doc.field("_type"@) != Some(JsonTree::Text("playlist"@)) ==> metadata.entry_count is None,
        doc.field("_type"@) == Some(JsonTree::Text("playlist"@)) ==> match (
            doc.field("playlist_count"@),
            doc.field("entries"@),
        ) {
            (Some(JsonTree::Number { unsigned: Some(count), float_bits }), _) =>
                metadata.entry_count == Some(count),
            (_, Some(JsonTree::Array(entries))) => metadata.entry_count == Some(
                entries.len() as u64,
            ),
            _ => metadata.entry_count == Some(0u64),
        },
{
}

/// A document determines which heights are listed, and in which order.
pub proof fn law_heights_are_determined(a: Seq<u32>, b: Seq<u32>, formats: Seq<JsonTree>)
    requires
        lists_heights(a, formats),
        lists_heights(b, formats),
    ensures
        a == b,
{
    assert forall|h: u32| #[trigger] a.contains(h) <==> b.contains(h) by {
        assert(a.contains(h) <==> offers(formats, h));
        assert(b.contains(h) <==> offers(formats, h));
    }
    lemma_same_descending(a, b);
}

proof fn lemma_same_descending(a: Seq<u32>, b: Seq<u32>)
    requires
        descending(a),
        descending(b),
        forall|h: u32| #[trigger] a.contains(h) <==> b.contains(h),
    ensures
        a == b,
    decreases a.len(),
{
    if a.len() == 0 {
        if b.len() > 0 {
            assert(b.contains(b[0]));
            assert(a.contains(b[0]));
        }
        assert(a =~= b);
    } else {
        assert(a.contains(a[0]));
        assert(b.contains(a[0]));
        assert(b.contains(b[0]));
        assert(a.contains(b[0]));
        let j = choose|j: int| 0 <= j < b.len() && b[j] == a[0];
        let i = choose|i: int| 0 <= i < a.len() && a[i] == b[0];
        assert(a[0] == b[0]);
        let x = a.drop_first();
        let y = b.drop_first();
        assert forall|h: u32| #[trigger] x.contains(h) <==> y.contains(h) by {
            if x.contains(h) {
                let k = choose|k: int| 0 <= k < x.len() && x[k] == h;
                assert(a[k + 1] == h);
                assert(a.contains(h));
                let m = choose|m: int| 0 <= m < b.len() && b[m] == h;
                assert(y[m - 1] == h);
            }
            if y.contains(h) {
                let k = choose|k: int| 0 <= k < y.len() && y[k] == h;
                assert(b[k + 1] == h);
                assert(b.contains(h) && a.contains(h));
                let m = choose|m: int| 0 <= m < a.len() && a[m] == h;
                assert(x[m - 1] == h);
            }
        }
        lemma_same_descending(x, y);
        assert(a =~= seq![a[0]] + x);
        assert(b =~= seq![b[0]] + y);
    }
}

} // verus!
