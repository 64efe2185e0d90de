use video_plucker::json::{parse_json, Json};
use video_plucker::metadata::{
    describe, explain_failure, explain_line, extractor_of, failure_line, last_thumbnail,
    metadata_args, metadata_from_output, unreadable_output,
};

fn text(s: &str) -> Json {
    Json::Text(s.to_string())
}

fn number(n: u64) -> Json {
    Json::Number { unsigned: Some(n), float_bits: Some((n as f64).to_bits()) }
}

fn object(fields: Vec<(&str, Json)>) -> Json {
    Json::Object(fields.into_iter().map(|(k, v)| (k.to_string(), v)).collect())
}

#[test]
fn arguments_for_a_video() {
    assert_eq!(
        metadata_args("https://v", false, None, None),
        ["-J", "--no-warnings", "--no-playlist", "https://v"]
    );
}

#[test]
fn arguments_for_a_playlist_with_cookies() {
    assert_eq!(
        metadata_args("https://p", true, Some("firefox"), Some("/c/insta.txt")),
        [
            "-J",
            "--no-warnings",
            "--flat-playlist",
            "--yes-playlist",
            "--cookies-from-browser",
            "firefox",
            "--cookies",
            "/c/insta.txt",
            "https://p"
        ]
    );
}

#[test]
fn no_browser_is_asked_for_none() {
    let plain = metadata_args("u", false, None, None);
    assert_eq!(metadata_args("u", false, Some("none"), None), plain);
    assert_eq!(metadata_args("u", false, Some(""), None), plain);
}

#[test]
fn first_error_line_is_taken() {
    assert_eq!(failure_line("WARNING: a\r\nERROR: b\r\nERROR: c\n"), "ERROR: b");
    assert_eq!(failure_line("error: in lower case"), "yt-dlp could not read this URL");
    assert_eq!(failure_line(""), "yt-dlp could not read this URL");
    // a carriage return that ends no line belongs to it
    assert_eq!(failure_line("ERROR: d\r"), "ERROR: d\r");
}

#[test]
fn unknown_causes_keep_the_raw_line() {
    assert_eq!(explain_line("ERROR: boom", "https://v"), "ERROR: boom");
    assert_eq!(
        explain_failure(b"WARNING: x\nERROR: boom\n", "https://v"),
        "ERROR: boom"
    );
    assert_eq!(explain_failure(b"", "https://v"), "yt-dlp could not read this URL");
}

#[test]
fn known_causes_are_explained() {
    assert!(explain_failure(b"ERROR: Please log in", "https://reddit.com/r/a")
        .starts_with("Reddit requires a logged-in account"));
}

#[test]
fn invalid_bytes_are_replaced() {
    assert_eq!(explain_failure(b"ERROR: \xff!", "https://v"), "ERROR: \u{FFFD}!");
}

#[test]
fn video_is_described() {
    let doc = object(vec![
        ("title", text("A video")),
        ("duration", Json::Number { unsigned: None, float_bits: Some(12.5f64.to_bits()) }),
        ("extractor", text("youtube")),
        ("extractor_key", text("Youtube")),
        (
            "formats",
            Json::Array(vec![
                object(vec![("height", number(720))]),
                object(vec![("height", Json::Null)]),
                object(vec![("height", number(1080))]),
                object(vec![("height", number(720))]),
                object(vec![]),
                object(vec![("height", number(144))]),
            ]),
        ),
        (
            "thumbnails",
            Json::Array(vec![
                object(vec![("url", text("small"))]),
                object(vec![("url", text("large"))]),
            ]),
        ),
    ]);
    let m = describe(&doc);
    assert_eq!(m.kind, "video");
    assert_eq!(m.title, "A video");
    assert_eq!(m.thumbnail.as_deref(), Some("large"));
    assert_eq!(m.duration_bits.map(f64::from_bits), Some(12.5));
    assert_eq!(m.heights, [1080, 720, 144]);
    assert_eq!(m.entry_count, None);
    assert!(m.entries.is_empty());
    assert_eq!(m.source, "Youtube");
}

#[test]
fn named_thumbnail_comes_first() {
    let doc = object(vec![
        ("thumbnail", text("named")),
        ("thumbnails", Json::Array(vec![object(vec![("url", text("listed"))])])),
    ]);
    assert_eq!(describe(&doc).thumbnail.as_deref(), Some("named"));
    assert_eq!(last_thumbnail(&doc).as_deref(), Some("listed"));
    assert_eq!(last_thumbnail(&object(vec![("thumbnails", Json::Array(vec![]))])), None);
    assert_eq!(last_thumbnail(&Json::Null), None);
}

#[test]
fn defaults_of_a_bare_document() {
    let m = describe(&object(vec![]));
    assert_eq!((m.kind.as_str(), m.title.as_str()), ("video", "(untitled)"));
    assert_eq!((m.thumbnail, m.duration_bits), (None, None));
    assert!(m.heights.is_empty());
    assert_eq!(m.source, "");
    let p = describe(&object(vec![("_type", text("playlist"))]));
    assert_eq!((p.kind.as_str(), p.title.as_str()), ("playlist", "Playlist"));
    assert_eq!(p.entry_count, Some(0));
}

#[test]
fn extractor_key_is_preferred() {
    assert_eq!(extractor_of(&object(vec![("extractor", text("vk"))])), "vk");
    assert_eq!(
        extractor_of(&object(vec![("extractor_key", number(1)), ("extractor", text("vk"))])),
        "vk"
    );
    assert_eq!(extractor_of(&text("no object")), "");
}

#[test]
fn playlist_is_described() {
    let doc = object(vec![
        ("_type", text("playlist")),
        ("title", text("A list")),
        ("extractor_key", text("YoutubeTab")),
        (
            "entries",
            Json::Array(vec![
                object(vec![
                    ("title", text("one")),
                    ("thumbnails", Json::Array(vec![object(vec![("url", text("first"))])])),
                ]),
                object(vec![]),
            ]),
        ),
        ("duration", number(9)),
    ]);
    let m = describe(&doc);
    assert_eq!(m.kind, "playlist");
    assert_eq!(m.title, "A list");
    assert_eq!(m.thumbnail.as_deref(), Some("first"));
    assert_eq!(m.duration_bits, None);
    assert_eq!(m.entry_count, Some(2));
    assert_eq!(m.entries, ["one", "(untitled)"]);
    assert_eq!(m.source, "YoutubeTab");
}

#[test]
fn long_playlists_list_five_hundred_titles() {
    let entries: Vec<Json> =
        (0..501).map(|i: u32| object(vec![("title", text(&format!("t{i}")))])).collect();
    let doc = object(vec![
        ("_type", text("playlist")),
        ("playlist_count", number(7000)),
        ("entries", Json::Array(entries)),
    ]);
    let m = describe(&doc);
    assert_eq!(m.entries.len(), 500);
    assert_eq!(m.entries[499], "t499");
    assert_eq!(m.entry_count, Some(7000));
}

#[test]
fn heights_are_cut_to_their_low_half() {
    let doc = object(vec![(
        "formats",
        Json::Array(vec![object(vec![("height", number(0x1_0000_0168))])]),
    )]);
    assert_eq!(describe(&doc).heights, [360]);
}

#[test]
fn documents_are_parsed() {
    let doc = parse_json(
        r#"{"title":"T","n":3,"d":12.5,"neg":-4,"ok":true,"list":[null,"x"],"title2":"é"}"#
            .as_bytes(),
    )
    .unwrap();
    assert_eq!(doc.text_at("title").as_deref(), Some("T"));
    assert_eq!(doc.text_at("title2").as_deref(), Some("é"));
    assert_eq!(doc.u64_at("n"), Some(3));
    assert_eq!(doc.float_bits_at("n").map(f64::from_bits), Some(3.0));
    assert_eq!(doc.u64_at("d"), None);
    assert_eq!(doc.float_bits_at("d").map(f64::from_bits), Some(12.5));
    assert_eq!(doc.u64_at("neg"), None);
    assert_eq!(doc.float_bits_at("neg").map(f64::from_bits), Some(-4.0));
    assert!(matches!(doc.get("ok"), Some(Json::Bool(true))));
    let list = doc.items_at("list").unwrap();
    assert_eq!(list.len(), 2);
    assert!(matches!(list[0], Json::Null));
    assert_eq!(list[1].as_str(), Some("x"));
    assert!(doc.get("missing").is_none());
    assert!(doc.as_array().is_none());
}

#[test]
fn the_last_of_repeated_fields_counts() {
    let doc = parse_json(br#"{"a":1,"a":2}"#).unwrap();
    assert_eq!(doc.u64_at("a"), Some(2));
}

#[test]
fn broken_documents_are_reported() {
    let error = parse_json(b"{").unwrap_err();
    assert_eq!(error, "EOF while parsing an object at line 1 column 1");
    let message = metadata_from_output(true, b"{", b"", "https://v").unwrap_err();
    assert_eq!(
        message,
        "unexpected yt-dlp output: EOF while parsing an object at line 1 column 1"
    );
    assert_eq!(unreadable_output("e"), "unexpected yt-dlp output: e");
}

#[test]
fn output_becomes_metadata_or_a_message() {
    let ok = metadata_from_output(
        true,
        br#"{"title":"T","formats":[{"height":360},{"height":720}],"extractor_key":"Vimeo"}"#,
        b"ERROR: ignored",
        "https://v",
    )
    .unwrap();
    assert_eq!(ok.title, "T");
    assert_eq!(ok.heights, [720, 360]);
    assert_eq!(ok.source, "Vimeo");
    let failed = metadata_from_output(false, b"{}", b"ERROR: boom", "https://v").unwrap_err();
    assert_eq!(failed, "ERROR: boom");
}
