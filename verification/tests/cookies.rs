use video_plucker::cookies::{
    clean_name, copy_failure, delete_cookie, import_cookie, list_cookies, profile_stem,
    sanitize_cookie_name, CookieEntry, ListedFile,
};
use video_plucker::matching::{
    choose_candidate, detect_platform, does_serve, platform_aliases, platform_file_name,
    platform_in, settings_cookie_file, Candidate,
};

fn entry(file_name: &str) -> ListedFile {
    ListedFile {
        file_name: file_name.to_string(),
        path: format!("/cookies/{file_name}"),
        is_file: true,
    }
}

/// Looks a URL up in a directory that holds files of the given names.
fn cookie_file(names: &[&str], url: &str) -> Option<String> {
    let files: Vec<ListedFile> = names.iter().map(|n| entry(n)).collect();
    let platform_file = platform_file_name(url)
        .filter(|f| names.contains(&f.as_str()))
        .map(|f| format!("/cookies/{f}"));
    settings_cookie_file(&files, platform_file.as_deref(), url)
}

#[test]
fn cookie_name_sanitizes_safely() {
    assert_eq!(sanitize_cookie_name("Insta").unwrap(), "insta");
    assert_eq!(sanitize_cookie_name(" insta.com ").unwrap(), "insta.com");
    assert_eq!(sanitize_cookie_name("../../evil").unwrap(), "evil");
    assert_eq!(sanitize_cookie_name("x/y").unwrap(), "x_y");
    assert!(sanitize_cookie_name("").is_err());
    assert!(sanitize_cookie_name("...").is_err());
    assert!(sanitize_cookie_name("///").is_err());
}

#[test]
fn matching_uses_name_substring_in_url() {
    assert_eq!(
        cookie_file(&["insta.txt"], "https://www.instagram.com/reel/abc/").as_deref(),
        Some("/cookies/insta.txt")
    );
    assert_eq!(cookie_file(&["insta.txt"], "https://example.com/"), None);
}

#[test]
fn longest_name_wins() {
    assert_eq!(
        cookie_file(
            &["insta.txt", "instagram.txt"],
            "https://www.instagram.com/reel/abc123/"
        )
        .as_deref(),
        Some("/cookies/instagram.txt")
    );
    // shorter profile still matches when it is the only one available
    assert_eq!(
        cookie_file(&["insta.txt"], "https://www.instagram.com/reel/abc123/").as_deref(),
        Some("/cookies/insta.txt")
    );
}

#[test]
fn legacy_platform_names_still_match() {
    let names = ["twitter.txt", "youtube.txt"];
    // x.com URLs never contain "twitter"; the platform mapping supplies it.
    assert_eq!(
        cookie_file(&names, "https://x.com/somebody/status/123").as_deref(),
        Some("/cookies/twitter.txt")
    );
    // youtu.be short links don't contain "youtube" either.
    assert_eq!(
        cookie_file(&names, "https://youtu.be/abc123").as_deref(),
        Some("/cookies/youtube.txt")
    );
}

#[test]
fn vk_profiles_match_across_all_vk_hosts() {
    let names = ["vk.txt", "vk_video.txt", "vkontakte.txt"];
    for url in [
        "https://vk.com/video-100500_456239017",
        "https://m.vk.ru/video-100500_456239017",
        "https://vkvideo.ru/video-100500_456239017",
    ] {
        assert_eq!(
            cookie_file(&names, url).as_deref(),
            Some("/cookies/vkontakte.txt"),
            "longest vk profile should win for {url}"
        );
    }
    // a non-vk URL must not be served by "vk"-titled profiles
    assert_eq!(cookie_file(&names, "https://github.com/").as_deref(), None);
}

#[test]
fn x_com_profiles_serve_twitter_links() {
    let names = ["x.com.txt"];
    // A profile named after either domain must serve both hosts.
    assert_eq!(
        cookie_file(&names, "https://twitter.com/user/status/123").as_deref(),
        Some("/cookies/x.com.txt")
    );
    assert_eq!(
        cookie_file(&names, "https://x.com/user/status/123").as_deref(),
        Some("/cookies/x.com.txt")
    );
}

#[test]
fn vk_profile_sanitized_from_friendly_name() {
    // "VK Video" becomes "vk_video"; a vk.com URL must still find it
    assert_eq!(sanitize_cookie_name("VK Video").unwrap(), "vk_video");
    assert_eq!(
        cookie_file(&["vk_video.txt"], "https://vk.com/video-100500_456239017").as_deref(),
        Some("/cookies/vk_video.txt")
    );
}

#[test]
fn refused_names_say_why() {
    assert_eq!(
        sanitize_cookie_name("日本").unwrap_err(),
        "cookie name must contain at least one letter or digit"
    );
    assert_eq!(
        import_cookie("-_.").unwrap_err(),
        "cookie name must contain at least one letter or digit"
    );
    assert_eq!(
        delete_cookie("").unwrap_err(),
        "cookie name must contain at least one letter or digit"
    );
}

#[test]
fn names_are_lowered_by_unicode() {
    // the Kelvin sign is lowered to an ordinary k
    assert_eq!(sanitize_cookie_name("V\u{212A}").unwrap(), "vk");
    assert_eq!(sanitize_cookie_name("É-site").unwrap(), "site");
    assert_eq!(clean_name("abc").as_deref(), Some("abc"));
    assert_eq!(clean_name("a b").as_deref(), Some("a_b"));
    assert_eq!(clean_name("__"), None);
}

#[test]
fn names_are_cut_after_trimming() {
    let long = "a".repeat(70);
    assert_eq!(sanitize_cookie_name(&long).unwrap(), "a".repeat(64));
    let exact = "b".repeat(64);
    assert_eq!(sanitize_cookie_name(&exact).unwrap(), exact);
    // marks that the cut leaves at the end go too
    let tail = format!("{}_z", "c".repeat(63));
    assert_eq!(sanitize_cookie_name(&tail).unwrap(), "c".repeat(63));
    let marks = format!("d{}z", "-_.".repeat(30));
    assert_eq!(sanitize_cookie_name(&marks).unwrap(), "d");
}

#[test]
fn long_names_are_deleted_by_the_name_of_their_import() {
    for raw in [format!("{}_z", "c".repeat(63)), format!("{} - {}", "A".repeat(62), "b".repeat(9))] {
        let import = import_cookie(&raw).unwrap();
        assert!(!import.name.ends_with(['.', '_', '-']));
        assert_eq!(sanitize_cookie_name(&import.name).unwrap(), import.name);
        assert_eq!(delete_cookie(&import.name).unwrap(), import.file_name);
    }
}

#[test]
fn imported_profiles_are_listed_under_their_names() {
    let before = vec![entry("insta.txt"), entry("notes.md"), entry("zoo.txt")];
    for raw in ["../Some Site", "VK Video", "insta", "X.com"] {
        let import = import_cookie(raw).unwrap();
        let mut after: Vec<ListedFile> = vec![entry(&import.file_name)];
        after.extend(
            before.iter().filter(|f| f.file_name != import.file_name).map(|f| entry(&f.file_name)),
        );
        let listed = list_cookies(&after);
        let path = format!("/cookies/{}", import.file_name);
        assert!(listed.iter().any(|e| e.name == import.name && e.path == path));
        let others = |list: Vec<CookieEntry>| -> Vec<(String, String)> {
            list.into_iter().filter(|e| e.name != import.name).map(|e| (e.name, e.path)).collect()
        };
        assert_eq!(others(listed), others(list_cookies(&before)));
    }
}

#[test]
fn deletion_names_the_same_file_each_time() {
    assert_eq!(delete_cookie("Insta").unwrap(), "insta.txt");
    assert_eq!(delete_cookie("Insta").unwrap(), delete_cookie("insta").unwrap());
    assert_eq!(delete_cookie("..").unwrap_err(), delete_cookie("..").unwrap_err());
}

#[test]
fn deleted_profiles_are_not_listed() {
    let import = import_cookie(&format!("{}_z", "c".repeat(63))).unwrap();
    let mut files = vec![entry("insta.txt"), entry(&import.file_name)];
    assert!(list_cookies(&files).iter().any(|e| e.name == import.name));
    let gone = delete_cookie(&import.name).unwrap();
    files.retain(|f| f.file_name != gone);
    let names: Vec<String> = list_cookies(&files).into_iter().map(|e| e.name).collect();
    assert_eq!(names, vec!["insta".to_string()]);
}

#[test]
fn cleaning_a_clean_name_changes_nothing() {
    for raw in ["Insta", " a/../b ", "x.com", "VK Video", "ABC-123"] {
        let name = sanitize_cookie_name(raw).unwrap();
        assert_eq!(sanitize_cookie_name(&name).unwrap(), name);
    }
}

#[test]
fn what_is_imported_can_be_deleted() {
    let import = import_cookie("../Some Site").unwrap();
    assert_eq!(import.name, "some_site");
    assert_eq!(import.file_name, "some_site.txt");
    assert_eq!(delete_cookie(&import.name).unwrap(), import.file_name);
    assert_eq!(profile_stem(&import.file_name).unwrap(), import.name);
    assert_eq!(copy_failure("no space"), "failed to copy cookies: no space");
}

#[test]
fn only_text_files_hold_profiles() {
    assert_eq!(profile_stem("insta.txt").as_deref(), Some("insta"));
    assert_eq!(profile_stem("a.b.txt").as_deref(), Some("a.b"));
    assert_eq!(profile_stem("..txt").as_deref(), Some("."));
    assert_eq!(profile_stem(".txt"), None);
    assert_eq!(profile_stem("insta.TXT"), None);
    assert_eq!(profile_stem("insta"), None);
    assert_eq!(profile_stem("txt"), None);
    assert_eq!(profile_stem("insta.txt.bak"), None);
}

#[test]
fn profiles_are_listed_in_order_of_names() {
    let mut files: Vec<ListedFile> = ["b.txt", "a.txt", "B.txt", "ab.txt", "é.txt", "notes.md"]
        .iter()
        .map(|n| entry(n))
        .collect();
    files.push(ListedFile {
        file_name: "dir.txt".into(),
        path: "/cookies/dir.txt".into(),
        is_file: false,
    });
    let list = list_cookies(&files);
    let names: Vec<&str> = list.iter().map(|e| e.name.as_str()).collect();
    assert_eq!(names, ["B", "a", "ab", "b", "é"]);
    assert_eq!(list[2].path, "/cookies/ab.txt");
}

#[test]
fn profiles_of_one_name_keep_their_order() {
    let files: Vec<ListedFile> = [("x.txt", "1"), ("a.txt", "2"), ("x.txt", "3")]
        .iter()
        .map(|(n, p)| ListedFile {
            file_name: n.to_string(),
            path: p.to_string(),
            is_file: true,
        })
        .collect();
    let list = list_cookies(&files);
    let paths: Vec<&str> = list.iter().map(|e| e.path.as_str()).collect();
    assert_eq!(paths, ["2", "1", "3"]);
    assert!(list_cookies(&Vec::new()).is_empty());
}

#[test]
fn platforms_are_detected_in_any_case() {
    assert_eq!(detect_platform("HTTPS://TWITTER.COM/a"), Some("twitter"));
    assert_eq!(detect_platform("https://x.com/a"), Some("twitter"));
    assert_eq!(detect_platform("https://YouTube.com/a"), Some("youtube"));
    assert_eq!(detect_platform("https://youtu.be/a"), Some("youtube"));
    assert_eq!(detect_platform("https://tiktok.com/a"), Some("tiktok"));
    assert_eq!(detect_platform("https://vk.com/a"), Some("vk"));
    assert_eq!(detect_platform("https://vk.ru/a"), Some("vk"));
    assert_eq!(detect_platform("https://vkvideo.ru/a"), Some("vk"));
    assert_eq!(detect_platform("https://example.org/a"), None);
    assert_eq!(platform_in("https://VK.COM"), None);
}

#[test]
fn aliases_of_platforms() {
    assert_eq!(platform_aliases(Some("vk")), ["vk", "vkontakte"]);
    assert_eq!(platform_aliases(Some("twitter")), ["x.com", "twitter"]);
    assert!(platform_aliases(Some("youtube")).is_empty());
    assert!(platform_aliases(None).is_empty());
}

#[test]
fn platform_files_are_named_after_platforms() {
    assert_eq!(platform_file_name("https://X.COM/a").as_deref(), Some("twitter.txt"));
    assert_eq!(platform_file_name("https://youtu.be/a").as_deref(), Some("youtube.txt"));
    assert_eq!(platform_file_name("https://example.org/"), None);
}

#[test]
fn serving_goes_by_name_or_alias() {
    assert!(does_serve("insta", "https://instagram.com", &[]));
    assert!(!does_serve("", "https://instagram.com", &[]));
    assert!(!does_serve("face", "https://instagram.com", &[]));
    assert!(does_serve("my_vk_login", "https://m.vk.ru", &["vk", "vkontakte"]));
}

#[test]
fn equally_long_names_go_by_order() {
    let list = |names: &[&str]| -> Vec<Candidate> {
        names
            .iter()
            .enumerate()
            .map(|(i, n)| Candidate { name: n.to_string(), path: i.to_string() })
            .collect()
    };
    assert_eq!(choose_candidate(&list(&["gram", "inst"])), Some(0));
    assert_eq!(choose_candidate(&list(&["inst", "gram"])), Some(1));
    // of the very same name the last one is taken
    assert_eq!(choose_candidate(&list(&["gram", "gram", "inst"])), Some(1));
    // the length of a name is that of its bytes
    assert_eq!(choose_candidate(&list(&["abc", "éé"])), Some(1));
    assert_eq!(choose_candidate(&list(&[])), None);
}

#[test]
fn profile_names_match_without_regard_to_case() {
    assert_eq!(
        cookie_file(&["InStA.txt"], "https://www.INSTAGRAM.com/").as_deref(),
        Some("/cookies/InStA.txt")
    );
}

#[test]
fn platform_file_outside_the_listing_is_used() {
    assert_eq!(
        settings_cookie_file(&Vec::new(), Some("/else/twitter.txt"), "https://x.com/a").as_deref(),
        Some("/else/twitter.txt")
    );
    assert_eq!(
        settings_cookie_file(&Vec::new(), Some("/else/any.txt"), "https://example.org/"),
        None
    );
}

#[test]
fn directories_are_no_profiles() {
    let files = vec![ListedFile {
        file_name: "insta.txt".into(),
        path: "/cookies/insta.txt".into(),
        is_file: false,
    }];
    assert_eq!(settings_cookie_file(&files, None, "https://instagram.com/"), None);
}

#[test]
fn profile_names_stay_in_the_directory() {
    for raw in ["../../etc/passwd", "..\\..\\x", "/abs", "a/../../b", ".hidden", "~root", "C:\\x"] {
        let import = import_cookie(raw).unwrap();
        assert!(!import.file_name.contains('/'));
        assert!(!import.file_name.contains('\\'));
        assert!(import.name.starts_with(|c: char| c.is_ascii_lowercase() || c.is_ascii_digit()));
        assert!(import.name.chars().all(|c| {
            c.is_ascii_lowercase() || c.is_ascii_digit() || "._-".contains(c)
        }));
    }
}
