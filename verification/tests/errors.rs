use video_plucker::errors::{
    classified, classify, failure_kind, kind_of, leads_to_photo_post, login_friendly, login_message,
    platform_name, platform_name_in, worse, Failure, FailureKind, GENERIC_MSG, LOGIN_SIGNATURES,
    STALE_ENGINE_MSG, STALE_SIGNATURES, TIKTOK_PHOTO_MSG,
};

#[test]
fn bot_check_is_login_required() {
    let (kind, _) = classify(
        "ERROR: [youtube] abc: Sign in to confirm you're not a bot.",
        Some("https://youtube.com/watch?v=abc"),
    );
    assert_eq!(kind, FailureKind::LoginRequired);
}

#[test]
fn http_401_is_login_required_with_platform_name() {
    let (_, friendly) = classify(
        "ERROR: unable to download video data: HTTP Error 401: Unauthorized",
        Some("https://www.tiktok.com/@user/video/123"),
    );
    assert!(friendly.starts_with("TikTok requires"));
}

#[test]
fn nsig_failure_is_stale_engine() {
    let (kind, _) = classify("ERROR: nsig extraction failed: some player issue", None);
    assert_eq!(kind, FailureKind::StaleEngine);
}

#[test]
fn tiktok_photo_is_unsupported_content() {
    let (kind, friendly) = classify(
        "ERROR: Unsupported URL: https://www.tiktok.com/@u/photo/7123",
        Some("https://www.tiktok.com/@u/photo/7123"),
    );
    assert_eq!(kind, FailureKind::UnsupportedContent);
    assert_eq!(friendly, TIKTOK_PHOTO_MSG);
}

#[test]
fn unsupported_url_without_photo_context_is_other() {
    let (kind, _) = classify(
        "ERROR: Unsupported URL: https://example.com/x",
        Some("https://example.com/x"),
    );
    assert_eq!(kind, FailureKind::Other);
}

#[test]
fn unknown_error_is_other() {
    let (kind, friendly) = classify("ERROR: something exploded", None);
    assert_eq!(kind, FailureKind::Other);
    assert_eq!(friendly, GENERIC_MSG);
}

#[test]
fn worse_prefers_higher_rank_and_latest_on_tie() {
    let login: Failure = (FailureKind::LoginRequired, "a".into());
    let stale: Failure = (FailureKind::StaleEngine, "b".into());
    let other: Failure = (FailureKind::Other, "c".into());
    let merged = worse(Some(stale.clone()), Some(login.clone())).unwrap();
    assert_eq!(merged.0, FailureKind::LoginRequired);
    let merged = worse(Some(other.clone()), Some(stale.clone())).unwrap();
    assert_eq!(merged.0, FailureKind::StaleEngine);
    let merged = worse(None, Some(login)).unwrap();
    assert_eq!(merged.0, FailureKind::LoginRequired);
}

#[test]
fn ties_go_to_the_later_failure() {
    let first: Failure = (FailureKind::StaleEngine, "first".into());
    let second: Failure = (FailureKind::StaleEngine, "second".into());
    let merged = worse(Some(first.clone()), Some(second)).unwrap();
    assert_eq!(merged.1, "second");
    let kept = worse(Some(first), None).unwrap();
    assert_eq!(kept.1, "first");
    assert!(worse(None, None).is_none());
}

#[test]
fn a_more_specific_failure_is_not_displaced() {
    let login: Failure = (FailureKind::LoginRequired, "login".into());
    let photo: Failure = (FailureKind::UnsupportedContent, "photo".into());
    let merged = worse(Some(login), Some(photo)).unwrap();
    assert_eq!(merged, (FailureKind::LoginRequired, "login".to_string()));
}

#[test]
fn stored_kinds_are_read_back() {
    for kind in [
        FailureKind::LoginRequired,
        FailureKind::UnsupportedContent,
        FailureKind::StaleEngine,
        FailureKind::Other,
    ] {
        assert_eq!(kind_of(kind.as_str()), kind);
    }
    assert_eq!(FailureKind::LoginRequired.as_str(), "login_required");
    assert_eq!(FailureKind::UnsupportedContent.as_str(), "unsupported_content");
    assert_eq!(FailureKind::StaleEngine.as_str(), "stale_engine");
    assert_eq!(FailureKind::Other.as_str(), "other");
    assert_eq!(kind_of("no such kind"), FailureKind::Other);
    assert_eq!(kind_of("Stale_Engine"), FailureKind::Other);
}

#[test]
fn ranks_order_the_kinds() {
    assert_eq!(FailureKind::LoginRequired.rank(), 3);
    assert_eq!(FailureKind::UnsupportedContent.rank(), 2);
    assert_eq!(FailureKind::StaleEngine.rank(), 1);
    assert_eq!(FailureKind::Other.rank(), 0);
}

#[test]
fn each_signature_is_recognised_in_any_case() {
    for signature in LOGIN_SIGNATURES {
        assert_eq!(failure_kind(signature, false), FailureKind::LoginRequired);
        let loud = format!("ERROR: {} !", signature.to_uppercase());
        assert_eq!(classify(&loud, None).0, FailureKind::LoginRequired);
    }
    for signature in STALE_SIGNATURES {
        assert_eq!(failure_kind(signature, false), FailureKind::StaleEngine);
        let loud = format!("ERROR: {} !", signature.to_uppercase());
        assert_eq!(classify(&loud, None).0, FailureKind::StaleEngine);
        assert_eq!(classify(&loud, None).1, STALE_ENGINE_MSG);
    }
}

#[test]
fn locked_cookie_database_gets_plain_guidance() {
    let (kind, friendly) = classify(
        "ERROR: Could not copy Chrome cookie database. See yt-dlp #7271",
        Some("https://youtu.be/abc"),
    );
    assert_eq!(kind, FailureKind::LoginRequired);
    assert_eq!(
        friendly,
        "YouTube requires a logged-in account to download this. Import a cookies.txt for the \
         site in the Cookie Manager below, then try again."
    );
}

#[test]
fn login_guidance_without_a_known_site() {
    let message = "This site requires a logged-in account. Import its cookies.txt in the \
                   Cookie Manager below, then try again.";
    assert_eq!(login_friendly(None), message);
    assert_eq!(login_friendly(Some("https://example.com/")), message);
    assert_eq!(login_message(None), message);
}

#[test]
fn platform_names_are_found_in_any_case() {
    assert_eq!(platform_name("https://YOUTU.BE/abc"), Some("YouTube"));
    assert_eq!(platform_name("https://www.youtube.com/watch"), Some("YouTube"));
    assert_eq!(platform_name("https://X.com/a"), Some("X (Twitter)"));
    assert_eq!(platform_name("https://twitter.com/a"), Some("X (Twitter)"));
    assert_eq!(platform_name("https://tiktok.com/a"), Some("TikTok"));
    assert_eq!(platform_name("https://instagram.com/a"), Some("Instagram"));
    assert_eq!(platform_name("https://facebook.com/a"), Some("Facebook"));
    assert_eq!(platform_name("https://fb.watch/a"), Some("Facebook"));
    assert_eq!(platform_name("https://reddit.com/a"), Some("Reddit"));
    assert_eq!(platform_name("https://vk.com/a"), Some("VK"));
    assert_eq!(platform_name("https://vk.ru/a"), Some("VK"));
    assert_eq!(platform_name("https://vkvideo.ru/a"), Some("VK"));
    assert_eq!(platform_name("https://example.org/"), None);
    // the caller of this one has lowered the text
    assert_eq!(platform_name_in("https://YOUTU.BE/abc"), None);
}

#[test]
fn photo_marker_is_case_sensitive() {
    let raw = "ERROR: UNSUPPORTED URL";
    let photo = "https://tiktok.com/@u/photo/1";
    assert_eq!(classify(raw, Some(photo)).0, FailureKind::UnsupportedContent);
    assert_eq!(classify(raw, Some("https://tiktok.com/@u/PHOTO/1")).0, FailureKind::Other);
    assert_eq!(classify(raw, None).0, FailureKind::Other);
}

#[test]
fn tiktok_is_recognised_in_any_case() {
    for url in ["https://www.TikTok.com/@u/photo/1", "HTTPS://TIKTOK.COM/@u/photo/1"] {
        let (kind, friendly) = classify("ERROR: Unsupported URL", Some(url));
        assert_eq!(kind, FailureKind::UnsupportedContent);
        assert_eq!(friendly, TIKTOK_PHOTO_MSG);
    }
    assert!(leads_to_photo_post("tiktok.com/photo/1", ""));
    assert!(leads_to_photo_post("TIKTOK.com/photo/1", "tiktok.com/photo/1"));
    assert!(!leads_to_photo_post("TIKTOK.com/photo/1", "TIKTOK.com/photo/1"));
    assert!(!leads_to_photo_post("TIKTOK.com/PHOTO/1", "tiktok.com/photo/1"));
}

#[test]
fn photos_of_other_sites_are_no_unsupported_content() {
    let url = "https://www.facebook.com/photo/?fbid=1";
    let raw = format!("ERROR: Unsupported URL: {url}");
    assert_eq!(classify(&raw, Some(url)), (FailureKind::Other, "Download failed.".to_string()));
    assert_eq!(
        classify("Unsupported URL, login required", Some(url)).0,
        FailureKind::LoginRequired
    );
    assert_eq!(
        classify("Unsupported URL, HTTP Error 403", Some(url)).0,
        FailureKind::StaleEngine
    );
    assert_eq!(classified(&raw, Some(url)).kind, "other");
}

#[test]
fn photo_post_outweighs_login_signature() {
    let raw = "Unsupported URL, login required";
    let photo = "https://tiktok.com/@u/photo/1";
    let video = "https://tiktok.com/@u/video/1";
    assert_eq!(classify(raw, Some(photo)).0, FailureKind::UnsupportedContent);
    assert_eq!(classify(raw, Some(video)).0, FailureKind::LoginRequired);
    assert_eq!(failure_kind("unsupported url, login required", true), FailureKind::UnsupportedContent);
    assert_eq!(failure_kind("login required", true), FailureKind::LoginRequired);
}

#[test]
fn login_signature_outweighs_stale_one() {
    assert_eq!(
        classify("HTTP Error 403, please log in", None).0,
        FailureKind::LoginRequired
    );
}

#[test]
fn payload_form_carries_the_stored_word() {
    let failure = classified("HTTP Error 403: Forbidden", None);
    assert_eq!(failure.kind, "stale_engine");
    assert_eq!(failure.friendly, STALE_ENGINE_MSG);
    let unknown = classified("boom", Some("https://example.com"));
    assert_eq!(unknown.kind, "other");
    assert_eq!(unknown.friendly, "Download failed.");
}

#[test]
fn merging_may_be_grouped_in_any_way() {
    let all = [
        None,
        Some((FailureKind::Other, "o".to_string())),
        Some((FailureKind::StaleEngine, "s".to_string())),
        Some((FailureKind::UnsupportedContent, "u".to_string())),
        Some((FailureKind::LoginRequired, "l".to_string())),
        Some((FailureKind::StaleEngine, "t".to_string())),
    ];
    for a in &all {
        for b in &all {
            for c in &all {
                assert_eq!(
                    worse(worse(a.clone(), b.clone()), c.clone()),
                    worse(a.clone(), worse(b.clone(), c.clone()))
                );
            }
        }
    }
}

#[test]
fn guidance_does_not_show_the_raw_output() {
    let url = Some("https://vk.com/video");
    assert_eq!(
        classify("ERROR: age-restricted, secret-1", url),
        classify("members-only: secret-2", url)
    );
}
