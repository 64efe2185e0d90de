//! Download-failure classification.
//!
//! Raw yt-dlp output is mapped to plain-language guidance, and the known
//! signatures of an engine that got too old for a site are flagged, so that a
//! failed download can heal itself by updating the engine.

use vstd::prelude::*;
use vstd::utf8::*;
use vstd::string::*;

use crate::text;

verus! {

broadcast use vstd::string::group_string_axioms;

/// Why a download failed.
#[derive(Debug, Clone, Copy, PartialEq, Eq, Structural)]
pub enum FailureKind {
    /// The site demands a logged-in session; cookies fix it.
    LoginRequired,
    /// A TikTok photo or slideshow post, which yt-dlp cannot download.
    UnsupportedContent,
    /// The signature matches a known stale-engine breakage.
    StaleEngine,
    /// Anything else.
    Other,
}

/// What gets attached to error and done payloads.
#[derive(Debug, Clone)]
pub struct ClassifiedFailure {
    pub kind: &'static str,
    pub friendly: String,
}

/// Shown for a TikTok photo post.
pub const TIKTOK_PHOTO_MSG: &'static str =
    "TikTok photo posts aren't supported yet — try an audio-only quality or a different link.";

/// Shown while an outdated engine is being replaced.
pub const STALE_ENGINE_MSG: &'static str =
    "The bundled downloader looks out of date for this site. Updating it and retrying…";

/// Shown where nothing more is known.
pub const GENERIC_MSG: &'static str = "Download failed.";

/// Signatures that mean "this needs cookies or a logged-in browser session".
pub const LOGIN_SIGNATURES: [&'static str; 16] = [
    "sign in to confirm",
    "confirm you're not a bot",
    "only available to registered users",
    "http error 401",
    "--cookies-from-browser or --cookies",
    "login required",
    "log in required",
    "you need to log in",
    "please log in",
    "requires authentication",
    "members-only",
    "join this channel",
    "confirm your age",
    "age-restricted",
    // Chrome holds the cookie database while it runs (yt-dlp #7271).
    "could not copy",
    "cookie database",
];

/// Signatures that mean that yt-dlp rotted against a changed site: an engine
/// update usually fixes them.
pub const STALE_SIGNATURES: [&'static str; 12] = [
    "unable to extract",
    "failed to extract",
    "nsig extraction failed",
    "signature extraction failed",
    "http error 400",
    "http error 403",
    "http error 429",
    "too many requests",
    "rate limit",
    "captcha",
    "impersonat",
    "update yt-dlp",
];

/// A failure and what the user is told about it.
pub type Failure = (FailureKind, String);

impl FailureKind {
    /// The word by which a kind is stored.
    pub open spec fn label(self) -> Seq<char> {
        match self {
            FailureKind::LoginRequired => "login_required"@,
            FailureKind::UnsupportedContent => "unsupported_content"@,
            FailureKind::StaleEngine => "stale_engine"@,
            FailureKind::Other => "other"@,
        }
    }

    /// How specific an explanation of this kind is.
    pub open spec fn specificity(self) -> int {
        match self {
            FailureKind::LoginRequired => 3,
            FailureKind::UnsupportedContent => 2,
            FailureKind::StaleEngine => 1,
            FailureKind::Other => 0,
        }
    }

    /// The word by which this kind is stored.
    pub fn as_str(self) -> (label: &'static str)
        ensures
            label@ == self.label(),
    {
        match self {
            FailureKind::LoginRequired => "login_required",
            FailureKind::UnsupportedContent => "unsupported_content",
            FailureKind::StaleEngine => "stale_engine",
            FailureKind::Other => "other",
        }
    }

    /// How specific this kind is: the higher, the more specific.
    pub fn rank(self) -> (rank: u8)
        ensures
            rank == self.specificity(),
    {
        match self {
            FailureKind::LoginRequired => 3,
            FailureKind::UnsupportedContent => 2,
            FailureKind::StaleEngine => 1,
            FailureKind::Other => 0,
        }
    }

    /// The kind that a stored word stands for; an unknown word stands for
    /// `Other`.
    pub fn from_str(label: &str) -> (kind: Self)
        ensures
            kind == labelled(label@),
    {
        if text::same_text(label, "login_required") {
            FailureKind::LoginRequired
        } else if text::same_text(label, "unsupported_content") {
            FailureKind::UnsupportedContent
        } else if text::same_text(label, "stale_engine") {
            FailureKind::StaleEngine
        } else {
            FailureKind::Other
        }
    }
}

/// The kind that a stored word stands for.
pub open spec fn labelled(label: Seq<char>) -> FailureKind {
    if label == "login_required"@ {
        FailureKind::LoginRequired
    } else if label == "unsupported_content"@ {
        FailureKind::UnsupportedContent
    } else if label == "stale_engine"@ {
        FailureKind::StaleEngine
    } else {
        FailureKind::Other
    }
}

/// The better explanation of two: the more specific one, or the later one if
/// neither is more specific.
pub open spec fn worse_of(earlier: Option<Failure>, later: Option<Failure>) -> Option<Failure> {
    match (earlier, later) {
        (Some(x), Some(y)) => if x.0.specificity() > y.0.specificity() {
            Some(x)
        } else {
            Some(y)
        },
        (Some(x), None) => Some(x),
        (None, y) => y,
    }
}

/// The kind of a failure, if there is one.
pub open spec fn kind_in(failure: Option<Failure>) -> Option<FailureKind> {
    match failure {
        Some((kind, _)) => Some(kind),
        None => None,
    }
}

/// The best explanation of a run of failures, merged one after the other.
pub open spec fn worst_of(failures: Seq<Failure>) -> Option<Failure>
    decreases failures.len(),
{
    if failures.len() == 0 {
        None
    } else {
        worse_of(worst_of(failures.drop_last()), Some(failures.last()))
    }
}

/// The name by which users know the site of a URL in lower case.
pub open spec fn platform_label(lower: Seq<char>) -> Option<Seq<char>> {
    if text::contains_text(lower, "youtube.com"@) || text::contains_text(lower, "youtu.be"@) {
        Some("YouTube"@)
    } else if text::contains_text(lower, "twitter.com"@) || text::contains_text(lower, "x.com"@) {
        Some("X (Twitter)"@)
    } else if text::contains_text(lower, "tiktok.com"@) {
        Some("TikTok"@)
    } else if text::contains_text(lower, "instagram.com"@) {
        Some("Instagram"@)
    } else if text::contains_text(lower, "facebook.com"@) || text::contains_text(
        lower,
        "fb.watch"@,
    ) {
        Some("Facebook"@)
    } else if text::contains_text(lower, "reddit.com"@) {
        Some("Reddit"@)
    } else if text::contains_text(lower, "vk.com"@) || text::contains_text(lower, "vk.ru"@)
        || text::contains_text(lower, "vkvideo.ru"@) {
        Some("VK"@)
    } else {
        None
    }
}

/// The name by which users know the site of a URL, where there is one.
pub open spec fn site_of(url: Option<&str>) -> Option<Seq<char>> {
    match url {
        Some(u) => platform_label(text::lowercase(u@)),
        None => None,
    }
}

/// What a user is told whose download needs a login.
pub open spec fn login_text(site: Option<Seq<char>>) -> Seq<char> {
    match site {
        Some(name) => name
            + " requires a logged-in account to download this. Import a cookies.txt for the site in the Cookie Manager below, then try again."@,
        None =>
            "This site requires a logged-in account. Import its cookies.txt in the Cookie Manager below, then try again."@,
    }
}

/// What a user is told of a failure, which is never the raw output.
pub open spec fn friendly_text(kind: FailureKind, site: Option<Seq<char>>) -> Seq<char> {
    match kind {
        FailureKind::LoginRequired => login_text(site),
        FailureKind::UnsupportedContent => TIKTOK_PHOTO_MSG@,
        FailureKind::StaleEngine => STALE_ENGINE_MSG@,
        FailureKind::Other => GENERIC_MSG@,
    }
}

/// A URL, in lower case `lower_url`, leads to a photo or slideshow post of TikTok.
pub open spec fn is_tiktok_photo(url: Seq<char>, lower_url: Seq<char>) -> bool {
    &&& text::contains_text(url, "/photo/"@)
    &&& text::contains_text(url, "tiktok.com"@) || text::contains_text(lower_url, "tiktok.com"@)
}

/// A download is of a photo or slideshow post of TikTok, as far as its URL is known.
pub open spec fn is_photo_post(url: Option<Seq<char>>) -> bool {
    url matches Some(u) && is_tiktok_photo(u, text::lowercase(u))
}

/// The kind of a failure whose message, in lower case, is `lower`; `photo_post`
/// says if the download is of a photo or slideshow post of TikTok.
pub open spec fn kind_of_lowered(lower: Seq<char>, photo_post: bool) -> FailureKind {
    if text::contains_text(lower, "unsupported url"@) && photo_post {
        FailureKind::UnsupportedContent
    } else if text::contains_any_text(lower, LOGIN_SIGNATURES@) {
        FailureKind::LoginRequired
    } else if text::contains_any_text(lower, STALE_SIGNATURES@) {
        FailureKind::StaleEngine
    } else {
        FailureKind::Other
    }
}

/// The kind of a failure whose message, in lower case, is `lower`.
pub open spec fn kind_of_message(lower: Seq<char>, url: Option<Seq<char>>) -> FailureKind {
    kind_of_lowered(lower, is_photo_post(url))
}

/// What an error line about a download of `url` is classified as.
pub open spec fn is_classification(raw: Seq<char>, url: Option<&str>, failure: Failure) -> bool {
    &&& failure.0 == kind_of_message(text::lowercase(raw), text::opt_str(url))
    &&& failure.1@ == friendly_text(failure.0, site_of(url))
}

/// The payload for an error line about a download of `url`.
pub open spec fn is_payload(raw: Seq<char>, url: Option<&str>, failure: ClassifiedFailure) -> bool {
    let kind = kind_of_message(text::lowercase(raw), text::opt_str(url));
    &&& failure.kind@ == kind.label()
    &&& failure.friendly@ == friendly_text(kind, site_of(url))
}

/// Keeps whichever explanation best describes why the job died: the most
/// specific kind wins, and ties go to the latest failure.
pub fn worse(a: Option<Failure>, b: Option<Failure>) -> (merged: Option<Failure>)
    ensures
        merged == worse_of(a, b),
{
    match (a, b) {
        (None, y) => y,
        (x, None) => x,
        (Some(x), Some(y)) => Some(
            if y.0.rank() >= x.0.rank() {
                y
            } else {
                x
            },
        ),
    }
}

/// Turns a stored word back into a kind.
pub fn kind_of(s: &str) -> (kind: FailureKind)
    ensures
        kind == labelled(s@),
{
    FailureKind::from_str(s)
}

/// The site name of a URL that is in lower case already.
pub fn platform_name_in(lower: &str) -> (name: Option<&'static str>)
    ensures
        text::opt_str(name) == platform_label(lower@),
{
    if text::contains(lower, "youtube.com") || text::contains(lower, "youtu.be") {
        Some("YouTube")
    } else if text::contains(lower, "twitter.com") || text::contains(lower, "x.com") {
        Some("X (Twitter)")
    } else if text::contains(lower, "tiktok.com") {
        Some("TikTok")
    } else if text::contains(lower, "instagram.com") {
        Some("Instagram")
    } else if text::contains(lower, "facebook.com") || text::contains(lower, "fb.watch") {
        Some("Facebook")
    } else if text::contains(lower, "reddit.com") {
        Some("Reddit")
    } else if text::contains(lower, "vk.com") || text::contains(lower, "vk.ru") || text::contains(
        lower,
        "vkvideo.ru",
    ) {
        Some("VK")
    } else {
        None
    }
}

/// The site name of a URL, used in the guidance on logins.
pub fn platform_name(url: &str) -> (name: Option<&'static str>)
    ensures
        text::opt_str(name) == platform_label(text::lowercase(url@)),
        is_ascii_chars(url@) ==> text::lowercase(url@) == text::lower_ascii(url@),
{
    let lower: String = text::to_lowercase(url);
    platform_name_in(lower.as_str())
}

/// What a user is told whose download needs a login on the named site.
pub fn login_message(site: Option<&str>) -> (message: String)
    ensures
        message@ == login_text(text::opt_str(site)),
{
    match site {
        Some(name) => {
            let mut message: String = name.to_owned();
            message.append(
                " requires a logged-in account to download this. Import a cookies.txt for the site in the Cookie Manager below, then try again.",
            );
            message
        },
        None =>
            "This site requires a logged-in account. Import its cookies.txt in the Cookie Manager below, then try again.".to_owned(),
    }
}

/// What a user is told whose download of `url` needs a login.
pub fn login_friendly(url: Option<&str>) -> (message: String)
    ensures
        message@ == login_text(site_of(url)),
        url matches Some(u) ==> is_ascii_chars(u@) ==> text::lowercase(u@) == text::lower_ascii(u@),
{
    match url {
        Some(u) => login_message(platform_name(u)),
        None => login_message(None),
    }
}

/// A URL, in lower case `lower_url`, leads to a photo or slideshow post of TikTok.
pub fn leads_to_photo_post(url: &str, lower_url: &str) -> (yes: bool)
    ensures
        yes == is_tiktok_photo(url@, lower_url@),
{
    text::contains(url, "/photo/") && (text::contains(url, "tiktok.com") || text::contains(
        lower_url,
        "tiktok.com",
    ))
}

/// The kind of a failure whose message is in lower case already; `photo_post`
/// says if the download is of a photo or slideshow post of TikTok.
pub fn failure_kind(lower: &str, photo_post: bool) -> (kind: FailureKind)
    ensures
        kind == kind_of_lowered(lower@, photo_post),
{
    if text::contains(lower, "unsupported url") && photo_post {
        return FailureKind::UnsupportedContent;
    }
    if text::contains_any(lower, &LOGIN_SIGNATURES) {
        return FailureKind::LoginRequired;
    }
    if text::contains_any(lower, &STALE_SIGNATURES) {
        return FailureKind::StaleEngine;
    }
    FailureKind::Other
}

/// Classifies one raw yt-dlp error line against the known signatures, without
/// regard to case. `url` gives the context for hints on content.
pub fn classify(raw: &str, url: Option<&str>) -> (failure: Failure)
    ensures
        is_classification(raw@, url, failure),
        is_ascii_chars(raw@) ==> text::lowercase(raw@) == text::lower_ascii(raw@),
        url matches Some(u) ==> is_ascii_chars(u@) ==> text::lowercase(u@) == text::lower_ascii(u@),
{
    let lower: String = text::to_lowercase(raw);
    let photo_post: bool = match url {
        Some(u) => leads_to_photo_post(u, text::to_lowercase(u).as_str()),
        None => false,
    };
    let kind: FailureKind = failure_kind(lower.as_str(), photo_post);
    let friendly: String = match kind {
        FailureKind::LoginRequired => login_friendly(url),
        FailureKind::UnsupportedContent => TIKTOK_PHOTO_MSG.to_owned(),
        FailureKind::StaleEngine => STALE_ENGINE_MSG.to_owned(),
        FailureKind::Other => GENERIC_MSG.to_owned(),
    };
    (kind, friendly)
}

/// The classification of an error line in the form that payloads carry.
pub fn classified(raw: &str, url: Option<&str>) -> (failure: ClassifiedFailure)
    ensures
        is_payload(raw@, url, failure),
        is_ascii_chars(raw@) ==> text::lowercase(raw@) == text::lower_ascii(raw@),
        url matches Some(u) ==> is_ascii_chars(u@) ==> text::lowercase(u@) == text::lower_ascii(u@),
{
    let (kind, friendly): (FailureKind, String) = classify(raw, url);
    ClassifiedFailure { kind: kind.as_str(), friendly }
}

/// A stored kind is read back as the kind that was stored.
pub proof fn law_stored_kind_is_read_back(kind: FailureKind)
    ensures
        labelled(kind.label()) == kind,
{
    reveal_strlit("login_required");
    reveal_strlit("unsupported_content");
    reveal_strlit("stale_engine");
    reveal_strlit("other");
    assert("login_required"@[0] == 'l');
    assert("unsupported_content"@[0] == 'u');
    assert("stale_engine"@[0] == 's');
    assert("other"@[0] == 'o');
}

/// Content is called unsupported exactly if the engine refuses the URL and the
/// URL leads to a photo or slideshow post of TikTok.
pub proof fn law_unsupported_content_is_of_tiktok(lower: Seq<char>, url: Option<Seq<char>>)
    ensures
        kind_of_message(lower, url) is UnsupportedContent <==> {
            &&& text::contains_text(lower, "unsupported url"@)
            &&& url matches Some(u)
            &&& text::contains_text(u, "/photo/"@)
            &&& text::contains_text(u, "tiktok.com"@) || text::contains_text(
                text::lowercase(u),
                "tiktok.com"@,
            )
        },
{
}

/// A message of which the engine does not refuse a photo post is a matter of a
/// login exactly if it holds one of the phrases by which sites ask for one, and
/// of a stale engine exactly if it holds none of those but one of the phrases of
/// broken extraction or of throttling. With neither it is something else.
pub proof fn law_kind_follows_signatures(lower: Seq<char>, photo_post: bool)
    ensures
        ({
            let refused = photo_post && text::contains_text(lower, "unsupported url"@);
            let login = {
                ||| text::contains_text(lower, "sign in to confirm"@)
                ||| text::contains_text(lower, "confirm you're not a bot"@)
                ||| text::contains_text(lower, "only available to registered users"@)
                ||| text::contains_text(lower, "http error 401"@)
                ||| text::contains_text(lower, "--cookies-from-browser or --cookies"@)
                ||| text::contains_text(lower, "login required"@)
                ||| text::contains_text(lower, "log in required"@)
                ||| text::contains_text(lower, "you need to log in"@)
                ||| text::contains_text(lower, "please log in"@)
                ||| text::contains_text(lower, "requires authentication"@)
                ||| text::contains_text(lower, "members-only"@)
                ||| text::contains_text(lower, "join this channel"@)
                ||| text::contains_text(lower, "confirm your age"@)
                ||| text::contains_text(lower, "age-restricted"@)
                ||| text::contains_text(lower, "could not copy"@)
                ||| text::contains_text(lower, "cookie database"@)
            };
            let stale = {
                ||| text::contains_text(lower, "unable to extract"@)
                ||| text::contains_text(lower, "failed to extract"@)
                ||| text::contains_text(lower, "nsig extraction failed"@)
                ||| text::contains_text(lower, "signature extraction failed"@)
                ||| text::contains_text(lower, "http error 400"@)
                ||| text::contains_text(lower, "http error 403"@)
                ||| text::contains_text(lower, "http error 429"@)
                ||| text::contains_text(lower, "too many requests"@)
                ||| text::contains_text(lower, "rate limit"@)
                ||| text::contains_text(lower, "captcha"@)
                ||| text::contains_text(lower, "impersonat"@)
                ||| text::contains_text(lower, "update yt-dlp"@)
            };
            let kind = kind_of_lowered(lower, photo_post);
            &&& kind is UnsupportedContent <==> refused
            &&& kind is LoginRequired <==> !refused && login
            &&& kind is StaleEngine <==> !refused && !login && stale
            &&& kind is Other <==> !refused && !login && !stale
        }),
{
    lemma_login_signatures(lower);
    lemma_stale_signatures(lower);
}

proof fn lemma_login_signatures(lower: Seq<char>)
    ensures
        text::contains_any_text(lower, LOGIN_SIGNATURES@) <==> {
            ||| text::contains_text(lower, "sign in to confirm"@)
            ||| text::contains_text(lower, "confirm you're not a bot"@)
            ||| text::contains_text(lower, "only available to registered users"@)
            ||| text::contains_text(lower, "http error 401"@)
            ||| text::contains_text(lower, "--cookies-from-browser or --cookies"@)
            ||| text::contains_text(lower, "login required"@)
            ||| text::contains_text(lower, "log in required"@)
            ||| text::contains_text(lower, "you need to log in"@)
            ||| text::contains_text(lower, "please log in"@)
            ||| text::contains_text(lower, "requires authentication"@)
            ||| text::contains_text(lower, "members-only"@)
            ||| text::contains_text(lower, "join this channel"@)
            ||| text::contains_text(lower, "confirm your age"@)
            ||| text::contains_text(lower, "age-restricted"@)
            ||| text::contains_text(lower, "could not copy"@)
            ||| text::contains_text(lower, "cookie database"@)
        },
{
    assert(LOGIN_SIGNATURES@[0]@ == "sign in to confirm"@);
    assert(LOGIN_SIGNATURES@[1]@ == "confirm you're not a bot"@);
    assert(LOGIN_SIGNATURES@[2]@ == "only available to registered users"@);
    assert(LOGIN_SIGNATURES@[3]@ == "http error 401"@);
    assert(LOGIN_SIGNATURES@[4]@ == "--cookies-from-browser or --cookies"@);
    assert(LOGIN_SIGNATURES@[5]@ == "login required"@);
    assert(LOGIN_SIGNATURES@[6]@ == "log in required"@);
    assert(LOGIN_SIGNATURES@[7]@ == "you need to log in"@);
    assert(LOGIN_SIGNATURES@[8]@ == "please log in"@);
    assert(LOGIN_SIGNATURES@[9]@ == "requires authentication"@);
    assert(LOGIN_SIGNATURES@[10]@ == "members-only"@);
    assert(LOGIN_SIGNATURES@[11]@ == "join this channel"@);
    assert(LOGIN_SIGNATURES@[12]@ == "confirm your age"@);
    assert(LOGIN_SIGNATURES@[13]@ == "age-restricted"@);
    assert(LOGIN_SIGNATURES@[14]@ == "could not copy"@);
    assert(LOGIN_SIGNATURES@[15]@ == "cookie database"@);
}

proof fn lemma_stale_signatures(lower: Seq<char>)
    ensures
        text::contains_any_text(lower, STALE_SIGNATURES@) <==> {
            ||| text::contains_text(lower, "unable to extract"@)
            ||| text::contains_text(lower, "failed to extract"@)
            ||| text::contains_text(lower, "nsig extraction failed"@)
            ||| text::contains_text(lower, "signature extraction failed"@)
            ||| text::contains_text(lower, "http error 400"@)
            ||| text::contains_text(lower, "http error 403"@)
            ||| text::contains_text(lower, "http error 429"@)
            ||| text::contains_text(lower, "too many requests"@)
            ||| text::contains_text(lower, "rate limit"@)
            ||| text::contains_text(lower, "captcha"@)
            ||| text::contains_text(lower, "impersonat"@)
            ||| text::contains_text(lower, "update yt-dlp"@)
        },
{
    assert(STALE_SIGNATURES@[0]@ == "unable to extract"@);
    assert(STALE_SIGNATURES@[1]@ == "failed to extract"@);
    assert(STALE_SIGNATURES@[2]@ == "nsig extraction failed"@);
    assert(STALE_SIGNATURES@[3]@ == "signature extraction failed"@);
    assert(STALE_SIGNATURES@[4]@ == "http error 400"@);
    assert(STALE_SIGNATURES@[5]@ == "http error 403"@);
    assert(STALE_SIGNATURES@[6]@ == "http error 429"@);
    assert(STALE_SIGNATURES@[7]@ == "too many requests"@);
    assert(STALE_SIGNATURES@[8]@ == "rate limit"@);
    assert(STALE_SIGNATURES@[9]@ == "captcha"@);
    assert(STALE_SIGNATURES@[10]@ == "impersonat"@);
    assert(STALE_SIGNATURES@[11]@ == "update yt-dlp"@);
}

/// Case does not matter in an error line, and of the URL it is only asked if it
/// leads to a photo post of TikTok.
pub proof fn law_classification_ignores_case(raw: Seq<char>, url: Option<&str>, failure: Failure)
    requires
        is_classification(raw, url, failure),
    ensures
        ({
            let photo_post = match url {
                Some(u) => text::contains_text(u@, "/photo/"@) && (text::contains_text(
                    u@,
                    "tiktok.com"@,
                ) || text::contains_text(text::lowercase(u@), "tiktok.com"@)),
                None => false,
            };
            failure.0 == kind_of_lowered(text::lowercase(raw), photo_post)
        }),
{
}

/// Each kind of failure has its own words for the user: a login is asked for in
/// the name of the site, where the site has one, and a failure of unknown cause
/// is reported without a guess.
pub proof fn law_guidance_fits_kind(raw: Seq<char>, url: Option<&str>, failure: Failure)
    requires
        is_classification(raw, url, failure),
    ensures
        failure.0 is Other ==> failure.1@ == "Download failed."@,
        failure.0 is StaleEngine ==> failure.1@
            == "The bundled downloader looks out of date for this site. Updating it and retrying…"@,
        failure.0 is UnsupportedContent ==> failure.1@
            == "TikTok photo posts aren't supported yet — try an audio-only quality or a different link."@,
        failure.0 is LoginRequired ==> match site_of(url) {
            Some(site) => failure.1@ == site
                + " requires a logged-in account to download this. Import a cookies.txt for the site in the Cookie Manager below, then try again."@,
            None => failure.1@
                == "This site requires a logged-in account. Import its cookies.txt in the Cookie Manager below, then try again."@,
        },
{
}

/// Whoever needs a login is told for which site, by its name, and told the same
/// of every site.
pub proof fn law_login_is_asked_for_by_name(site: Seq<char>)
    ensures
        login_text(Some(site)) == site
            + " requires a logged-in account to download this. Import a cookies.txt for the site in the Cookie Manager below, then try again."@,
        login_text(None)
            == "This site requires a logged-in account. Import its cookies.txt in the Cookie Manager below, then try again."@,
{
}

/// The payload of an error line carries the stored word of the kind that the
/// line is classified as, and the same text for the user.
pub proof fn law_payload_agrees_with_classification(
    raw: Seq<char>,
    url: Option<&str>,
    failure: Failure,
    payload: ClassifiedFailure,
)
    requires
        is_classification(raw, url, failure),
        is_payload(raw, url, payload),
    ensures
        payload.kind@ == failure.0.label(),
        payload.friendly@ == failure.1@,
        payload.kind@ == "stale_engine"@ <==> failure.0 is StaleEngine,
        payload.kind@ == "login_required"@ <==> failure.0 is LoginRequired,
        payload.kind@ == "unsupported_content"@ <==> failure.0 is UnsupportedContent,
        payload.kind@ == "other"@ <==> failure.0 is Other,
{
    law_kinds_have_their_words(failure.0, payload.kind@);
}

/// Each kind is stored by one word, and a word that is none of these stands for
/// no known kind.
pub proof fn law_kinds_have_their_words(kind: FailureKind, word: Seq<char>)
    ensures
        kind.label() == "login_required"@ <==> kind is LoginRequired,
        kind.label() == "unsupported_content"@ <==> kind is UnsupportedContent,
        kind.label() == "stale_engine"@ <==> kind is StaleEngine,
        kind.label() == "other"@ <==> kind is Other,
        labelled(word) is LoginRequired <==> word == "login_required"@,
        labelled(word) is UnsupportedContent <==> word == "unsupported_content"@,
        labelled(word) is StaleEngine <==> word == "stale_engine"@,
{
    reveal_strlit("login_required");
    reveal_strlit("unsupported_content");
    reveal_strlit("stale_engine");
    reveal_strlit("other");
    assert("login_required"@[0] == 'l');
    assert("unsupported_content"@[0] == 'u');
    assert("stale_engine"@[0] == 's');
    assert("other"@[0] == 'o');
}

/// A site has a name for users exactly if the URL, in lower case, holds one of
/// its hosts and no host of a site that is looked for earlier.
pub proof fn law_sites_are_known_by_hosts(url: &str)
    ensures
        ({
            let lower = text::lowercase(url@);
            let youtube = text::contains_text(lower, "youtube.com"@) || text::contains_text(
                lower,
                "youtu.be"@,
            );
            let twitter = text::contains_text(lower, "twitter.com"@) || text::contains_text(
                lower,
                "x.com"@,
            );
            let tiktok = text::contains_text(lower, "tiktok.com"@);
            let instagram = text::contains_text(lower, "instagram.com"@);
            let facebook = text::contains_text(lower, "facebook.com"@) || text::contains_text(
                lower,
                "fb.watch"@,
            );
            let reddit = text::contains_text(lower, "reddit.com"@);
            let vk = text::contains_text(lower, "vk.com"@) || text::contains_text(lower, "vk.ru"@)
                || text::contains_text(lower, "vkvideo.ru"@);
            let first = youtube || twitter || tiktok;
            let early = first || instagram || facebook;
            let site = site_of(Some(url));
            &&& site == Some("YouTube"@) <==> youtube
            &&& site == Some("X (Twitter)"@) <==> twitter && !youtube
            &&& site == Some("TikTok"@) <==> tiktok && !youtube && !twitter
            &&& site == Some("Instagram"@) <==> instagram && !first
            &&& site == Some("Facebook"@) <==> facebook && !first && !instagram
            &&& site == Some("Reddit"@) <==> reddit && !early
            &&& site == Some("VK"@) <==> vk && !early && !reddit
            &&& site is None <==> !early && !reddit && !vk
        }),
        site_of(None) is None,
{
    reveal_strlit("YouTube");
    reveal_strlit("X (Twitter)");
    reveal_strlit("TikTok");
    reveal_strlit("Instagram");
    reveal_strlit("Facebook");
    reveal_strlit("Reddit");
    reveal_strlit("VK");
    assert("YouTube"@[0] == 'Y');
    assert("X (Twitter)"@[0] == 'X');
    assert("TikTok"@[0] == 'T');
    assert("Instagram"@[0] == 'I');
    assert("Facebook"@[0] == 'F');
    assert("Reddit"@[0] == 'R');
    assert("VK"@[0] == 'V');
}

/// Of two explanations one is kept as it is: a login outweighs content that is
/// not supported, this a stale engine, and this anything else. Of two of one kind
/// the later one is kept, and without a second explanation the only one.
pub proof fn law_specific_explanation_wins(a: Failure, b: Failure)
    ensures
        ({
            let merged = worse_of(Some(a), Some(b));
            &&& merged == Some(a) || merged == Some(b)
            &&& a.0 == b.0 ==> merged == Some(b)
            &&& kind_in(merged) == Some(FailureKind::LoginRequired) <==> a.0 is LoginRequired
                || b.0 is LoginRequired
            &&& kind_in(merged) == Some(FailureKind::Other) <==> a.0 is Other && b.0 is Other
            &&& kind_in(merged) == Some(FailureKind::StaleEngine) ==> (a.0 is StaleEngine
                || a.0 is Other) && (b.0 is StaleEngine || b.0 is Other)
        }),
        worse_of(Some(a), None) == Some(a),
        worse_of(None, Some(b)) == Some(b),
        worse_of(None, None) is None,
{
}

/// What a user is told does not depend on the raw output beyond its kind.
pub proof fn law_raw_output_is_not_shown(a: &str, b: &str, url: Option<&str>)
    requires
        kind_of_message(text::lowercase(a@), text::opt_str(url)) == kind_of_message(
            text::lowercase(b@),
            text::opt_str(url),
        ),
    ensures
        friendly_text(
            kind_of_message(text::lowercase(a@), text::opt_str(url)),
            site_of(url),
        ) == friendly_text(
            kind_of_message(text::lowercase(b@), text::opt_str(url)),
            site_of(url),
        ),
{
}

/// Merging failures may be grouped in any way.
pub proof fn law_merging_is_associative(
    a: Option<Failure>,
    b: Option<Failure>,
    c: Option<Failure>,
)
    ensures
        worse_of(worse_of(a, b), c) == worse_of(a, worse_of(b, c)),
{
}

/// Of a run of failures the merge keeps the last one among the most specific.
pub proof fn law_merge_keeps_last_most_specific(failures: Seq<Failure>)
    ensures
        worst_of(failures) is None <==> failures.len() == 0,
        failures.len() > 0 ==> exists|k: int|
            0 <= k < failures.len() && worst_of(failures) == Some(#[trigger] failures[k]) && (
            forall|j: int|
                0 <= j < failures.len() ==> (#[trigger] failures[j]).0.specificity()
                    <= failures[k].0.specificity()) && (forall|j: int|
                k < j < failures.len() ==> (#[trigger] failures[j]).0.specificity()
                    < failures[k].0.specificity()),
    decreases failures.len(),
{
    if failures.len() > 0 {
        let rest = failures.drop_last();
        law_merge_keeps_last_most_specific(rest);
        let n = failures.len() - 1;
        if rest.len() == 0 {
            assert(worst_of(failures) == Some(failures[n]));
        } else {
            let k = choose|k: int|
                0 <= k < rest.len() && worst_of(rest) == Some(#[trigger] rest[k]) && (forall|j: int|
                    0 <= j < rest.len() ==> (#[trigger] rest[j]).0.specificity()
                        <= rest[k].0.specificity()) && (forall|j: int|
                    k < j < rest.len() ==> (#[trigger] rest[j]).0.specificity()
                        < rest[k].0.specificity());
            assert(rest[k] == failures[k]);
            assert forall|j: int| 0 <= j < rest.len() implies #[trigger] failures[j] == rest[j] by {
            }
            if failures[k].0.specificity() > failures[n].0.specificity() {
                assert(worst_of(failures) == Some(failures[k]));
            } else {
                assert(worst_of(failures) == Some(failures[n]));
            }
        }
    }
}

} // verus!
