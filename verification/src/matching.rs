//! Which stored cookie profile applies to a URL.
//!
//! A profile serves a URL in which its name occurs, so that a profile named
//! "insta" serves links to instagram.com. It also serves a URL of a platform of
//! which its name holds an alias. The longest name wins, being the most
//! specific.

use vstd::prelude::*;
use vstd::utf8::*;

use crate::cookies;
use crate::cookies::ListedFile;
use crate::text;

verus! {

broadcast use vstd::string::group_string_axioms;

/// Words by which a profile is known to serve VK: "VK Video" is stored as
/// "vk_video".
pub const VK_ALIASES: [&'static str; 2] = ["vk", "vkontakte"];

/// Words by which a profile is known to serve Twitter, which has two domains.
pub const TWITTER_ALIASES: [&'static str; 2] = ["x.com", "twitter"];

/// No words.
pub const NO_ALIASES: [&'static str; 0] = [];

/// A profile that serves a URL: its name in lower case and its file.
#[derive(Debug)]
pub struct Candidate {
    pub name: String,
    pub path: String,
}

impl Candidate {
    /// The name and the path.
    pub open spec fn parts(self) -> (Seq<char>, Seq<char>) {
        (self.name@, self.path@)
    }
}

/// The names and paths of a list of candidates.
pub open spec fn parts_of(candidates: Seq<Candidate>) -> Seq<(Seq<char>, Seq<char>)> {
    Seq::new(candidates.len(), |i: int| candidates[i].parts())
}

/// The platform to which a URL in lower case belongs.
pub open spec fn platform_of(lower: Seq<char>) -> Option<Seq<char>> {
    if text::contains_text(lower, "twitter.com"@) || text::contains_text(lower, "x.com"@) {
        Some("twitter"@)
    } else if text::contains_text(lower, "youtube.com"@) || text::contains_text(
        lower,
        "youtu.be"@,
    ) {
        Some("youtube"@)
    } else if text::contains_text(lower, "tiktok.com"@) {
        Some("tiktok"@)
    } else if text::contains_text(lower, "vk.com"@) || text::contains_text(lower, "vk.ru"@)
        || text::contains_text(lower, "vkvideo.ru"@) {
        Some("vk"@)
    } else {
        None
    }
}

/// The words by which a profile is known to serve a platform.
pub open spec fn aliases_of(platform: Option<Seq<char>>) -> Seq<&'static str> {
    if platform == Some("vk"@) {
        VK_ALIASES@
    } else if platform == Some("twitter"@) {
        TWITTER_ALIASES@
    } else {
        NO_ALIASES@
    }
}

/// A profile named `name` serves the URL `lower`; both are in lower case.
pub open spec fn serves(name: Seq<char>, lower: Seq<char>, aliases: Seq<&str>) -> bool {
    (name.len() > 0 && text::contains_text(lower, name)) || text::contains_any_text(name, aliases)
}

/// The profiles of a directory that serve the URL `lower`, in the order of the
/// directory.
pub open spec fn serving(files: Seq<ListedFile>, lower: Seq<char>, aliases: Seq<&str>) -> Seq<
    (Seq<char>, Seq<char>),
>
    decreases files.len(),
{
    if files.len() == 0 {
        Seq::empty()
    } else {
        let before = serving(files.drop_last(), lower, aliases);
        match files.last().profile() {
            Some(stem) => if serves(text::lowercase(stem), lower, aliases) {
                before.push((text::lowercase(stem), files.last().path@))
            } else {
                before
            },
            None => before,
        }
    }
}

/// All that can serve a URL: the profiles that do, and behind them the file
/// that is named after the platform, if there is one.
pub open spec fn candidates(
    files: Seq<ListedFile>,
    platform_file: Option<Seq<char>>,
    lower: Seq<char>,
    platform: Option<Seq<char>>,
) -> Seq<(Seq<char>, Seq<char>)> {
    let profiles = serving(files, lower, aliases_of(platform));
    if platform is Some && platform_file is Some {
        profiles.push((platform->0, platform_file->0))
    } else {
        profiles
    }
}

/// `a` is preferred to `b`: its name is longer, or as long and smaller. Both
/// length and order go by the bytes of the name.
pub open spec fn outranks(a: (Seq<char>, Seq<char>), b: (Seq<char>, Seq<char>)) -> bool {
    let x = encode_utf8(a.0);
    let y = encode_utf8(b.0);
    x.len() > y.len() || (x.len() == y.len() && text::bytes_before(x, y))
}

/// The candidate at `k` is chosen: none is preferred to it, and it is preferred
/// to each one behind it.
pub open spec fn is_chosen(list: Seq<(Seq<char>, Seq<char>)>, k: int) -> bool {
    &&& 0 <= k < list.len()
    &&& forall|j: int| 0 <= j < list.len() ==> !outranks(#[trigger] list[j], list[k])
    &&& forall|j: int| k < j < list.len() ==> outranks(list[k], #[trigger] list[j])
}

/// `path` is that of the stored cookies.txt that applies to `url`, if any.
pub open spec fn is_choice(
    files: Seq<ListedFile>,
    platform_file: Option<Seq<char>>,
    url: Seq<char>,
    path: Option<Seq<char>>,
) -> bool {
    let lower = text::lowercase(url);
    let list = candidates(files, platform_file, lower, platform_of(text::lowercase(lower)));
    match path {
        Some(p) => exists|k: int| is_chosen(list, k) && p == (#[trigger] list[k]).1,
        None => list.len() == 0,
    }
}

/// `file_name` is that of the file that is named after the platform of `url`, if
/// it has one.
pub open spec fn is_platform_file(url: Seq<char>, file_name: Option<Seq<char>>) -> bool {
    let platform = platform_of(text::lowercase(text::lowercase(url)));
    match file_name {
        Some(f) => platform matches Some(p) && f == cookies::file_of(p),
        None => platform is None,
    }
}

/// The platform to which a URL in lower case belongs.
pub fn platform_in(lower: &str) -> (platform: Option<&'static str>)
    ensures
        text::opt_str(platform) == platform_of(lower@),
{
    if text::contains(lower, "twitter.com") || text::contains(lower, "x.com") {
        Some("twitter")
    } else if text::contains(lower, "youtube.com") || text::contains(lower, "youtu.be") {
        Some("youtube")
    } else if text::contains(lower, "tiktok.com") {
        Some("tiktok")
    } else if text::contains(lower, "vk.com") || text::contains(lower, "vk.ru") || text::contains(
        lower,
        "vkvideo.ru",
    ) {
        Some("vk")
    } else {
        None
    }
}

/// The platform to which a URL belongs.
pub fn detect_platform(url: &str) -> (platform: Option<&'static str>)
    ensures
        text::opt_str(platform) == platform_of(text::lowercase(url@)),
        is_ascii_chars(url@) ==> text::lowercase(url@) == text::lower_ascii(url@),
{
    let lower: String = text::to_lowercase(url);
    platform_in(lower.as_str())
}

/// The words by which a profile is known to serve a platform.
pub fn platform_aliases(platform: Option<&str>) -> (aliases: &'static [&'static str])
    ensures
        aliases@ == aliases_of(text::opt_str(platform)),
{
    match platform {
        Some(name) => {
            if text::same_text(name, "vk") {
                &VK_ALIASES
            } else if text::same_text(name, "twitter") {
                &TWITTER_ALIASES
            } else {
                &NO_ALIASES
            }
        },
        None => &NO_ALIASES,
    }
}

/// Whether a profile named `name` serves the URL `lower`; both are in lower
/// case.
pub fn does_serve(name: &str, lower: &str, aliases: &[&str]) -> (yes: bool)
    ensures
        yes == serves(name@, lower@, aliases@),
{
    (!name.is_empty() && text::contains(lower, name)) || text::contains_any(name, aliases)
}

fn is_preferred(a: &Candidate, b: &Candidate) -> (yes: bool)
    ensures
        yes == outranks(a.parts(), b.parts()),
{
    let x: &[u8] = a.name.as_str().as_bytes();
    let y: &[u8] = b.name.as_str().as_bytes();
    x.len() > y.len() || (x.len() == y.len() && text::comes_before(x, y))
}

/// The candidate that is chosen.
pub fn choose_candidate(list: &Vec<Candidate>) -> (chosen: Option<usize>)
    ensures
        match chosen {
            Some(k) => is_chosen(parts_of(list@), k as int),
            None => list@.len() == 0,
        },
{
    if list.len() == 0 {
        return None;
    }
    let ghost parts = parts_of(list@);
    let mut best: usize = 0;
    let mut i: usize = 1;
    proof {
        lemma_outranks_order(parts[0], parts[0], parts[0]);
        assert(parts.take(1)[0] == parts[0]);
    }
    while i < list.len()
        invariant
            best < i <= list@.len(),
            parts == parts_of(list@),
            is_chosen(parts.take(i as int), best as int),
        decreases list@.len() - i,
    {
        let ghost seen = parts.take(i as int);
        let ghost next = parts.take(i + 1);
        let ghost old_best = best as int;
        assert(next =~= seen.push(parts[i as int]));
        let keep: bool = is_preferred(&list[best], &list[i]);
        if !keep {
            best = i;
        }
        proof {
            let top = parts[old_best];
            let new = parts[i as int];
            assert(seen[old_best] == top);
            assert(next[best as int] == parts[best as int]);
            lemma_outranks_order(top, new, new);
            lemma_outranks_order(new, new, new);
            assert forall|j: int| 0 <= j < next.len() implies !outranks(
                #[trigger] next[j],
                next[best as int],
            ) by {
                if j < i {
                    assert(next[j] == seen[j]);
                    assert(!outranks(seen[j], top));
                    lemma_outranks_order(seen[j], top, new);
                }
            }
            assert forall|j: int| best < j < next.len() implies outranks(
                next[best as int],
                #[trigger] next[j],
            ) by {
                if j < i {
                    assert(next[j] == seen[j]);
                }
            }
        }
        i = i + 1;
    }
    assert(parts.take(list@.len() as int) =~= parts);
    Some(best)
}

/// Nothing is preferred to what is preferred to it, and what is not preferred
/// to something is not preferred to anything at least as good.
proof fn lemma_outranks_order(
    a: (Seq<char>, Seq<char>),
    b: (Seq<char>, Seq<char>),
    c: (Seq<char>, Seq<char>),
)
    ensures
        outranks(a, b) ==> !outranks(b, a),
        !outranks(a, b) && !outranks(b, c) ==> !outranks(a, c),
{
    let x = encode_utf8(a.0);
    let y = encode_utf8(b.0);
    let z = encode_utf8(c.0);
    if text::bytes_before(x, y) {
        text::lemma_bytes_asymmetric(x, y);
    }
    if !outranks(a, b) && !outranks(b, c) && outranks(a, c) {
        assert(x.len() == y.len() && y.len() == z.len());
        text::lemma_bytes_total(x, y);
        if text::bytes_before(y, x) {
            text::lemma_bytes_transitive(y, x, z);
        }
    }
}

/// The file that is named after the platform of a URL.
pub fn platform_file_name(url: &str) -> (file_name: Option<String>)
    ensures
        is_platform_file(url@, text::opt_text(file_name)),
        is_ascii_chars(url@) ==> text::lowercase(text::lowercase(url@)) == text::lower_ascii(url@),
{
    let lower: String = text::to_lowercase(url);
    proof {
        if is_ascii_chars(url@) {
            text::lemma_lower_ascii(url@);
        }
    }
    match detect_platform(lower.as_str()) {
        Some(platform) => Some(cookies::file_name_of(platform)),
        None => None,
    }
}

/// Picks the stored cookies.txt that applies to a URL, if any. `files` are the
/// entries of the profile directory, and `platform_file` is the path of the
/// file in it that is named after the platform, if there is such a file.
pub fn settings_cookie_file(files: &Vec<ListedFile>, platform_file: Option<&str>, url: &str) -> (path:
    Option<String>)
    ensures
        is_choice(files@, text::opt_str(platform_file), url@, text::opt_text(path)),
        is_ascii_chars(url@) ==> text::lowercase(url@) == text::lower_ascii(url@)
            && text::lowercase(text::lower_ascii(url@)) == text::lower_ascii(url@),
        forall|i: int|
            0 <= i < files@.len() ==> ((#[trigger] files@[i]).profile() matches Some(stem)
                ==> is_ascii_chars(stem) ==> text::lowercase(stem) == text::lower_ascii(stem)),
{
    let lower: String = text::to_lowercase(url);
    proof {
        if is_ascii_chars(url@) {
            text::lemma_lower_ascii(url@);
        }
    }
    let platform: Option<&'static str> = detect_platform(lower.as_str());
    let aliases: &'static [&'static str] = platform_aliases(platform);
    let mut list: Vec<Candidate> = serving_profiles(files, lower.as_str(), aliases);
    let ghost profiles = parts_of(list@);
    if let Some(name) = platform {
        if let Some(path) = platform_file {
            list.push(Candidate { name: name.to_owned(), path: path.to_owned() });
            assert(parts_of(list@) =~= profiles.push((name@, path@)));
        }
    }
    let ghost all = parts_of(list@);
    assert(all == candidates(
        files@,
        text::opt_str(platform_file),
        lower@,
        text::opt_str(platform),
    ));
    match choose_candidate(&list) {
        Some(k) => {
            assert(all[k as int] == list@[k as int].parts());
            Some(list[k].path.clone())
        },
        None => None,
    }
}

/// The profiles of a directory that serve the URL `lower`.
fn serving_profiles(files: &Vec<ListedFile>, lower: &str, aliases: &[&str]) -> (list: Vec<Candidate>)
    ensures
        parts_of(list@) == serving(files@, lower@, aliases@),
        forall|i: int|
            0 <= i < files@.len() ==> ((#[trigger] files@[i]).profile() matches Some(stem)
                ==> is_ascii_chars(stem) ==> text::lowercase(stem) == text::lower_ascii(stem)),
{
    let mut list: Vec<Candidate> = Vec::new();
    let mut i: usize = 0;
    assert(parts_of(list@) =~= serving(files@.take(0), lower@, aliases@));
    while i < files.len()
        invariant
            i <= files@.len(),
            parts_of(list@) == serving(files@.take(i as int), lower@, aliases@),
            forall|k: int|
                0 <= k < i ==> ((#[trigger] files@[k]).profile() matches Some(stem)
                    ==> is_ascii_chars(stem) ==> text::lowercase(stem) == text::lower_ascii(stem)),
        decreases files@.len() - i,
    {
        let ghost before = parts_of(list@);
        assert(files@.take(i + 1).drop_last() =~= files@.take(i as int));
        assert(files@.take(i + 1).last() == files@[i as int]);
        if files[i].is_file {
            if let Some(stem) = cookies::profile_stem(files[i].file_name.as_str()) {
                let name: String = text::to_lowercase(stem.as_str());
                if does_serve(name.as_str(), lower, aliases) {
                    let candidate: Candidate = Candidate { name, path: files[i].path.clone() };
                    let ghost parts = candidate.parts();
                    list.push(candidate);
                    assert(parts_of(list@) =~= before.push(parts));
                }
            }
        }
        i = i + 1;
    }
    assert(files@.take(files@.len() as int) =~= files@);
    list
}

/// At most one candidate is chosen.
pub proof fn law_choice_is_unique(list: Seq<(Seq<char>, Seq<char>)>, j: int, k: int)
    requires
        is_chosen(list, j),
        is_chosen(list, k),
    ensures
        j == k,
{
    if j < k {
        assert(outranks(list[j], list[k]));
    } else if k < j {
        assert(outranks(list[k], list[j]));
    }
}

/// The longest name wins.
pub proof fn law_longest_name_wins(list: Seq<(Seq<char>, Seq<char>)>, k: int, j: int)
    requires
        is_chosen(list, k),
        0 <= j < list.len(),
    ensures
        encode_utf8(list[j].0).len() <= encode_utf8(list[k].0).len(),
{
    assert(!outranks(list[j], list[k]));
}

/// Every profile that serves a URL is a candidate for it.
pub proof fn law_serving_profile_is_candidate(
    files: Seq<ListedFile>,
    i: int,
    platform_file: Option<Seq<char>>,
    lower: Seq<char>,
    platform: Option<Seq<char>>,
)
    requires
        0 <= i < files.len(),
        files[i].profile() is Some,
        serves(text::lowercase(files[i].profile()->0), lower, aliases_of(platform)),
    ensures
        candidates(files, platform_file, lower, platform).contains(
            (text::lowercase(files[i].profile()->0), files[i].path@),
        ),
{
    let entry = (text::lowercase(files[i].profile()->0), files[i].path@);
    let profiles = serving(files, lower, aliases_of(platform));
    lemma_serving_contains(files, i, lower, aliases_of(platform));
    let k = choose|k: int| 0 <= k < profiles.len() && profiles[k] == entry;
    assert(candidates(files, platform_file, lower, platform)[k] == entry);
}

proof fn lemma_serving_contains(
    files: Seq<ListedFile>,
    i: int,
    lower: Seq<char>,
    aliases: Seq<&str>,
)
    requires
        0 <= i < files.len(),
        files[i].profile() is Some,
        serves(text::lowercase(files[i].profile()->0), lower, aliases),
    ensures
        serving(files, lower, aliases).contains(
            (text::lowercase(files[i].profile()->0), files[i].path@),
        ),
    decreases files.len(),
{
    let entry = (text::lowercase(files[i].profile()->0), files[i].path@);
    let all = serving(files, lower, aliases);
    let before = serving(files.drop_last(), lower, aliases);
    if i == files.len() - 1 {
        assert(all[before.len() as int] == entry);
    } else {
        assert(files.drop_last()[i] == files[i]);
        lemma_serving_contains(files.drop_last(), i, lower, aliases);
        let k = choose|k: int| 0 <= k < before.len() && before[k] == entry;
        assert(all[k] == entry);
    }
}

/// Every candidate for a URL is a profile that serves it, or the file that is
/// named after its platform.
pub proof fn law_candidate_serves(
    files: Seq<ListedFile>,
    platform_file: Option<Seq<char>>,
    lower: Seq<char>,
    platform: Option<Seq<char>>,
    k: int,
)
    requires
        0 <= k < candidates(files, platform_file, lower, platform).len(),
    ensures
        ({
            let entry = candidates(files, platform_file, lower, platform)[k];
            ||| is_serving_profile(files, entry, lower, aliases_of(platform))
            ||| platform == Some(entry.0) && platform_file == Some(entry.1)
        }),
{
    let profiles = serving(files, lower, aliases_of(platform));
    if k < profiles.len() {
        lemma_serving_serves(files, lower, aliases_of(platform), k);
    }
}

/// `entry` is a profile in the directory, and serves the URL `lower`.
pub open spec fn is_serving_profile(
    files: Seq<ListedFile>,
    entry: (Seq<char>, Seq<char>),
    lower: Seq<char>,
    aliases: Seq<&str>,
) -> bool {
    exists|i: int|
        0 <= i < files.len() && (#[trigger] files[i]).profile() is Some && entry == (
            text::lowercase(files[i].profile()->0),
            files[i].path@,
        ) && serves(entry.0, lower, aliases)
}

proof fn lemma_serving_serves(
    files: Seq<ListedFile>,
    lower: Seq<char>,
    aliases: Seq<&str>,
    k: int,
)
    requires
        0 <= k < serving(files, lower, aliases).len(),
    ensures
        is_serving_profile(files, serving(files, lower, aliases)[k], lower, aliases),
    decreases files.len(),
{
    let rest = files.drop_last();
    let before = serving(rest, lower, aliases);
    let entry = serving(files, lower, aliases)[k];
    if k < before.len() {
        lemma_serving_serves(rest, lower, aliases, k);
        let i = choose|i: int|
            0 <= i < rest.len() && (#[trigger] rest[i]).profile() is Some && entry == (
                text::lowercase(rest[i].profile()->0),
                rest[i].path@,
            ) && serves(entry.0, lower, aliases);
        assert(files[i] == rest[i]);
    } else {
        assert(files[files.len() - 1] == files.last());
    }
}

/// A profile serves every URL in which its name occurs.
pub proof fn law_name_in_url_serves(name: Seq<char>, lower: Seq<char>, aliases: Seq<&str>)
    requires
        name.len() > 0,
        text::contains_text(lower, name),
    ensures
        serves(name, lower, aliases),
{
}

/// A profile named after either domain of Twitter serves the links of both.
pub proof fn law_twitter_domains_share_profiles(name: Seq<char>, lower: Seq<char>)
    requires
        text::contains_text(lower, "twitter.com"@) || text::contains_text(lower, "x.com"@),
        text::contains_text(name, "x.com"@) || text::contains_text(name, "twitter"@),
    ensures
        serves(name, lower, aliases_of(platform_of(lower))),
{
    reveal_strlit("vk");
    reveal_strlit("twitter");
    assert("vk"@.len() != "twitter"@.len());
    let aliases = aliases_of(platform_of(lower));
    assert(aliases[0]@ == "x.com"@);
    assert(aliases[1]@ == "twitter"@);
}

/// A profile whose name holds "vk" or "vkontakte" serves the links of all hosts
/// of VK that belong to no other platform.
pub proof fn law_vk_hosts_share_profiles(name: Seq<char>, lower: Seq<char>)
    requires
        platform_of(lower) == Some("vk"@),
        text::contains_text(name, "vk"@) || text::contains_text(name, "vkontakte"@),
    ensures
        serves(name, lower, aliases_of(platform_of(lower))),
{
    let aliases = aliases_of(platform_of(lower));
    assert(aliases[0]@ == "vk"@);
    assert(aliases[1]@ == "vkontakte"@);
}

/// A URL in lower case belongs to a platform exactly if it holds one of the hosts
/// of the platform and no host of a platform that is looked for earlier.
pub proof fn law_platforms_are_known_by_hosts(lower: Seq<char>)
    ensures
        ({
            let twitter = text::contains_text(lower, "twitter.com"@) || text::contains_text(
                lower,
                "x.com"@,
            );
            let youtube = text::contains_text(lower, "youtube.com"@) || text::contains_text(
                lower,
                "youtu.be"@,
            );
            let tiktok = text::contains_text(lower, "tiktok.com"@);
            let vk = text::contains_text(lower, "vk.com"@) || text::contains_text(lower, "vk.ru"@)
                || text::contains_text(lower, "vkvideo.ru"@);
            let platform = platform_of(lower);
            &&& platform == Some("twitter"@) <==> twitter
            &&& platform == Some("youtube"@) <==> youtube && !twitter
            &&& platform == Some("tiktok"@) <==> tiktok && !twitter && !youtube
            &&& platform == Some("vk"@) <==> vk && !twitter && !youtube && !tiktok
            &&& platform is None <==> !twitter && !youtube && !tiktok && !vk
        }),
{
    lemma_platforms_differ();
}

proof fn lemma_platforms_differ()
    ensures
        "twitter"@ != "youtube"@,
        "twitter"@ != "tiktok"@,
        "twitter"@ != "vk"@,
        "youtube"@ != "tiktok"@,
        "youtube"@ != "vk"@,
        "tiktok"@ != "vk"@,
{
    reveal_strlit("twitter");
    reveal_strlit("youtube");
    reveal_strlit("tiktok");
    reveal_strlit("vk");
    assert("twitter"@[0] == 't');
    assert("youtube"@[0] == 'y');
    assert("twitter"@.len() == 7 && "tiktok"@.len() == 6 && "vk"@.len() == 2);
    assert("youtube"@.len() == 7);
}

/// A profile serves a URL in no other way than these: its name occurs in the
/// URL, or it is named for Twitter and the URL holds a host of Twitter, or it is
/// named for VK and the URL holds a host of VK and of no other platform.
pub proof fn law_profile_serves_by_name_or_platform(
    name: Seq<char>,
    lower: Seq<char>,
    hosts: Seq<char>,
)
    ensures
        ({
            let twitter = text::contains_text(hosts, "twitter.com"@) || text::contains_text(
                hosts,
                "x.com"@,
            );
            let youtube = text::contains_text(hosts, "youtube.com"@) || text::contains_text(
                hosts,
                "youtu.be"@,
            );
            let tiktok = text::contains_text(hosts, "tiktok.com"@);
            let vk = text::contains_text(hosts, "vk.com"@) || text::contains_text(hosts, "vk.ru"@)
                || text::contains_text(hosts, "vkvideo.ru"@);
            serves(name, lower, aliases_of(platform_of(hosts))) <==> {
                ||| name.len() > 0 && text::contains_text(lower, name)
                ||| twitter && (text::contains_text(name, "x.com"@) || text::contains_text(
                    name,
                    "twitter"@,
                ))
                ||| vk && !twitter && !youtube && !tiktok && (text::contains_text(name, "vk"@)
                    || text::contains_text(name, "vkontakte"@))
            }
        }),
{
    lemma_platforms_differ();
    assert(TWITTER_ALIASES@[0]@ == "x.com"@);
    assert(TWITTER_ALIASES@[1]@ == "twitter"@);
    assert(VK_ALIASES@[0]@ == "vk"@);
    assert(VK_ALIASES@[1]@ == "vkontakte"@);
    assert(NO_ALIASES@.len() == 0);
}

/// No cookies apply to a URL in which the name of no profile occurs and which
/// holds no host of a platform.
pub proof fn law_unrelated_url_gets_no_cookies(
    files: Seq<ListedFile>,
    platform_file: Option<Seq<char>>,
    url: Seq<char>,
    path: Option<Seq<char>>,
)
    requires
        is_choice(files, platform_file, url, path),
        forall|i: int|
            0 <= i < files.len() ==> ((#[trigger] files[i]).profile() matches Some(stem)
                ==> !text::contains_text(text::lowercase(url), text::lowercase(stem))),
        !text::contains_text(text::lowercase(text::lowercase(url)), "twitter.com"@),
        !text::contains_text(text::lowercase(text::lowercase(url)), "x.com"@),
        !text::contains_text(text::lowercase(text::lowercase(url)), "youtube.com"@),
        !text::contains_text(text::lowercase(text::lowercase(url)), "youtu.be"@),
        !text::contains_text(text::lowercase(text::lowercase(url)), "tiktok.com"@),
        !text::contains_text(text::lowercase(text::lowercase(url)), "vk.com"@),
        !text::contains_text(text::lowercase(text::lowercase(url)), "vk.ru"@),
        !text::contains_text(text::lowercase(text::lowercase(url)), "vkvideo.ru"@),
    ensures
        path is None,
{
    let lower = text::lowercase(url);
    let hosts = text::lowercase(lower);
    if path is Some {
        law_platforms_are_known_by_hosts(hosts);
        let list = candidates(files, platform_file, lower, platform_of(hosts));
        let k = choose|k: int| is_chosen(list, k) && path->0 == (#[trigger] list[k]).1;
        lemma_serving_serves(files, lower, aliases_of(platform_of(hosts)), k);
        law_profile_serves_by_name_or_platform(list[k].0, lower, hosts);
    }
}

/// A profile whose name does not occur in a URL is chosen for it only if it is
/// named for Twitter or for VK and the URL holds a host of that platform; a file
/// that is no profile of the directory is chosen only as the one that is named
/// after the platform of the URL.
pub proof fn law_chosen_file_belongs_to_url(
    files: Seq<ListedFile>,
    platform_file: Option<Seq<char>>,
    url: Seq<char>,
    path: Seq<char>,
) -> (i: int)
    requires
        is_choice(files, platform_file, url, Some(path)),
    ensures
        ({
            let hosts = text::lowercase(text::lowercase(url));
            let twitter = text::contains_text(hosts, "twitter.com"@) || text::contains_text(
                hosts,
                "x.com"@,
            );
            let youtube = text::contains_text(hosts, "youtube.com"@) || text::contains_text(
                hosts,
                "youtu.be"@,
            );
            let tiktok = text::contains_text(hosts, "tiktok.com"@);
            let vk = text::contains_text(hosts, "vk.com"@) || text::contains_text(hosts, "vk.ru"@)
                || text::contains_text(hosts, "vkvideo.ru"@);
            ||| platform_file == Some(path) && (twitter || youtube || tiktok || vk)
            ||| 0 <= i < files.len() && files[i].path@ == path && files[i].is_file && (
            files[i].profile() matches Some(stem) && ({
                let name = text::lowercase(stem);
                ||| name.len() > 0 && text::contains_text(text::lowercase(url), name)
                ||| twitter && (text::contains_text(name, "x.com"@) || text::contains_text(
                    name,
                    "twitter"@,
                ))
                ||| vk && !twitter && !youtube && !tiktok && (text::contains_text(name, "vk"@)
                    || text::contains_text(name, "vkontakte"@))
            }))
        }),
{
    let lower = text::lowercase(url);
    let hosts = text::lowercase(lower);
    let platform = platform_of(hosts);
    let list = candidates(files, platform_file, lower, platform);
    let profiles = serving(files, lower, aliases_of(platform));
    let k = choose|k: int| is_chosen(list, k) && path == (#[trigger] list[k]).1;
    law_platforms_are_known_by_hosts(hosts);
    if k < profiles.len() {
        lemma_serving_serves(files, lower, aliases_of(platform), k);
        law_profile_serves_by_name_or_platform(list[k].0, lower, hosts);
        choose|i: int|
            0 <= i < files.len() && (#[trigger] files[i]).profile() is Some && list[k] == (
                text::lowercase(files[i].profile()->0),
                files[i].path@,
            ) && serves(list[k].0, lower, aliases_of(platform))
    } else {
        0
    }
}

/// A profile that serves a URL is not passed over: some file is chosen, and the
/// name for which it is chosen is at least as long.
pub proof fn law_serving_profile_is_not_passed_over(
    files: Seq<ListedFile>,
    platform_file: Option<Seq<char>>,
    url: Seq<char>,
    path: Option<Seq<char>>,
    i: int,
) -> (chosen: (Seq<char>, Seq<char>))
    requires
        is_choice(files, platform_file, url, path),
        0 <= i < files.len(),
        files[i].profile() is Some,
        serves(
            text::lowercase(files[i].profile()->0),
            text::lowercase(url),
            aliases_of(platform_of(text::lowercase(text::lowercase(url)))),
        ),
    ensures
        path == Some(chosen.1),
        encode_utf8(chosen.0).len() >= encode_utf8(
            text::lowercase(files[i].profile()->0),
        ).len(),
        is_named_choice(files, platform_file, url, chosen),
{
    let lower = text::lowercase(url);
    let platform = platform_of(text::lowercase(lower));
    let list = candidates(files, platform_file, lower, platform);
    let entry = (text::lowercase(files[i].profile()->0), files[i].path@);
    law_serving_profile_is_candidate(files, i, platform_file, lower, platform);
    let j = choose|j: int| 0 <= j < list.len() && list[j] == entry;
    let k = choose|k: int| is_chosen(list, k) && path->0 == (#[trigger] list[k]).1;
    law_longest_name_wins(list, k, j);
    law_candidate_serves(files, platform_file, lower, platform, k);
    list[k]
}

/// `entry` is the name, in lower case, and the path of a profile of the
/// directory, or the platform of a URL and the path of the file for it.
pub open spec fn is_named_choice(
    files: Seq<ListedFile>,
    platform_file: Option<Seq<char>>,
    url: Seq<char>,
    entry: (Seq<char>, Seq<char>),
) -> bool {
    ||| exists|i: int|
        0 <= i < files.len() && (#[trigger] files[i]).profile() is Some && entry == (
            text::lowercase(files[i].profile()->0),
            files[i].path@,
        )
    ||| platform_of(text::lowercase(text::lowercase(url))) == Some(entry.0) && platform_file
        == Some(entry.1)
}

/// A file that is named after a platform is chosen at the latest when nothing
/// else serves a URL of the platform.
pub proof fn law_platform_file_is_used(
    files: Seq<ListedFile>,
    platform_file: Seq<char>,
    url: Seq<char>,
    path: Option<Seq<char>>,
)
    requires
        is_choice(files, Some(platform_file), url, path),
        platform_of(text::lowercase(text::lowercase(url))) is Some,
    ensures
        path is Some,
        files.len() == 0 ==> path == Some(platform_file),
{
    let lower = text::lowercase(url);
    let list = candidates(
        files,
        Some(platform_file),
        lower,
        platform_of(text::lowercase(lower)),
    );
    assert(list.last().1 == platform_file);
    if files.len() == 0 {
        let k = choose|k: int| is_chosen(list, k) && path->0 == (#[trigger] list[k]).1;
        assert(list.len() == 1);
    }
}

/// Of several candidates the one with the longest name is chosen, of names of
/// one length the smallest, and of candidates of one name the last.
pub proof fn law_choice_goes_by_length_then_name(list: Seq<Candidate>, k: int, j: int)
    requires
        is_chosen(parts_of(list), k),
        0 <= j < list.len(),
    ensures
        ({
            let chosen = encode_utf8(list[k].name@);
            let other = encode_utf8(list[j].name@);
            ||| chosen.len() > other.len()
            ||| chosen.len() == other.len() && text::bytes_before(chosen, other)
            ||| list[k].name@ == list[j].name@ && j <= k
        }),
{
    let parts = parts_of(list);
    let chosen = encode_utf8(parts[k].0);
    let other = encode_utf8(parts[j].0);
    assert(!outranks(parts[j], parts[k]));
    text::lemma_bytes_total(chosen, other);
    if chosen == other {
        encode_utf8_decode_utf8(parts[k].0);
        encode_utf8_decode_utf8(parts[j].0);
        if j > k {
            assert(outranks(parts[k], parts[j]));
            if text::bytes_before(chosen, other) {
                text::lemma_bytes_asymmetric(chosen, other);
            }
        }
    }
}

/// One more entry of a directory adds itself behind the other candidates if it is
/// a file, ends in ".txt" and serves the URL, and nothing otherwise.
pub proof fn law_candidates_follow_directory(
    files: Seq<ListedFile>,
    file: ListedFile,
    stem: Seq<char>,
    lower: Seq<char>,
    aliases: Seq<&str>,
)
    ensures
        serving(Seq::<ListedFile>::empty(), lower, aliases).len() == 0,
        !file.is_file ==> serving(files.push(file), lower, aliases) == serving(
            files,
            lower,
            aliases,
        ),
        file.is_file && stem.len() > 0 && file.file_name@ == stem + ".txt"@ ==> serving(
            files.push(file),
            lower,
            aliases,
        ) == if serves(text::lowercase(stem), lower, aliases) {
            serving(files, lower, aliases).push((text::lowercase(stem), file.path@))
        } else {
            serving(files, lower, aliases)
        },
{
    assert(files.push(file).drop_last() =~= files);
    if stem.len() > 0 {
        cookies::law_file_leads_back_to_profile(stem);
    }
}

/// The file that is named after the platform of a URL has the name of the
/// platform with ".txt" behind it, and a URL without a platform has none.
pub proof fn law_platform_file_has_name_of_platform(url: Seq<char>, file_name: Option<Seq<char>>)
    requires
        is_platform_file(url, file_name),
    ensures
        ({
            let hosts = text::lowercase(text::lowercase(url));
            let twitter = text::contains_text(hosts, "twitter.com"@) || text::contains_text(
                hosts,
                "x.com"@,
            );
            let youtube = text::contains_text(hosts, "youtube.com"@) || text::contains_text(
                hosts,
                "youtu.be"@,
            );
            let tiktok = text::contains_text(hosts, "tiktok.com"@);
            let vk = text::contains_text(hosts, "vk.com"@) || text::contains_text(hosts, "vk.ru"@)
                || text::contains_text(hosts, "vkvideo.ru"@);
            &&& twitter ==> file_name == Some("twitter.txt"@)
            &&& youtube && !twitter ==> file_name == Some("youtube.txt"@)
            &&& tiktok && !youtube && !twitter ==> file_name == Some("tiktok.txt"@)
            &&& vk && !tiktok && !youtube && !twitter ==> file_name == Some("vk.txt"@)
            &&& file_name is Some <==> twitter || youtube || tiktok || vk
        }),
{
    reveal_strlit(".txt");
    reveal_strlit("twitter");
    reveal_strlit("youtube");
    reveal_strlit("tiktok");
    reveal_strlit("vk");
    reveal_strlit("twitter.txt");
    reveal_strlit("youtube.txt");
    reveal_strlit("tiktok.txt");
    reveal_strlit("vk.txt");
    assert("twitter"@ + ".txt"@ =~= "twitter.txt"@);
    assert("youtube"@ + ".txt"@ =~= "youtube.txt"@);
    assert("tiktok"@ + ".txt"@ =~= "tiktok.txt"@);
    assert("vk"@ + ".txt"@ =~= "vk.txt"@);
}

/// A file that is named after the platform of a URL is a candidate for it.
pub proof fn law_platform_file_is_candidate(
    files: Seq<ListedFile>,
    path: Seq<char>,
    lower: Seq<char>,
    platform: Seq<char>,
)
    ensures
        candidates(files, Some(path), lower, Some(platform)).last() == (platform, path),
{
}

} // verus!
