//! Links in what a user writes.
use vstd::prelude::*;

use crate::kind::DownloadKind;
use crate::outside::{
    captures, find, is_match, is_substring, regex_captures, regex_find, regex_is_match,
};
use crate::text::{ascii_lower, eq_ignore_ascii_case, same_ignoring_ascii_case};

verus! {

/// A Reel on Instagram, with its shortcode as group 1.
pub const IG_RE: &'static str =
    r"https?://(?:www\.)?instagram\.com/(?:[A-Za-z0-9._]+/)?(?:reel|reels)/([A-Za-z0-9_-]+)/?";

/// A profile on Instagram, with its user name as group 1.
pub const IG_PROFILE_RE: &'static str = r"https?://(?:www\.)?instagram\.com/([A-Za-z0-9._]+)/?";

/// A post on X.
pub const X_RE: &'static str =
    r"https?://(?:(?:www\.|mobile\.)?x\.com)/(?:[A-Za-z0-9_]+|i)/status/\d+(?:[/?#][^\s]*)?";

/// A Short on YouTube.
pub const YT_SHORTS_RE: &'static str =
    r"https?://(?:(?:www\.|m\.)?youtube\.com/shorts/[A-Za-z0-9_-]+)";

/// A video or a live stream on YouTube.
pub const YT_RE: &'static str =
    r"https?://(?:(?:www\.|m\.)?youtube\.com/(?:watch\?[^\s]*v=[A-Za-z0-9_-]+|live/[A-Za-z0-9_-]+(?:[?#][^\s]*)?)|youtu\.be/[A-Za-z0-9_-]+)";

/// Any link.
pub const HTTP_LINK_RE: &'static str = r"https?://[^\s]+";

/// A link to media, with what it leads to.
#[derive(Clone, Copy, Debug)]
pub struct DownloadLink<'a> {
    pub kind: DownloadKind,
    pub url: &'a str,
}

impl<'a> DeepView for DownloadLink<'a> {
    type V = (DownloadKind, Seq<char>);

    open spec fn deep_view(&self) -> (DownloadKind, Seq<char>) {
        (self.kind, self.url@)
    }
}

/// Group `i` of a match, where there was a match and the group took part in it.
pub open spec fn group_text(groups: Option<Seq<Option<Seq<char>>>>, i: int) -> Option<Seq<char>> {
    match groups {
        Some(texts) => if 0 <= i < texts.len() {
            texts[i]
        } else {
            None
        },
        None => None,
    }
}

/// Group `i` of a match, where there was a match and the group took part in it.
pub fn group<'a>(groups: &Option<Vec<Option<&'a str>>>, i: usize) -> (r: Option<&'a str>)
    ensures
        r.deep_view() == group_text(groups.deep_view(), i as int),
{
    match groups {
        Some(texts) => {
            if i < texts.len() {
                assert(groups.deep_view()->0[i as int] == texts@[i as int].deep_view());
                texts[i]
            } else {
                None
            }
        },
        None => None,
    }
}

/// Whether the first part of an Instagram path is a route of the site and not a user name.
pub open spec fn is_reserved_name(name: Seq<char>) -> bool {
    ||| same_ignoring_ascii_case(name, "reel"@)
    ||| same_ignoring_ascii_case(name, "reels"@)
    ||| same_ignoring_ascii_case(name, "p"@)
    ||| same_ignoring_ascii_case(name, "stories"@)
    ||| same_ignoring_ascii_case(name, "explore"@)
}

/// Whether the first part of an Instagram path is a route of the site and not a user name.
pub fn is_reserved(name: &str) -> (r: bool)
    ensures
        r == is_reserved_name(name@),
{
    eq_ignore_ascii_case(name, "reel") || eq_ignore_ascii_case(name, "reels")
        || eq_ignore_ascii_case(name, "p") || eq_ignore_ascii_case(name, "stories")
        || eq_ignore_ascii_case(name, "explore")
}

/// The profile that the groups of a match lead to: none where the name is a route of the site.
pub open spec fn profile_link(groups: Option<Seq<Option<Seq<char>>>>) -> Option<
    (DownloadKind, Seq<char>),
> {
    match (group_text(groups, 1), group_text(groups, 0)) {
        (Some(name), Some(url)) => if is_reserved_name(name) {
            None
        } else {
            Some((DownloadKind::InstagramProfile, url))
        },
        _ => None,
    }
}

/// The link that counts among what each expression found: Reels come before profiles, those
/// before X, Shorts and other YouTube videos. An Instagram path that is no profile ends the
/// search.
pub open spec fn selected_link(
    reel: Option<Seq<char>>,
    profile: Option<Seq<Option<Seq<char>>>>,
    post: Option<Seq<char>>,
    short: Option<Seq<char>>,
    video: Option<Seq<char>>,
) -> Option<(DownloadKind, Seq<char>)> {
    match (reel, profile, post, short, video) {
        (Some(url), _, _, _, _) => Some((DownloadKind::InstagramReel, url)),
        (None, Some(_), _, _, _) => profile_link(profile),
        (None, None, Some(url), _, _) => Some((DownloadKind::XVideo, url)),
        (None, None, None, Some(url), _) => Some((DownloadKind::YouTubeShort, url)),
        (None, None, None, None, Some(url)) => Some((DownloadKind::YouTubeVideo, url)),
        (None, None, None, None, None) => None,
    }
}

/// Picks the link that counts among what each expression found.
pub fn select_download_link<'a>(
    reel: Option<&'a str>,
    profile: &Option<Vec<Option<&'a str>>>,
    post: Option<&'a str>,
    short: Option<&'a str>,
    video: Option<&'a str>,
) -> (r: Option<DownloadLink<'a>>)
    ensures
        r.deep_view() == selected_link(
            reel.deep_view(),
            profile.deep_view(),
            post.deep_view(),
            short.deep_view(),
            video.deep_view(),
        ),
{
    if let Some(url) = reel {
        return Some(DownloadLink { kind: DownloadKind::InstagramReel, url });
    }
    if profile.is_some() {
        let name = match group(profile, 1) {
            Some(name) => name,
            None => return None,
        };
        if is_reserved(name) {
            return None;
        }
        return match group(profile, 0) {
            Some(url) => Some(DownloadLink { kind: DownloadKind::InstagramProfile, url }),
            None => None,
        };
    }
    if let Some(url) = post {
        return Some(DownloadLink { kind: DownloadKind::XVideo, url });
    }
    if let Some(url) = short {
        return Some(DownloadLink { kind: DownloadKind::YouTubeShort, url });
    }
    match video {
        Some(url) => Some(DownloadLink { kind: DownloadKind::YouTubeVideo, url }),
        None => None,
    }
}

/// The link in `text` that leads to media.
pub open spec fn link_in(text: Seq<char>) -> Option<(DownloadKind, Seq<char>)> {
    selected_link(
        regex_find(IG_RE@, text),
        regex_captures(IG_PROFILE_RE@, text),
        regex_find(X_RE@, text),
        regex_find(YT_SHORTS_RE@, text),
        regex_find(YT_RE@, text),
    )
}

/// Finds the link in `text` that leads to media; it stands in the text as it is given back.
pub fn find_download_link<'a>(text: &'a str) -> (r: Option<DownloadLink<'a>>)
    ensures
        r.deep_view() == link_in(text@),
        r matches Some(link) ==> is_substring(link.url@, text@),
{
    let profile = captures(IG_PROFILE_RE, text);
    let link = select_download_link(
        find(IG_RE, text),
        &profile,
        find(X_RE, text),
        find(YT_SHORTS_RE, text),
        find(YT_RE, text),
    );
    proof {
        if link is Some && link->0.kind is InstagramProfile {
            let groups = profile->0;
            assert(profile.deep_view()->0[0] == groups@[0].deep_view());
            assert(groups@[0] is Some && groups@[0]->0@ == link->0.url@);
        }
    }
    link
}

/// Whether there is any link in `text`.
pub fn contains_http_link(text: &str) -> (r: bool)
    ensures
        r == regex_is_match(HTTP_LINK_RE@, text@),
{
    is_match(HTTP_LINK_RE, text)
}

/// Whether `yt-dlp` gets cookies for `url`: not for posts on X, which are open to guests and
/// refused with stale cookies.
pub fn should_use_cookies(url: &str) -> (r: bool)
    ensures
        r == !regex_is_match(X_RE@, url@),
{
    !is_match(X_RE, url)
}

/// The user name in a link to an Instagram profile.
pub fn instagram_profile_username<'a>(url: &'a str) -> (r: Option<&'a str>)
    ensures
        r.deep_view() == group_text(regex_captures(IG_PROFILE_RE@, url@), 1),
{
    group(&captures(IG_PROFILE_RE, url), 1)
}

/// The shortcode in a link to an Instagram Reel.
pub open spec fn reel_shortcode(url: Seq<char>) -> Option<Seq<char>> {
    group_text(regex_captures(IG_RE@, url), 1)
}

/// The shortcode in a link to an Instagram Reel.
pub fn instagram_reel_shortcode<'a>(url: &'a str) -> (r: Option<&'a str>)
    ensures
        r.deep_view() == reel_shortcode(url@),
{
    group(&captures(IG_RE, url), 1)
}

/// A text whose link leads to YouTube holds no post on X, and one whose link is a post on X holds
/// one.
pub proof fn law_posts_come_before_videos(text: Seq<char>)
    requires
        link_in(text) is Some,
    ensures
        ({
            let (kind, url) = link_in(text)->0;
            &&& kind.on_youtube() ==> !regex_is_match(X_RE@, text)
            &&& kind is XVideo ==> regex_is_match(X_RE@, text)
        }),
{
}

/// A link that is selected is one of those found: its address is what one of the expressions
/// found, and its kind is the one of that expression. None is selected only where nothing was
/// found, or an Instagram path that is no Reel.
pub proof fn law_selection_is_a_find(
    reel: Option<Seq<char>>,
    profile: Option<Seq<Option<Seq<char>>>>,
    post: Option<Seq<char>>,
    short: Option<Seq<char>>,
    video: Option<Seq<char>>,
)
    ensures
        match selected_link(reel, profile, post, short, video) {
            Some((kind, url)) => match kind {
                DownloadKind::InstagramReel => reel == Some(url),
                DownloadKind::InstagramProfile => group_text(profile, 0) == Some(url),
                DownloadKind::XVideo => post == Some(url),
                DownloadKind::YouTubeShort => short == Some(url),
                DownloadKind::YouTubeVideo => video == Some(url),
                _ => false,
            },
            None => reel is None && (profile is Some || post is None && short is None && video
                is None),
        },
{
}

// Laws of the links

/// The link in a text is what the expression of its kind finds there, and the kinds come in their
/// order: a Reel before a profile, a profile before a post, a post before a Short, a Short before
/// any other video. Where only one expression finds anything, that is the link.
pub proof fn law_link_is_what_its_expression_finds(text: Seq<char>)
    ensures
        ({
            let reel = regex_find(IG_RE@, text);
            let profile = regex_captures(IG_PROFILE_RE@, text);
            let post = regex_find(X_RE@, text);
            let short = regex_find(YT_SHORTS_RE@, text);
            let video = regex_find(YT_RE@, text);
            &&& reel is Some ==> link_in(text) == Some((DownloadKind::InstagramReel, reel->0))
            &&& reel is None && profile is None && post is Some ==> link_in(text) == Some(
                (DownloadKind::XVideo, post->0),
            )
            &&& reel is None && profile is None && post is None && short is Some ==> link_in(text)
                == Some((DownloadKind::YouTubeShort, short->0))
            &&& reel is None && profile is None && post is None && short is None && video is Some
                ==> link_in(text) == Some((DownloadKind::YouTubeVideo, video->0))
            &&& reel is None && profile is None && post is None && short is None && video is None
                ==> link_in(text) is None
        }),
{
}

/// The names that are routes of the site.
pub open spec fn routes() -> Seq<Seq<char>> {
    seq!["reel"@, "reels"@, "p"@, "stories"@, "explore"@]
}

/// Whether `a` is `b` with some of its letters made large.
pub open spec fn enlarges(a: Seq<char>, b: Seq<char>) -> bool {
    a.len() == b.len() && forall|i: int|
        0 <= i < a.len() ==> (#[trigger] a[i]) == b[i] || 'A' <= a[i] <= 'Z' && b[i] as int == a[i]
            as int + 32
}

/// A name is reserved just when it is a route of the site, in large or small letters.
pub proof fn law_only_routes_are_reserved(name: Seq<char>)
    ensures
        is_reserved_name(name) <==> exists|k: int| 0 <= k < 5 && enlarges(name, #[trigger] routes()[k]),
{
    reveal_strlit("reel");
    reveal_strlit("reels");
    reveal_strlit("p");
    reveal_strlit("stories");
    reveal_strlit("explore");
    assert forall|k: int| 0 <= k < 5 implies (enlarges(name, #[trigger] routes()[k])
        <==> same_ignoring_ascii_case(name, routes()[k])) by {
        let route = routes()[k];
        assert(forall|i: int| 0 <= i < route.len() ==> 'a' <= #[trigger] route[i] <= 'z');
        if same_ignoring_ascii_case(name, route) {
            assert forall|i: int| 0 <= i < name.len() implies (#[trigger] name[i]) == route[i]
                || 'A' <= name[i] <= 'Z' && route[i] as int == name[i] as int + 32 by {
                assert(ascii_lower(name[i]) == ascii_lower(route[i]));
                assert('a' <= route[i] <= 'z');
            }
        }
        if enlarges(name, route) {
            assert forall|i: int| 0 <= i < name.len() implies ascii_lower(name[i]) == ascii_lower(
                route[i],
            ) by {
                assert(name[i] == route[i] || 'A' <= name[i] <= 'Z' && route[i] as int == name[i]
                    as int + 32);
                assert('a' <= route[i] <= 'z');
            }
        }
    }
    assert(routes()[0] == "reel"@ && routes()[1] == "reels"@ && routes()[2] == "p"@
        && routes()[3] == "stories"@ && routes()[4] == "explore"@);
}

/// Where no Reel is found and a profile is, the link is that profile, whole, unless its name is a
/// route of the site; then there is no link, whatever else the text holds.
pub proof fn law_profile_is_found_by_its_name(text: Seq<char>, name: Seq<char>, url: Seq<char>)
    requires
        regex_find(IG_RE@, text) is None,
        regex_captures(IG_PROFILE_RE@, text) is Some,
        regex_captures(IG_PROFILE_RE@, text)->0.len() >= 2,
        regex_captures(IG_PROFILE_RE@, text)->0[0] == Some(url),
        regex_captures(IG_PROFILE_RE@, text)->0[1] == Some(name),
    ensures
        link_in(text) == if exists|k: int| 0 <= k < 5 && enlarges(name, #[trigger] routes()[k]) {
            None
        } else {
            Some((DownloadKind::InstagramProfile, url))
        },
{
    law_only_routes_are_reserved(name);
}

/// The shortcode of a Reel is the first group of its expression.
pub proof fn law_shortcode_is_the_first_group(url: Seq<char>)
    ensures
        reel_shortcode(url) == match regex_captures(IG_RE@, url) {
            Some(groups) => if groups.len() >= 2 {
                groups[1]
            } else {
                None
            },
            None => None,
        },
{
}

/// What the expressions take of an address. The identifier of a video, a Short, a live stream or a
/// Reel goes on as long as letters, digits, underscores and hyphens do, and a user name as long as
/// letters, digits, dots and underscores do; both are then taken whole.
pub proof fn law_identifiers_are_taken_whole()
    ensures
        ({
            let id = "[A-Za-z0-9_-]+"@;
            let name = "[A-Za-z0-9._]+"@;
            let youtube = r"https?://(?:(?:www\.|m\.)?youtube\.com/"@;
            let instagram = r"https?://(?:www\.)?instagram\.com/"@;
            &&& YT_RE@ == youtube + r"(?:watch\?[^\s]*v="@ + id + "|live/"@ + id
                + r"(?:[?#][^\s]*)?)|youtu\.be/"@ + id + ")"@
            &&& YT_SHORTS_RE@ == youtube + "shorts/"@ + id + ")"@
            &&& IG_RE@ == instagram + "(?:"@ + name + "/)?(?:reel|reels)/("@ + id + ")/?"@
            &&& IG_PROFILE_RE@ == instagram + "("@ + name + ")/?"@
        }),
{
    reveal_strlit("[A-Za-z0-9_-]+");
    reveal_strlit("[A-Za-z0-9._]+");
    reveal_strlit(r"https?://(?:(?:www\.|m\.)?youtube\.com/");
    reveal_strlit(r"https?://(?:www\.)?instagram\.com/");
    reveal_strlit(r"(?:watch\?[^\s]*v=");
    reveal_strlit("|live/");
    reveal_strlit(r"(?:[?#][^\s]*)?)|youtu\.be/");
    reveal_strlit(")");
    reveal_strlit("shorts/");
    reveal_strlit("(?:");
    reveal_strlit("/)?(?:reel|reels)/(");
    reveal_strlit(")/?");
    reveal_strlit("(");
    let id = "[A-Za-z0-9_-]+"@;
    let name = "[A-Za-z0-9._]+"@;
    let youtube = r"https?://(?:(?:www\.|m\.)?youtube\.com/"@;
    let instagram = r"https?://(?:www\.)?instagram\.com/"@;
    assert(YT_RE@ =~= youtube + r"(?:watch\?[^\s]*v="@ + id + "|live/"@ + id
        + r"(?:[?#][^\s]*)?)|youtu\.be/"@ + id + ")"@) by {
        reveal_strlit(
            r"https?://(?:(?:www\.|m\.)?youtube\.com/(?:watch\?[^\s]*v=[A-Za-z0-9_-]+|live/[A-Za-z0-9_-]+(?:[?#][^\s]*)?)|youtu\.be/[A-Za-z0-9_-]+)",
        );
    }
    assert(YT_SHORTS_RE@ =~= youtube + "shorts/"@ + id + ")"@) by {
        reveal_strlit(r"https?://(?:(?:www\.|m\.)?youtube\.com/shorts/[A-Za-z0-9_-]+)");
    }
    assert(IG_RE@ =~= instagram + "(?:"@ + name + "/)?(?:reel|reels)/("@ + id + ")/?"@) by {
        reveal_strlit(
            r"https?://(?:www\.)?instagram\.com/(?:[A-Za-z0-9._]+/)?(?:reel|reels)/([A-Za-z0-9_-]+)/?",
        );
    }
    assert(IG_PROFILE_RE@ =~= instagram + "("@ + name + ")/?"@) by {
        reveal_strlit(r"https?://(?:www\.)?instagram\.com/([A-Za-z0-9._]+)/?");
    }
}

/// Any link goes on to the next white space, and so does what follows the number of a post on X.
pub proof fn law_links_end_at_white_space()
    ensures
        HTTP_LINK_RE@ == "https?://"@ + r"[^\s]"@ + "+"@,
        X_RE@ == "https?://"@ + r"(?:(?:www\.|mobile\.)?x\.com)/(?:[A-Za-z0-9_]+|i)/status/"@
            + r"\d+"@ + "(?:[/?#]"@ + r"[^\s]"@ + "*)?"@,
{
    reveal_strlit("https?://");
    reveal_strlit(r"[^\s]");
    reveal_strlit("+");
    reveal_strlit(r"(?:(?:www\.|mobile\.)?x\.com)/(?:[A-Za-z0-9_]+|i)/status/");
    reveal_strlit(r"\d+");
    reveal_strlit("(?:[/?#]");
    reveal_strlit("*)?");
    reveal_strlit(r"https?://[^\s]+");
    reveal_strlit(
        r"https?://(?:(?:www\.|mobile\.)?x\.com)/(?:[A-Za-z0-9_]+|i)/status/\d+(?:[/?#][^\s]*)?",
    );
}

/// The link that is found in a text, the name and the shortcode that are read from a link, and
/// whether there is any link or cookies are used, are all what the expressions give.
pub proof fn law_link_functions(
    text: &str,
    link: Option<DownloadLink<'_>>,
    any: bool,
    cookies: bool,
    name: Option<&str>,
    code: Option<&str>,
)
    requires
        call_ensures(find_download_link, (text,), link),
        call_ensures(contains_http_link, (text,), any),
        call_ensures(should_use_cookies, (text,), cookies),
        call_ensures(instagram_profile_username, (text,), name),
        call_ensures(instagram_reel_shortcode, (text,), code),
    ensures
        link matches Some(found) ==> is_substring(found.url@, text@) && match found.kind {
            DownloadKind::InstagramReel => regex_find(IG_RE@, text@) == Some(found.url@),
            DownloadKind::InstagramProfile => group_text(
                regex_captures(IG_PROFILE_RE@, text@),
                0,
            ) == Some(found.url@) && regex_find(IG_RE@, text@) is None,
            DownloadKind::XVideo => regex_find(X_RE@, text@) == Some(found.url@),
            DownloadKind::YouTubeShort => regex_find(YT_SHORTS_RE@, text@) == Some(found.url@),
            DownloadKind::YouTubeVideo => regex_find(YT_RE@, text@) == Some(found.url@),
            _ => false,
        },
        regex_find(IG_RE@, text@) is Some ==> link is Some,
        regex_captures(IG_PROFILE_RE@, text@) is None && (regex_find(X_RE@, text@) is Some
            || regex_find(YT_SHORTS_RE@, text@) is Some || regex_find(YT_RE@, text@) is Some)
            ==> link is Some,
        any <==> regex_find(HTTP_LINK_RE@, text@) is Some,
        cookies <==> regex_find(X_RE@, text@) is None,
        name.deep_view() == group_text(regex_captures(IG_PROFILE_RE@, text@), 1),
        code.deep_view() == group_text(regex_captures(IG_RE@, text@), 1),
{
    law_selection_is_a_find(
        regex_find(IG_RE@, text@),
        regex_captures(IG_PROFILE_RE@, text@),
        regex_find(X_RE@, text@),
        regex_find(YT_SHORTS_RE@, text@),
        regex_find(YT_RE@, text@),
    );
    if let Some(found) = link {
        assert(link.deep_view() == Some((found.kind, found.url@)));
    }
}

}
