//! Answers to inline queries.
use vstd::prelude::*;

use crate::kind::{law_kinds_are_consistent, named_for_youtube, DownloadKind};
use crate::link::{contains_http_link, find_download_link, link_in, DownloadLink, HTTP_LINK_RE};
use crate::outside::{regex_find, regex_is_match};
use crate::text::{concat2, has_suffix};

verus! {

/// An article that answers an inline query.
#[derive(Debug)]
pub struct InlineArticle {
    pub id: &'static str,
    pub title: &'static str,
    /// What is sent to the chat when the article is chosen.
    pub message_text: String,
    pub description: &'static str,
}

impl DeepView for InlineArticle {
    type V = (Seq<char>, Seq<char>, Seq<char>, Seq<char>);

    open spec fn deep_view(&self) -> (Seq<char>, Seq<char>, Seq<char>, Seq<char>) {
        (self.id@, self.title@, self.message_text@, self.description@)
    }
}

/// The article that answers a query with this link to media, or with `any_link` or none at all.
pub open spec fn article_for(link: Option<(DownloadKind, Seq<char>)>, any_link: bool) -> (
    Seq<char>,
    Seq<char>,
    Seq<char>,
    Seq<char>,
) {
    match link {
        Some((kind, url)) => if kind.on_youtube() {
            (
                "send-youtube-to-chat"@,
                "Open bot chat to choose quality"@,
                "Send this YouTube link to the bot chat to choose quality or audio:\n"@ + url,
                "Inline queries answer instantly; downloads run in bot chat."@,
            )
        } else {
            (
                "send-video-to-chat"@,
                "Open bot chat to download"@,
                "Send this link to the bot chat to download it:\n"@ + url,
                "Inline queries answer instantly; downloads run in bot chat."@,
            )
        },
        None => if any_link {
            (
                "unsupported-link"@,
                "Unsupported link"@,
                "This link is not supported."@,
                "Supported: Instagram profiles or Reels, X videos, and YouTube videos or Shorts."@,
            )
        } else {
            (
                "help"@,
                "Paste an Instagram profile or video link"@,
                "Paste an Instagram profile or Reel, X video, or YouTube link after the bot username."@,
                "Example: @fetcher_bot https://www.instagram.com/example/"@,
            )
        },
    }
}

/// Makes the article that answers a query with this link to media, or with `any_link` or none at
/// all.
pub fn inline_article(link: Option<DownloadLink<'_>>, any_link: bool) -> (r: InlineArticle)
    ensures
        r.deep_view() == article_for(link.deep_view(), any_link),
{
    match link {
        Some(link) => {
            if link.kind.is_youtube() {
                InlineArticle {
                    id: "send-youtube-to-chat",
                    title: "Open bot chat to choose quality",
                    message_text: concat2(
                        "Send this YouTube link to the bot chat to choose quality or audio:\n",
                        link.url,
                    ),
                    description: "Inline queries answer instantly; downloads run in bot chat.",
                }
            } else {
                InlineArticle {
                    id: "send-video-to-chat",
                    title: "Open bot chat to download",
                    message_text: concat2(
                        "Send this link to the bot chat to download it:\n",
                        link.url,
                    ),
                    description: "Inline queries answer instantly; downloads run in bot chat.",
                }
            }
        },
        None => {
            if any_link {
                InlineArticle {
                    id: "unsupported-link",
                    title: "Unsupported link",
                    message_text: "This link is not supported.".to_owned(),
                    description:
                        "Supported: Instagram profiles or Reels, X videos, and YouTube videos or Shorts.",
                }
            } else {
                InlineArticle {
                    id: "help",
                    title: "Paste an Instagram profile or video link",
                    message_text:
                        "Paste an Instagram profile or Reel, X video, or YouTube link after the bot username.".to_owned(),
                    description: "Example: @fetcher_bot https://www.instagram.com/example/",
                }
            }
        },
    }
}

/// Answers an inline query.
pub fn answer_inline_query(query: &str) -> (r: InlineArticle)
    ensures
        r.deep_view() == article_for(link_in(query@), regex_is_match(HTTP_LINK_RE@, query@)),
{
    inline_article(find_download_link(query), contains_http_link(query))
}

/// An inline query with a link to media is answered with that link, whole and last, and with the
/// way to the chat: to choose a quality for YouTube, and to download for everything else.
pub proof fn law_answer_holds_the_link(kind: DownloadKind, url: Seq<char>, any_link: bool)
    ensures
        ({
            let (id, title, message, description) = article_for(Some((kind, url)), any_link);
            &&& has_suffix(message, url)
            &&& named_for_youtube(kind) ==> id == "send-youtube-to-chat"@ && title
                == "Open bot chat to choose quality"@ && message
                == "Send this YouTube link to the bot chat to choose quality or audio:\n"@ + url
            &&& !named_for_youtube(kind) ==> id == "send-video-to-chat"@ && title
                == "Open bot chat to download"@ && message
                == "Send this link to the bot chat to download it:\n"@ + url
            &&& description == "Inline queries answer instantly; downloads run in bot chat."@
        }),
{
    let (id, title, message, description) = article_for(Some((kind, url)), any_link);
    assert(message.skip(message.len() - url.len()) =~= url);
}

/// An inline query without a link to media is told that its link is not supported, where it has
/// any, and is given help where it has none.
pub proof fn law_answer_without_media(any_link: bool)
    ensures
        article_for(None, any_link) == if any_link {
            (
                "unsupported-link"@,
                "Unsupported link"@,
                "This link is not supported."@,
                "Supported: Instagram profiles or Reels, X videos, and YouTube videos or Shorts."@,
            )
        } else {
            (
                "help"@,
                "Paste an Instagram profile or video link"@,
                "Paste an Instagram profile or Reel, X video, or YouTube link after the bot username."@,
                "Example: @fetcher_bot https://www.instagram.com/example/"@,
            )
        },
{
}

/// An inline query is answered by the link that is found in it, or by whether it holds any.
pub proof fn law_query_is_answered_by_its_link(query: &str, article: InlineArticle)
    requires
        call_ensures(answer_inline_query, (query,), article),
    ensures
        link_in(query@) matches Some((kind, url)) ==> has_suffix(article.message_text@, url) && (
        article.id@ == if named_for_youtube(kind) {
            "send-youtube-to-chat"@
        } else {
            "send-video-to-chat"@
        }),
        link_in(query@) is None && regex_find(HTTP_LINK_RE@, query@) is Some ==> article.id@
            == "unsupported-link"@,
        link_in(query@) is None && regex_find(HTTP_LINK_RE@, query@) is None ==> article.id@
            == "help"@,
{
    if let Some((kind, url)) = link_in(query@) {
        law_answer_holds_the_link(kind, url, regex_is_match(HTTP_LINK_RE@, query@));
        law_kinds_are_consistent(kind);
    }
}

}
