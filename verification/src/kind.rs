//! What can be downloaded, and what each kind of download asks for.
use vstd::prelude::*;

use crate::text::{
    decimal, has_part, has_prefix, law_decimal_is_digits, law_pieces_come_apart, occurs_at, pieces,
};

verus! {

/// A kind of download.
#[derive(Clone, Copy, Debug, PartialEq, Eq, Structural)]
pub enum DownloadKind {
    InstagramReel,
    InstagramProfile,
    XVideo,
    YouTubeShort,
    YouTubeVideo,
    YouTubeVideo480,
    YouTubeVideo720,
    YouTubeVideo1024,
    YouTubeVideo1440,
    YouTubeVideo2160,
    YouTubeAudio,
}

/// The format that asks for the best video up to `height` with the best audio, and falls back
/// to what else there is.
pub open spec fn height_selector(height: nat) -> Seq<char> {
    let bound = "[height<="@ + decimal(height) + "]"@;
    "bestvideo"@ + bound + "[ext=mp4]+bestaudio[ext=m4a]/bestvideo"@ + bound + "+bestaudio/best"@
        + bound + "[ext=mp4]/best"@ + bound + "/best"@
}

impl DownloadKind {
    /// Whether the media are on YouTube.
    pub open spec fn on_youtube(self) -> bool {
        !(self is InstagramReel || self is InstagramProfile || self is XVideo)
    }

    /// The height that a YouTube video is asked for with.
    pub open spec fn max_height(self) -> Option<nat> {
        match self {
            DownloadKind::YouTubeVideo => Some(1024),
            DownloadKind::YouTubeVideo480 => Some(480),
            DownloadKind::YouTubeVideo720 => Some(720),
            DownloadKind::YouTubeVideo1024 => Some(1024),
            DownloadKind::YouTubeVideo1440 => Some(1440),
            DownloadKind::YouTubeVideo2160 => Some(2160),
            _ => None,
        }
    }

    /// Whether a video, not audio alone, is sent.
    pub fn is_inline_video(self) -> (r: bool)
        ensures
            r == !(self is YouTubeAudio),
    {
        !matches!(self, DownloadKind::YouTubeAudio)
    }

    /// Whether the media are on YouTube.
    pub fn is_youtube(self) -> (r: bool)
        ensures
            r == self.on_youtube(),
    {
        !matches!(
            self,
            DownloadKind::InstagramReel | DownloadKind::InstagramProfile | DownloadKind::XVideo
        )
    }

    /// Whether it is a YouTube video of chosen or default height.
    pub fn is_youtube_video(self) -> (r: bool)
        ensures
            r == (self.max_height() is Some),
    {
        matches!(
            self,
            DownloadKind::YouTubeVideo
                | DownloadKind::YouTubeVideo480
                | DownloadKind::YouTubeVideo720
                | DownloadKind::YouTubeVideo1024
                | DownloadKind::YouTubeVideo1440
                | DownloadKind::YouTubeVideo2160
        )
    }

    /// The name of the kind in the download log.
    pub open spec fn log_name(self) -> Seq<char> {
        match self {
            DownloadKind::InstagramReel => "instagram"@,
            DownloadKind::InstagramProfile => "instagram_profile"@,
            DownloadKind::XVideo => "x"@,
            DownloadKind::YouTubeShort => "youtube_shorts"@,
            DownloadKind::YouTubeVideo => "youtube_video"@,
            DownloadKind::YouTubeVideo480 => "youtube_video_480"@,
            DownloadKind::YouTubeVideo720 => "youtube_video_720"@,
            DownloadKind::YouTubeVideo1024 => "youtube_video_1024"@,
            DownloadKind::YouTubeVideo1440 => "youtube_video_1440"@,
            DownloadKind::YouTubeVideo2160 => "youtube_video_2160"@,
            DownloadKind::YouTubeAudio => "youtube"@,
        }
    }

    /// The name of the kind in the download log.
    pub fn log_kind(self) -> (r: &'static str)
        ensures
            r@ == self.log_name(),
    {
        match self {
            DownloadKind::InstagramReel => "instagram",
            DownloadKind::InstagramProfile => "instagram_profile",
            DownloadKind::XVideo => "x",
            DownloadKind::YouTubeShort => "youtube_shorts",
            DownloadKind::YouTubeVideo => "youtube_video",
            DownloadKind::YouTubeVideo480 => "youtube_video_480",
            DownloadKind::YouTubeVideo720 => "youtube_video_720",
            DownloadKind::YouTubeVideo1024 => "youtube_video_1024",
            DownloadKind::YouTubeVideo1440 => "youtube_video_1440",
            DownloadKind::YouTubeVideo2160 => "youtube_video_2160",
            DownloadKind::YouTubeAudio => "youtube",
        }
    }

    /// What the user reads while the media are fetched.
    pub open spec fn downloading_text(self) -> Seq<char> {
        match self {
            DownloadKind::InstagramReel => "Downloading reel..."@,
            DownloadKind::InstagramProfile => "Scrolling profile Reels..."@,
            DownloadKind::XVideo => "Downloading X video..."@,
            DownloadKind::YouTubeAudio => "Downloading audio..."@,
            _ => "Downloading video..."@,
        }
    }

    /// What the user reads while the media are fetched.
    pub fn downloading_message(self) -> (r: &'static str)
        ensures
            r@ == self.downloading_text(),
    {
        match self {
            DownloadKind::InstagramReel => "Downloading reel...",
            DownloadKind::InstagramProfile => "Scrolling profile Reels...",
            DownloadKind::XVideo => "Downloading X video...",
            DownloadKind::YouTubeAudio => "Downloading audio...",
            _ => "Downloading video...",
        }
    }

    /// The title of media that name none.
    pub fn title_fallback(self) -> (r: &'static str)
        ensures
            r@ == if self is YouTubeAudio {
                "audio"@
            } else {
                "video"@
            },
    {
        match self {
            DownloadKind::YouTubeAudio => "audio",
            _ => "video",
        }
    }

    /// The extension of the file that is written.
    pub open spec fn extension(self) -> Seq<char> {
        if self is YouTubeAudio {
            "mp3"@
        } else {
            "mp4"@
        }
    }

    /// The extension of the file that is written.
    pub fn output_extension(self) -> (r: &'static str)
        ensures
            r@ == self.extension(),
    {
        match self {
            DownloadKind::YouTubeAudio => "mp3",
            _ => "mp4",
        }
    }

    /// The metadata field that becomes the caption: the channel, for audio.
    pub fn caption_field(self) -> (r: Option<&'static str>)
        ensures
            r.deep_view() == if self is YouTubeAudio {
                Some("channel"@)
            } else {
                None
            },
    {
        match self {
            DownloadKind::YouTubeAudio => Some("channel"),
            _ => None,
        }
    }

    /// The arguments that embed metadata: for YouTube, the channel as the artist.
    pub open spec fn metadata_list(self) -> Seq<Seq<char>> {
        if self.on_youtube() {
            seq!["--embed-metadata"@, "--parse-metadata"@, "channel:artist"@]
        } else {
            Seq::empty()
        }
    }

    /// The arguments that embed metadata.
    pub fn metadata_args(self) -> (r: &'static [&'static str])
        ensures
            r.deep_view() == self.metadata_list(),
    {
        let list: &'static [&'static str] = if self.is_youtube() {
            &["--embed-metadata", "--parse-metadata", "channel:artist"]
        } else {
            &[]
        };
        assert(list.deep_view() =~= self.metadata_list());
        list
    }

    /// What the user reads while the media are sent.
    pub open spec fn sending_text(self) -> Seq<char> {
        if self is YouTubeAudio {
            "Sending audio..."@
        } else {
            "Sending video..."@
        }
    }

    /// What the user reads while the media are sent.
    pub fn sending_message(self) -> (r: &'static str)
        ensures
            r@ == self.sending_text(),
    {
        match self {
            DownloadKind::YouTubeAudio => "Sending audio...",
            _ => "Sending video...",
        }
    }

    /// The arguments that choose the format.
    pub open spec fn format_list(self) -> Seq<Seq<char>> {
        match (self, self.max_height()) {
            (_, Some(height)) => seq![
                "-f"@,
                height_selector(height),
                "--merge-output-format"@,
                "mp4"@,
            ],
            (DownloadKind::XVideo, _) => seq![
                "-f"@,
                "best[ext=mp4][height<=720]/best[height<=720]/mp4"@,
                "--concat-playlist"@,
                "always"@,
            ],
            (DownloadKind::YouTubeAudio, _) => seq!["-x"@, "--audio-format"@, "mp3"@],
            _ => seq!["-f"@, "b[ext=mp4]"@],
        }
    }

    /// The arguments that choose the format.
    pub fn format_args(self) -> (r: &'static [&'static str])
        ensures
            r.deep_view() == self.format_list(),
    {
        proof {
            lemma_selectors();
        }
        let list: &'static [&'static str] = match self {
            DownloadKind::XVideo => &[
                "-f",
                "best[ext=mp4][height<=720]/best[height<=720]/mp4",
                "--concat-playlist",
                "always",
            ],
            DownloadKind::YouTubeVideo | DownloadKind::YouTubeVideo1024 => &[
                "-f",
                "bestvideo[height<=1024][ext=mp4]+bestaudio[ext=m4a]/bestvideo[height<=1024]+bestaudio/best[height<=1024][ext=mp4]/best[height<=1024]/best",
                "--merge-output-format",
                "mp4",
            ],
            DownloadKind::YouTubeVideo720 => &[
                "-f",
                "bestvideo[height<=720][ext=mp4]+bestaudio[ext=m4a]/bestvideo[height<=720]+bestaudio/best[height<=720][ext=mp4]/best[height<=720]/best",
                "--merge-output-format",
                "mp4",
            ],
            DownloadKind::YouTubeVideo480 => &[
                "-f",
                "bestvideo[height<=480][ext=mp4]+bestaudio[ext=m4a]/bestvideo[height<=480]+bestaudio/best[height<=480][ext=mp4]/best[height<=480]/best",
                "--merge-output-format",
                "mp4",
            ],
            DownloadKind::YouTubeVideo1440 => &[
                "-f",
                "bestvideo[height<=1440][ext=mp4]+bestaudio[ext=m4a]/bestvideo[height<=1440]+bestaudio/best[height<=1440][ext=mp4]/best[height<=1440]/best",
                "--merge-output-format",
                "mp4",
            ],
            DownloadKind::YouTubeVideo2160 => &[
                "-f",
                "bestvideo[height<=2160][ext=mp4]+bestaudio[ext=m4a]/bestvideo[height<=2160]+bestaudio/best[height<=2160][ext=mp4]/best[height<=2160]/best",
                "--merge-output-format",
                "mp4",
            ],
            DownloadKind::YouTubeAudio => &["-x", "--audio-format", "mp3"],
            _ => &["-f", "b[ext=mp4]"],
        };
        assert(list.deep_view() =~= self.format_list());
        list
    }
}

proof fn lemma_selectors()
    ensures
        "bestvideo[height<=480][ext=mp4]+bestaudio[ext=m4a]/bestvideo[height<=480]+bestaudio/best[height<=480][ext=mp4]/best[height<=480]/best"@
            == height_selector(480),
        "bestvideo[height<=720][ext=mp4]+bestaudio[ext=m4a]/bestvideo[height<=720]+bestaudio/best[height<=720][ext=mp4]/best[height<=720]/best"@
            == height_selector(720),
        "bestvideo[height<=1024][ext=mp4]+bestaudio[ext=m4a]/bestvideo[height<=1024]+bestaudio/best[height<=1024][ext=mp4]/best[height<=1024]/best"@
            == height_selector(1024),
        "bestvideo[height<=1440][ext=mp4]+bestaudio[ext=m4a]/bestvideo[height<=1440]+bestaudio/best[height<=1440][ext=mp4]/best[height<=1440]/best"@
            == height_selector(1440),
        "bestvideo[height<=2160][ext=mp4]+bestaudio[ext=m4a]/bestvideo[height<=2160]+bestaudio/best[height<=2160][ext=mp4]/best[height<=2160]/best"@
            == height_selector(2160),
{
    reveal_strlit("[height<=");
    reveal_strlit("]");
    reveal_strlit("bestvideo");
    reveal_strlit("[ext=mp4]+bestaudio[ext=m4a]/bestvideo");
    reveal_strlit("+bestaudio/best");
    reveal_strlit("[ext=mp4]/best");
    reveal_strlit("/best");
    reveal_with_fuel(decimal, 5);
    assert("bestvideo[height<=480][ext=mp4]+bestaudio[ext=m4a]/bestvideo[height<=480]+bestaudio/best[height<=480][ext=mp4]/best[height<=480]/best"@
        =~= height_selector(480)) by {
        reveal_strlit(
            "bestvideo[height<=480][ext=mp4]+bestaudio[ext=m4a]/bestvideo[height<=480]+bestaudio/best[height<=480][ext=mp4]/best[height<=480]/best",
        );
    }
    assert("bestvideo[height<=720][ext=mp4]+bestaudio[ext=m4a]/bestvideo[height<=720]+bestaudio/best[height<=720][ext=mp4]/best[height<=720]/best"@
        =~= height_selector(720)) by {
        reveal_strlit(
            "bestvideo[height<=720][ext=mp4]+bestaudio[ext=m4a]/bestvideo[height<=720]+bestaudio/best[height<=720][ext=mp4]/best[height<=720]/best",
        );
    }
    assert("bestvideo[height<=1024][ext=mp4]+bestaudio[ext=m4a]/bestvideo[height<=1024]+bestaudio/best[height<=1024][ext=mp4]/best[height<=1024]/best"@
        =~= height_selector(1024)) by {
        reveal_strlit(
            "bestvideo[height<=1024][ext=mp4]+bestaudio[ext=m4a]/bestvideo[height<=1024]+bestaudio/best[height<=1024][ext=mp4]/best[height<=1024]/best",
        );
    }
    assert("bestvideo[height<=1440][ext=mp4]+bestaudio[ext=m4a]/bestvideo[height<=1440]+bestaudio/best[height<=1440][ext=mp4]/best[height<=1440]/best"@
        =~= height_selector(1440)) by {
        reveal_strlit(
            "bestvideo[height<=1440][ext=mp4]+bestaudio[ext=m4a]/bestvideo[height<=1440]+bestaudio/best[height<=1440][ext=mp4]/best[height<=1440]/best",
        );
    }
    assert("bestvideo[height<=2160][ext=mp4]+bestaudio[ext=m4a]/bestvideo[height<=2160]+bestaudio/best[height<=2160][ext=mp4]/best[height<=2160]/best"@
        =~= height_selector(2160)) by {
        reveal_strlit(
            "bestvideo[height<=2160][ext=mp4]+bestaudio[ext=m4a]/bestvideo[height<=2160]+bestaudio/best[height<=2160][ext=mp4]/best[height<=2160]/best",
        );
    }
}

/// The format of every YouTube video names its height as the bound.
pub proof fn law_selector_names_height(kind: DownloadKind)
    requires
        kind.max_height() is Some,
    ensures
        has_part(kind.format_list()[1], "height<="@ + decimal(kind.max_height()->0)),
{
    let height = kind.max_height()->0;
    let needle = "height<="@ + decimal(height);
    reveal_strlit("height<=");
    reveal_strlit("[height<=");
    reveal_strlit("bestvideo");
    let selector = height_selector(height);
    assert(selector.subrange(10, 10int + needle.len()) =~= needle);
    assert(occurs_at(selector, needle, 10));
}

// Laws of the kinds

/// The height that the name of a kind promises.
pub open spec fn promised_height(kind: DownloadKind) -> Option<nat> {
    match kind {
        DownloadKind::YouTubeVideo => Some(1024),
        DownloadKind::YouTubeVideo480 => Some(480),
        DownloadKind::YouTubeVideo720 => Some(720),
        DownloadKind::YouTubeVideo1024 => Some(1024),
        DownloadKind::YouTubeVideo1440 => Some(1440),
        DownloadKind::YouTubeVideo2160 => Some(2160),
        _ => None,
    }
}

/// Whether `alternative` asks for video and sound: a video stream alone never does.
pub open spec fn has_sound(alternative: Seq<char>) -> bool {
    has_prefix(alternative, "bestvideo"@) ==> has_part(alternative, "+bestaudio"@)
}

proof fn lemma_no_slash(s: Seq<char>)
    requires
        forall|i: int| 0 <= i < s.len() ==> #[trigger] s[i] != '/',
    ensures
        !s.contains('/'),
{
}

/// A YouTube video is asked for in five ways, best first: the best video up to the promised height
/// together with the best sound, both as they fit in one file; the same in any form; one stream
/// with both up to that height, as it fits; the same in any form; and at last whatever is best.
/// None of them is video alone.
pub proof fn law_video_comes_with_sound(kind: DownloadKind)
    requires
        promised_height(kind) is Some,
    ensures
        ({
            let bound = "[height<="@ + decimal(promised_height(kind)->0) + "]"@;
            let list = kind.format_list();
            let ways = pieces(list[1], '/');
            &&& list.len() == 4
            &&& list[0] == "-f"@
            &&& list[2] == "--merge-output-format"@
            &&& list[3] == "mp4"@
            &&& ways.len() == 5
            &&& ways[0] == "bestvideo"@ + bound + "[ext=mp4]+bestaudio[ext=m4a]"@
            &&& ways[1] == "bestvideo"@ + bound + "+bestaudio"@
            &&& ways[2] == "best"@ + bound + "[ext=mp4]"@
            &&& ways[3] == "best"@ + bound
            &&& ways[4] == "best"@
            &&& forall|i: int| 0 <= i < 5 ==> has_sound(#[trigger] ways[i])
        }),
{
    let height = promised_height(kind)->0;
    let bound = "[height<="@ + decimal(height) + "]"@;
    reveal_strlit("[height<=");
    reveal_strlit("]");
    reveal_strlit("bestvideo");
    reveal_strlit("[ext=mp4]+bestaudio[ext=m4a]/bestvideo");
    reveal_strlit("+bestaudio/best");
    reveal_strlit("[ext=mp4]/best");
    reveal_strlit("/best");
    reveal_strlit("best");
    reveal_strlit("[ext=mp4]");
    reveal_strlit("+bestaudio");
    reveal_strlit("[ext=mp4]+bestaudio[ext=m4a]");
    let first = "bestvideo"@ + bound + "[ext=mp4]+bestaudio[ext=m4a]"@;
    let second = "bestvideo"@ + bound + "+bestaudio"@;
    let third = "best"@ + bound + "[ext=mp4]"@;
    let fourth = "best"@ + bound;
    let fifth = "best"@;
    law_decimal_is_digits(height);
    assert forall|i: int| 0 <= i < bound.len() implies bound[i] != '/' by {
        let digits = decimal(height);
        if 9 <= i < 9 + digits.len() {
            assert(digits.contains(digits[i - 9]));
        }
    }
    lemma_no_slash(first);
    lemma_no_slash(second);
    lemma_no_slash(third);
    lemma_no_slash(fourth);
    lemma_no_slash(fifth);
    let tail4 = fourth + seq!['/'] + fifth;
    let tail3 = third + seq!['/'] + tail4;
    let tail2 = second + seq!['/'] + tail3;
    let whole = first + seq!['/'] + tail2;
    assert(kind.format_list()[1] =~= whole);
    law_pieces_come_apart(first, tail2, '/');
    law_pieces_come_apart(second, tail3, '/');
    law_pieces_come_apart(third, tail4, '/');
    law_pieces_come_apart(fourth, fifth, '/');
    law_pieces_come_apart(fifth, fifth, '/');
    let ways = pieces(whole, '/');
    assert(ways =~= seq![first, second, third, fourth, fifth]);
    let after = ("bestvideo"@ + bound).len() as int;
    assert(first.subrange(after + 9, after + 9 + "+bestaudio"@.len()) =~= "+bestaudio"@);
    assert(occurs_at(first, "+bestaudio"@, after + 9));
    assert(second.subrange(after, after + "+bestaudio"@.len()) =~= "+bestaudio"@);
    assert(occurs_at(second, "+bestaudio"@, after));
    assert(has_prefix(third, "bestvideo"@) ==> third.take(9)[4] == 'v' && third[4] == '[');
    assert(has_prefix(fourth, "bestvideo"@) ==> fourth.take(9)[4] == 'v' && fourth[4] == '[');
}

/// The kinds that promise no height ask for what fits one file: audio alone as such, a post on X
/// with all its parts in one, and everything else as it is.
pub proof fn law_other_formats(kind: DownloadKind)
    requires
        promised_height(kind) is None,
    ensures
        kind is YouTubeAudio ==> kind.format_list() == seq!["-x"@, "--audio-format"@, "mp3"@],
        kind is XVideo ==> kind.format_list() == seq![
            "-f"@,
            "best[ext=mp4][height<=720]/best[height<=720]/mp4"@,
            "--concat-playlist"@,
            "always"@,
        ],
        !(kind is YouTubeAudio || kind is XVideo) ==> kind.format_list() == seq![
            "-f"@,
            "b[ext=mp4]"@,
        ],
{
}

/// Whether the name of a kind says that it is on YouTube.
pub open spec fn named_for_youtube(kind: DownloadKind) -> bool {
    kind is YouTubeShort || kind is YouTubeAudio || promised_height(kind) is Some
}

/// What a kind shows, writes and embeds goes by where it is and by whether it is audio alone.
pub proof fn law_kinds_are_consistent(kind: DownloadKind)
    ensures
        kind.on_youtube() <==> named_for_youtube(kind),
        kind.max_height() == promised_height(kind),
        kind.extension() == if kind is YouTubeAudio {
            "mp3"@
        } else {
            "mp4"@
        },
        kind.sending_text() == if kind is YouTubeAudio {
            "Sending audio..."@
        } else {
            "Sending video..."@
        },
        kind.metadata_list() == if named_for_youtube(kind) {
            seq!["--embed-metadata"@, "--parse-metadata"@, "channel:artist"@]
        } else {
            Seq::empty()
        },
        kind is YouTubeShort || promised_height(kind) is Some ==> kind.downloading_text()
            == "Downloading video..."@,
        kind is YouTubeAudio ==> kind.downloading_text() == "Downloading audio..."@,
        kind is XVideo ==> kind.downloading_text() == "Downloading X video..."@,
        kind is InstagramReel ==> kind.downloading_text() == "Downloading reel..."@,
        kind is InstagramProfile ==> kind.downloading_text() == "Scrolling profile Reels..."@,
{
}

/// No two kinds have one name in the log.
pub proof fn law_log_names_are_distinct(a: DownloadKind, b: DownloadKind)
    requires
        a.log_name() == b.log_name(),
    ensures
        a == b,
{
    reveal_strlit("instagram");
    reveal_strlit("instagram_profile");
    reveal_strlit("x");
    reveal_strlit("youtube_shorts");
    reveal_strlit("youtube_video");
    reveal_strlit("youtube_video_480");
    reveal_strlit("youtube_video_720");
    reveal_strlit("youtube_video_1024");
    reveal_strlit("youtube_video_1440");
    reveal_strlit("youtube_video_2160");
    reveal_strlit("youtube");
    assert("youtube_video_480"@[14] == '4' && "youtube_video_720"@[14] == '7');
    assert("youtube_video_1024"@[14] == '1' && "youtube_video_1440"@[14] == '1'
        && "youtube_video_2160"@[14] == '2');
    assert("youtube_video_1024"@[15] == '0' && "youtube_video_1440"@[15] == '4');
    assert("instagram_profile"@[0] == 'i' && "youtube_video_480"@[0] == 'y'
        && "youtube_video_720"@[0] == 'y');
    let x = a.log_name();
    let y = b.log_name();
    assert(x.len() == y.len() && x[0] == y[0] && x[14] == y[14] && x[15] == y[15]);
}

/// What stands in for a title, and what is asked for as a caption, go by whether a kind is audio
/// alone; only audio has a caption, its channel. A video of a promised height is one on YouTube.
pub proof fn law_words_go_by_audio(
    kind: DownloadKind,
    title: &'static str,
    field: Option<&'static str>,
    inline: bool,
    youtube: bool,
    video: bool,
)
    requires
        call_ensures(DownloadKind::title_fallback, (kind,), title),
        call_ensures(DownloadKind::caption_field, (kind,), field),
        call_ensures(DownloadKind::is_inline_video, (kind,), inline),
        call_ensures(DownloadKind::is_youtube, (kind,), youtube),
        call_ensures(DownloadKind::is_youtube_video, (kind,), video),
    ensures
        inline <==> kind != DownloadKind::YouTubeAudio,
        inline ==> title@ == "video"@ && field is None,
        !inline ==> title@ == "audio"@ && (field matches Some(name) && name@ == "channel"@),
        youtube <==> named_for_youtube(kind),
        video <==> promised_height(kind) is Some,
        video ==> youtube,
{
}

/// The name of a kind in the log begins with its site, and ends with its height where one was
/// chosen.
pub proof fn law_log_names_tell_the_kind(kind: DownloadKind)
    ensures
        promised_height(kind) is Some && !(kind is YouTubeVideo) ==> kind.log_name()
            == "youtube_video_"@ + decimal(promised_height(kind)->0),
        kind is YouTubeVideo ==> kind.log_name() == "youtube_video"@,
        kind is YouTubeShort ==> kind.log_name() == "youtube_shorts"@,
        kind is YouTubeAudio ==> kind.log_name() == "youtube"@,
        kind is InstagramReel ==> kind.log_name() == "instagram"@,
        kind is InstagramProfile ==> kind.log_name() == "instagram_profile"@,
        kind is XVideo ==> kind.log_name() == "x"@,
{
    reveal_strlit("youtube_video_");
    reveal_strlit("youtube_video_480");
    reveal_strlit("youtube_video_720");
    reveal_strlit("youtube_video_1024");
    reveal_strlit("youtube_video_1440");
    reveal_strlit("youtube_video_2160");
    reveal_with_fuel(decimal, 5);
    assert("youtube_video_480"@ =~= "youtube_video_"@ + decimal(480));
    assert("youtube_video_720"@ =~= "youtube_video_"@ + decimal(720));
    assert("youtube_video_1024"@ =~= "youtube_video_"@ + decimal(1024));
    assert("youtube_video_1440"@ =~= "youtube_video_"@ + decimal(1440));
    assert("youtube_video_2160"@ =~= "youtube_video_"@ + decimal(2160));
}

/// What a kind is asked for, named and shown with is what the laws of kinds say.
pub proof fn law_kind_functions(
    kind: DownloadKind,
    format: &'static [&'static str],
    metadata: &'static [&'static str],
    name: &'static str,
    extension: &'static str,
    downloading: &'static str,
    sending: &'static str,
)
    requires
        call_ensures(DownloadKind::format_args, (kind,), format),
        call_ensures(DownloadKind::metadata_args, (kind,), metadata),
        call_ensures(DownloadKind::log_kind, (kind,), name),
        call_ensures(DownloadKind::output_extension, (kind,), extension),
        call_ensures(DownloadKind::downloading_message, (kind,), downloading),
        call_ensures(DownloadKind::sending_message, (kind,), sending),
    ensures
        promised_height(kind) is Some ==> {
            let bound = "[height<="@ + decimal(promised_height(kind)->0) + "]"@;
            let ways = pieces(format.deep_view()[1], '/');
            &&& format.deep_view().len() == 4
            &&& ways.len() == 5
            &&& ways[0] == "bestvideo"@ + bound + "[ext=mp4]+bestaudio[ext=m4a]"@
            &&& ways[1] == "bestvideo"@ + bound + "+bestaudio"@
            &&& ways[2] == "best"@ + bound + "[ext=mp4]"@
            &&& ways[3] == "best"@ + bound
            &&& ways[4] == "best"@
        },
        format.deep_view() == kind.format_list(),
        metadata.deep_view().len() == if named_for_youtube(kind) {
            3int
        } else {
            0int
        },
        name@ == kind.log_name(),
        extension@ == if kind is YouTubeAudio {
            "mp3"@
        } else {
            "mp4"@
        },
        downloading@ == kind.downloading_text(),
        sending@ == if kind is YouTubeAudio {
            "Sending audio..."@
        } else {
            "Sending video..."@
        },
{
    if promised_height(kind) is Some {
        law_video_comes_with_sound(kind);
    }
}

}
