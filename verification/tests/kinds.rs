use fetcher_bot::kind::DownloadKind;

const ALL: [DownloadKind; 11] = [
    DownloadKind::InstagramReel,
    DownloadKind::InstagramProfile,
    DownloadKind::XVideo,
    DownloadKind::YouTubeShort,
    DownloadKind::YouTubeVideo,
    DownloadKind::YouTubeVideo480,
    DownloadKind::YouTubeVideo720,
    DownloadKind::YouTubeVideo1024,
    DownloadKind::YouTubeVideo1440,
    DownloadKind::YouTubeVideo2160,
    DownloadKind::YouTubeAudio,
];

#[test]
fn x_video_download_args_concat_playlist_entries() {
    assert_eq!(
        DownloadKind::XVideo.format_args(),
        &[
            "-f",
            "best[ext=mp4][height<=720]/best[height<=720]/mp4",
            "--concat-playlist",
            "always"
        ]
    );
}

#[test]
fn instagram_download_args_request_premerged_mp4_without_warning() {
    assert_eq!(
        DownloadKind::InstagramReel.format_args(),
        &["-f", "b[ext=mp4]"]
    );
}

#[test]
fn youtube_video_download_args_prefer_1024p_or_best_available() {
    assert_eq!(
        DownloadKind::YouTubeVideo.format_args(),
        &[
            "-f",
            "bestvideo[height<=1024][ext=mp4]+bestaudio[ext=m4a]/bestvideo[height<=1024]+bestaudio/best[height<=1024][ext=mp4]/best[height<=1024]/best",
            "--merge-output-format",
            "mp4"
        ]
    );
}

#[test]
fn youtube_download_args_embed_channel_as_artist_metadata() {
    assert_eq!(
        DownloadKind::YouTubeVideo.metadata_args(),
        &["--embed-metadata", "--parse-metadata", "channel:artist"]
    );
    assert_eq!(
        DownloadKind::YouTubeAudio.metadata_args(),
        &["--embed-metadata", "--parse-metadata", "channel:artist"]
    );
    assert!(DownloadKind::InstagramReel.metadata_args().is_empty());
    assert!(DownloadKind::XVideo.metadata_args().is_empty());
}

#[test]
fn youtube_audio_uses_channel_as_audio_caption() {
    assert_eq!(DownloadKind::YouTubeAudio.caption_field(), Some("channel"));
    assert_eq!(DownloadKind::YouTubeVideo.caption_field(), None);
    assert_eq!(DownloadKind::InstagramReel.caption_field(), None);
}

#[test]
fn youtube_quality_download_args_use_selected_height() {
    assert!(DownloadKind::YouTubeVideo480.format_args()[1].contains("height<=480"));
    assert!(DownloadKind::YouTubeVideo720.format_args()[1].contains("height<=720"));
    assert_eq!(
        DownloadKind::YouTubeVideo1024.format_args(),
        DownloadKind::YouTubeVideo.format_args()
    );
    assert!(DownloadKind::YouTubeVideo1440.format_args()[1].contains("height<=1440"));
    assert!(DownloadKind::YouTubeVideo2160.format_args()[1].contains("height<=2160"));
}

#[test]
fn audio_alone_is_no_video() {
    for kind in ALL {
        let audio = kind == DownloadKind::YouTubeAudio;
        assert_eq!(kind.is_inline_video(), !audio);
        assert_eq!(kind.output_extension(), if audio { "mp3" } else { "mp4" });
        assert_eq!(kind.title_fallback(), if audio { "audio" } else { "video" });
        assert_eq!(
            kind.sending_message(),
            if audio { "Sending audio..." } else { "Sending video..." }
        );
    }
    assert_eq!(
        DownloadKind::YouTubeAudio.format_args(),
        &["-x", "--audio-format", "mp3"]
    );
}

#[test]
fn only_videos_of_some_height_count_as_youtube_videos() {
    let videos: Vec<DownloadKind> =
        ALL.into_iter().filter(|kind| kind.is_youtube_video()).collect();
    assert_eq!(
        videos,
        vec![
            DownloadKind::YouTubeVideo,
            DownloadKind::YouTubeVideo480,
            DownloadKind::YouTubeVideo720,
            DownloadKind::YouTubeVideo1024,
            DownloadKind::YouTubeVideo1440,
            DownloadKind::YouTubeVideo2160,
        ]
    );
    assert!(DownloadKind::YouTubeShort.is_youtube());
    assert!(!DownloadKind::InstagramProfile.is_youtube());
}

#[test]
fn kinds_have_their_names_and_messages() {
    let names: Vec<&str> = ALL.into_iter().map(|kind| kind.log_kind()).collect();
    assert_eq!(
        names,
        vec![
            "instagram",
            "instagram_profile",
            "x",
            "youtube_shorts",
            "youtube_video",
            "youtube_video_480",
            "youtube_video_720",
            "youtube_video_1024",
            "youtube_video_1440",
            "youtube_video_2160",
            "youtube",
        ]
    );
    assert_eq!(DownloadKind::InstagramReel.downloading_message(), "Downloading reel...");
    assert_eq!(
        DownloadKind::InstagramProfile.downloading_message(),
        "Scrolling profile Reels..."
    );
    assert_eq!(DownloadKind::XVideo.downloading_message(), "Downloading X video...");
    assert_eq!(DownloadKind::YouTubeShort.downloading_message(), "Downloading video...");
    assert_eq!(DownloadKind::YouTubeAudio.downloading_message(), "Downloading audio...");
}
