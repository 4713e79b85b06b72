use fetcher_bot::concat::{
    concat_input_args, concat_list, concat_output_args, last_line, ConcatJob, ConcatReply,
    ConcatStep,
};
use fetcher_bot::kind::DownloadKind;
use fetcher_bot::media::{media_file_name, media_file_with, MediaJob, MediaReply, MediaStep};
use fetcher_bot::profile::{
    reel_file_name, reel_file_names, ProfileJob, ProfileReply, ProfileStep, REELS_FILE,
};

// One link

fn media_result(job: &MediaJob) -> &Result<(), String> {
    match &job.step {
        MediaStep::Finish(result) => result,
        other => panic!("not finished: {other:?}"),
    }
}

#[test]
fn a_video_is_fetched_sent_and_cleaned_up() {
    let job = MediaJob::new(DownloadKind::XVideo);
    assert!(matches!(job.step, MediaStep::FetchTitle { field: "title" }));
    let job = job.advance(MediaReply::Field(Some("My title".into())));
    assert!(matches!(job.step, MediaStep::Download));
    let job = job.advance(MediaReply::Done);
    assert!(matches!(job.step, MediaStep::ShowSending { text: "Sending video..." }));
    let job = job.advance(MediaReply::Failed("ignored".into()));
    assert!(matches!(&job.step, MediaStep::SendVideo { title } if title == "My title"));
    let job = job.advance(MediaReply::Done);
    assert!(matches!(job.step, MediaStep::RemoveFile));
    let job = job.advance(MediaReply::Failed("ignored".into()));
    assert!(matches!(job.step, MediaStep::DeleteStatus));
    let job = job.advance(MediaReply::Failed("ignored".into()));
    assert_eq!(media_result(&job), &Ok(()));
}

#[test]
fn audio_is_sent_with_its_channel() {
    let job = MediaJob::new(DownloadKind::YouTubeAudio).advance(MediaReply::Field(None));
    assert!(matches!(job.step, MediaStep::FetchCaption { field: "channel" }));
    let job = job
        .advance(MediaReply::Field(Some("Channel".into())))
        .advance(MediaReply::Done)
        .advance(MediaReply::Done);
    match job.step {
        MediaStep::SendAudio { title, channel } => {
            assert_eq!(title, "audio");
            assert_eq!(channel.as_deref(), Some("Channel"));
        }
        other => panic!("no audio: {other:?}"),
    }
}

#[test]
fn a_download_that_fails_leaves_the_status_and_no_file() {
    let job = MediaJob::new(DownloadKind::YouTubeVideo)
        .advance(MediaReply::Field(None))
        .advance(MediaReply::Failed("broken".into()));
    assert!(matches!(job.step, MediaStep::RemoveFile));
    let job = job.advance(MediaReply::Done);
    assert_eq!(media_result(&job), &Err("broken".to_string()));

    let job = MediaJob::new(DownloadKind::YouTubeVideo)
        .advance(MediaReply::Field(None))
        .advance(MediaReply::Done)
        .advance(MediaReply::Done);
    assert!(matches!(&job.step, MediaStep::SendVideo { title } if title == "video"));
    let job = job.advance(MediaReply::Failed("refused".into()));
    assert!(matches!(job.step, MediaStep::RemoveFile));
    let job = job.advance(MediaReply::Done);
    assert_eq!(media_result(&job), &Err("refused".to_string()));
}

#[test]
fn a_profile_has_a_way_of_its_own() {
    let job = MediaJob::new(DownloadKind::InstagramProfile);
    assert!(matches!(job.step, MediaStep::RunProfile));
    let job = job.advance(MediaReply::Done);
    assert!(matches!(job.step, MediaStep::DeleteStatus));
    let job = job.advance(MediaReply::Done);
    assert_eq!(media_result(&job), &Ok(()));

    let job = MediaJob::new(DownloadKind::InstagramProfile)
        .advance(MediaReply::Failed("private".into()));
    assert_eq!(media_result(&job), &Err("private".to_string()));
}

#[test]
fn files_have_random_names_and_the_right_extension() {
    assert_eq!(media_file_with("id", DownloadKind::YouTubeAudio), "id.mp3");
    assert_eq!(media_file_with("id", DownloadKind::XVideo), "id.mp4");
    let name = media_file_name(DownloadKind::YouTubeAudio);
    assert_eq!(name.len(), 40);
    assert!(name.ends_with(".mp3"));
    assert_ne!(name, media_file_name(DownloadKind::YouTubeAudio));
}

// Profiles

fn profile_result(job: &ProfileJob) -> &Result<(), String> {
    match &job.step {
        ProfileStep::Finish(result) => result,
        other => panic!("not finished: {other:?}"),
    }
}

fn gathering() -> ProfileJob {
    let job = ProfileJob::new("https://www.instagram.com/some.name/");
    let job = job.advance(ProfileReply::Done).advance(ProfileReply::Done);
    assert!(matches!(&job.step, ProfileStep::Gather { username } if username == "some.name"));
    job
}

#[test]
fn the_reels_of_a_profile_become_one_video() {
    assert_eq!(REELS_FILE, "reels.mp4");
    let job = ProfileJob::with_username(Some("name"), "id");
    assert!(
        matches!(&job.step, ProfileStep::CreateDir { name } if name == "instagram-profile-id")
    );
    let job = job.advance(ProfileReply::Done);
    assert!(matches!(
        &job.step,
        ProfileStep::ShowScrolling { text } if text == "Scrolling profile Reels..."
    ));
    let job = job.advance(ProfileReply::Failed("ignored".into()));
    let urls = vec!["first".to_string(), "second".to_string()];
    let mut job = job.advance(ProfileReply::Gathered(urls));
    for (place, link) in ["first", "second"].into_iter().enumerate() {
        match &job.step {
            ProfileStep::ShowDownloading { index, text } => {
                assert_eq!(*index, place);
                assert_eq!(text, &format!("Downloading Reel {}/2...", place + 1));
            }
            other => panic!("no Reel: {other:?}"),
        }
        job = job.advance(ProfileReply::Done);
        match &job.step {
            ProfileStep::Download { index, url, file, kind } => {
                assert_eq!(*kind, DownloadKind::InstagramReel);
                assert_eq!(*index, place);
                assert_eq!(url, link);
                assert_eq!(file, &format!("{place:05}.mp4"));
            }
            other => panic!("no Reel: {other:?}"),
        }
        job = job.advance(ProfileReply::Done);
    }
    assert!(matches!(
        &job.step,
        ProfileStep::ShowConcatenating { text } if text == "Concatenating 2 Reels..."
    ));
    let job = job.advance(ProfileReply::Done);
    match &job.step {
        ProfileStep::Concatenate { files, output } => {
            assert_eq!(files, &vec!["00000.mp4", "00001.mp4"]);
            assert_eq!(*output, REELS_FILE);
        }
        other => panic!("not joined: {other:?}"),
    }
    let job = job.advance(ProfileReply::Done);
    assert!(
        matches!(&job.step, ProfileStep::ShowSending { text } if text == "Sending video...")
    );
    let job = job.advance(ProfileReply::Done);
    assert!(matches!(
        &job.step,
        ProfileStep::Send { output: REELS_FILE, title, kind: DownloadKind::InstagramProfile }
            if title == "name reels"
    ));
    let job = job.advance(ProfileReply::Done);
    assert!(matches!(job.step, ProfileStep::RemoveDir));
    let job = job.advance(ProfileReply::Failed("ignored".into()));
    assert_eq!(profile_result(&job), &Ok(()));
}

#[test]
fn a_profile_that_fails_removes_its_directory() {
    let one = || ProfileReply::Gathered(vec!["u".to_string()]);
    let stages: Vec<ProfileJob> = vec![
        gathering(),
        gathering().advance(one()).advance(ProfileReply::Done),
        gathering()
            .advance(one())
            .advance(ProfileReply::Done)
            .advance(ProfileReply::Done)
            .advance(ProfileReply::Done),
        gathering()
            .advance(one())
            .advance(ProfileReply::Done)
            .advance(ProfileReply::Done)
            .advance(ProfileReply::Done)
            .advance(ProfileReply::Done)
            .advance(ProfileReply::Done),
    ];
    for job in stages {
        let job = job.advance(ProfileReply::Failed("broken".into()));
        assert!(matches!(job.step, ProfileStep::RemoveDir));
        let job = job.advance(ProfileReply::Done);
        assert_eq!(profile_result(&job), &Err("broken".to_string()));
    }
}

#[test]
fn a_profile_needs_a_name_and_a_directory() {
    let job = ProfileJob::new("https://example.com/");
    assert_eq!(
        profile_result(&job),
        &Err("Cannot determine the Instagram username".to_string())
    );
    let job = ProfileJob::new("https://www.instagram.com/name");
    match &job.step {
        ProfileStep::CreateDir { name } => {
            assert!(name.starts_with("instagram-profile-"));
            assert_eq!(name.len(), 54);
        }
        other => panic!("no directory: {other:?}"),
    }
    let job = job.advance(ProfileReply::Failed("full".into()));
    assert_eq!(
        profile_result(&job),
        &Err("Cannot create temporary directory: full".to_string())
    );
}

#[test]
fn files_of_reels_are_numbered() {
    assert_eq!(reel_file_name(0), "00000.mp4");
    assert_eq!(reel_file_name(42), "00042.mp4");
    assert_eq!(reel_file_name(99_999), "99999.mp4");
    assert_eq!(reel_file_name(100_000), "100000.mp4");
    assert_eq!(reel_file_names(3), vec!["00000.mp4", "00001.mp4", "00002.mp4"]);
    assert!(reel_file_names(0).is_empty());
}

// Joining

fn concat_result(job: &ConcatJob) -> &Result<(), String> {
    match &job.step {
        ConcatStep::Finish(result) => result,
        other => panic!("not finished: {other:?}"),
    }
}

#[test]
fn one_video_alone_is_copied() {
    let job = ConcatJob::new(1);
    assert!(matches!(job.step, ConcatStep::Copy));
    assert_eq!(concat_result(&job.advance(ConcatReply::Done)), &Ok(()));
    let job = ConcatJob::new(1).advance(ConcatReply::Failed("e".into()));
    assert_eq!(concat_result(&job), &Err("Cannot copy the downloaded Reel: e".to_string()));
}

#[test]
fn several_videos_are_joined_by_a_list() {
    for count in [0, 2, 3] {
        let job = ConcatJob::new(count);
        assert!(matches!(job.step, ConcatStep::WriteList));
        let job = job.advance(ConcatReply::Done);
        assert!(matches!(job.step, ConcatStep::RunFfmpeg));
        let job = job.advance(ConcatReply::Done);
        assert!(matches!(job.step, ConcatStep::RemoveList));
        assert_eq!(concat_result(&job.advance(ConcatReply::Done)), &Ok(()));
    }
    let paths = vec!["/t/00000.mp4".to_string(), "/t/00001.mp4".to_string()];
    assert_eq!(concat_list(&paths), "file '/t/00000.mp4'\nfile '/t/00001.mp4'\n");
    assert_eq!(concat_list(&Vec::new()), "");
    assert_eq!(concat_input_args(), vec!["-y", "-f", "concat", "-safe", "0", "-i"]);
    assert_eq!(concat_output_args(), vec!["-c", "copy", "-movflags", "+faststart"]);
}

#[test]
fn joining_fails_in_words_and_removes_the_list() {
    let job = ConcatJob::new(2).advance(ConcatReply::Failed("e".into()));
    assert_eq!(concat_result(&job), &Err("Cannot create ffmpeg concat list: e".to_string()));

    let replies = [
        (ConcatReply::Failed("e".into()), "Failed to run ffmpeg: e"),
        (ConcatReply::Rejected(b"one\r\ntwo\n".to_vec()), "ffmpeg concat failed: two"),
        (ConcatReply::Rejected(b"bad \xff".to_vec()), "ffmpeg concat failed: bad \u{fffd}"),
        (
            ConcatReply::Rejected(Vec::new()),
            "ffmpeg concat failed: ffmpeg exited with an error",
        ),
    ];
    for (reply, text) in replies {
        let job = ConcatJob::new(2).advance(ConcatReply::Done).advance(reply);
        assert!(matches!(job.step, ConcatStep::RemoveList));
        let job = job.advance(ConcatReply::Failed("ignored".into()));
        assert_eq!(concat_result(&job), &Err(text.to_string()));
    }
}

#[test]
fn the_last_line_is_the_one_that_lines_gives() {
    for text in ["", "\n", "a", "a\n", "a\r\n", "a\n\n", "a\nb\r", "\r\n\r\n", "a\rb", "é\nü"] {
        let expected = text.lines().last().unwrap_or("none");
        assert_eq!(last_line(text, "none"), expected);
    }
}
