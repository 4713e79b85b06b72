use fetcher_bot::kind::DownloadKind;
use fetcher_bot::split::{
    chunk_count, chunk_name, chunk_pattern, new_stem, probe_args, split_args, SplitJob,
    SplitReply, SplitStep,
};
use fetcher_bot::upload::{
    audio_credit, is_request_entity_too_large, part_label, AudioStep, AudioUpload, UploadFailure, UploadReply,
    VideoStep, VideoUpload, MAX_TG_SIZE,
};

#[test]
fn chunk_count_uses_ceiling_without_extra_exact_multiple() {
    assert_eq!(chunk_count(0, MAX_TG_SIZE), 1);
    assert_eq!(chunk_count(1, MAX_TG_SIZE), 1);
    assert_eq!(chunk_count(MAX_TG_SIZE, MAX_TG_SIZE), 1);
    assert_eq!(chunk_count(MAX_TG_SIZE + 1, MAX_TG_SIZE), 2);
    assert_eq!(chunk_count(MAX_TG_SIZE * 2, MAX_TG_SIZE), 2);
}

fn failure_of(error: &teloxide::RequestError) -> UploadFailure {
    match error {
        teloxide::RequestError::Api(teloxide::ApiError::RequestEntityTooLarge) => {
            UploadFailure::RequestEntityTooLarge { text: error.to_string() }
        }
        other => UploadFailure::Other { text: other.to_string() },
    }
}

fn too_large() -> UploadReply {
    UploadReply::Refused(failure_of(&teloxide::RequestError::Api(
        teloxide::ApiError::RequestEntityTooLarge,
    )))
}

fn refused() -> UploadReply {
    UploadReply::Refused(UploadFailure::Other { text: "no chat".into() })
}

#[test]
fn recognizes_request_entity_too_large_for_document_fallback() {
    let too_large = teloxide::RequestError::Api(teloxide::ApiError::RequestEntityTooLarge);
    let other = teloxide::RequestError::Api(teloxide::ApiError::ChatNotFound);

    assert!(is_request_entity_too_large(&failure_of(&too_large)));
    assert!(!is_request_entity_too_large(&failure_of(&other)));
}

#[test]
fn chunks_are_counted_to_the_end_of_the_range() {
    assert_eq!(MAX_TG_SIZE, 51_380_224);
    assert_eq!(chunk_count(u64::MAX, 1), u64::MAX);
    assert_eq!(chunk_count(u64::MAX, u64::MAX), 1);
    assert_eq!(chunk_count(10, 3), 4);
    assert_eq!(chunk_count(9, 3), 3);
    for size in 0..60u64 {
        for max in 1..12u64 {
            assert_eq!(chunk_count(size, max), size.div_ceil(max).max(1));
        }
    }
}

// Video

fn video_result(upload: &VideoUpload) -> &Result<(), String> {
    match &upload.step {
        VideoStep::Finish(result) => result,
        other => panic!("not finished: {other:?}"),
    }
}

#[test]
fn a_small_video_goes_out_whole() {
    let upload = VideoUpload::new("t", DownloadKind::XVideo);
    let upload = upload.advance(UploadReply::Size(MAX_TG_SIZE));
    assert!(matches!(&upload.step, VideoStep::SendVideo { file_name } if file_name == "t.mp4"));
    assert_eq!(video_result(&upload.advance(UploadReply::Done)), &Ok(()));
}

#[test]
fn a_video_refused_for_its_size_goes_out_as_a_document() {
    let small = || {
        VideoUpload::new("t", DownloadKind::XVideo)
            .advance(UploadReply::Size(1))
            .advance(too_large())
    };
    let upload = small();
    assert!(matches!(&upload.step, VideoStep::SendInstead { file_name } if file_name == "t.mp4"));
    assert_eq!(video_result(&upload.advance(UploadReply::Done)), &Ok(()));
    assert_eq!(
        video_result(&small().advance(refused())),
        &Err("Telegram API error sending file: no chat".to_string())
    );
    let upload = VideoUpload::new("t", DownloadKind::XVideo)
        .advance(UploadReply::Size(1))
        .advance(refused());
    assert_eq!(
        video_result(&upload),
        &Err("Telegram API error sending file: no chat".to_string())
    );
}

#[test]
fn a_large_youtube_video_is_tried_as_a_document_first() {
    let large = || {
        VideoUpload::new("t", DownloadKind::YouTubeVideo720)
            .advance(UploadReply::Size(MAX_TG_SIZE + 1))
    };
    assert!(matches!(&large().step, VideoStep::SendLarge { file_name } if file_name == "t.mp4"));
    assert_eq!(video_result(&large().advance(UploadReply::Done)), &Ok(()));
    assert!(matches!(large().advance(too_large()).step, VideoStep::Split { ext: "mp4" }));
    assert_eq!(
        video_result(&large().advance(refused())),
        &Err("Telegram API error sending file: no chat".to_string())
    );
    let short = VideoUpload::new("t", DownloadKind::YouTubeShort)
        .advance(UploadReply::Size(MAX_TG_SIZE + 1));
    assert!(matches!(short.step, VideoStep::Split { ext: "mp4" }));
}

#[test]
fn parts_of_a_video_go_out_in_order() {
    let upload = VideoUpload::new("t", DownloadKind::InstagramReel)
        .advance(UploadReply::Size(MAX_TG_SIZE + 1))
        .advance(UploadReply::Parts(2));
    assert!(matches!(
        &upload.step,
        VideoStep::SendPart { index: 0, file_name } if file_name == "t (part 1).mp4"
    ));
    let upload = upload.advance(too_large());
    assert!(matches!(
        &upload.step,
        VideoStep::SendPartInstead { index: 0, file_name } if file_name == "t (part 1).mp4"
    ));
    let upload = upload.advance(UploadReply::Done);
    assert!(matches!(
        &upload.step,
        VideoStep::SendPart { index: 1, file_name } if file_name == "t (part 2).mp4"
    ));
    let upload = upload.advance(UploadReply::Done);
    assert!(matches!(upload.step, VideoStep::RemoveParts));
    assert_eq!(video_result(&upload.advance(UploadReply::Done)), &Ok(()));
}

#[test]
fn a_part_that_is_refused_is_named() {
    let parts = |count| {
        VideoUpload::new("t", DownloadKind::InstagramReel)
            .advance(UploadReply::Size(u64::MAX))
            .advance(UploadReply::Parts(count))
    };
    assert_eq!(
        video_result(&parts(1).advance(refused())),
        &Err("Telegram API error on chunk 1: no chat".to_string())
    );
    assert_eq!(
        video_result(&parts(3).advance(UploadReply::Done).advance(too_large()).advance(refused())),
        &Err("Telegram API error on chunk 2: no chat".to_string())
    );
    assert!(matches!(
        &parts(1).step,
        VideoStep::SendPart { index: 0, file_name } if file_name == "t.mp4"
    ));
}

#[test]
fn a_video_that_cannot_be_read_or_split_is_an_error() {
    let upload =
        VideoUpload::new("t", DownloadKind::XVideo).advance(UploadReply::Failed("gone".into()));
    assert_eq!(video_result(&upload), &Err("Cannot read downloaded file: gone".to_string()));
    let upload = VideoUpload::new("t", DownloadKind::XVideo)
        .advance(UploadReply::Size(u64::MAX))
        .advance(UploadReply::Failed("no ffmpeg".into()));
    assert_eq!(video_result(&upload), &Err("no ffmpeg".to_string()));
}

// Audio

fn audio_result(upload: &AudioUpload) -> &Result<(), String> {
    match &upload.step {
        AudioStep::Finish(result) => result,
        other => panic!("not finished: {other:?}"),
    }
}

#[test]
fn audio_goes_out_whole_or_in_parts() {
    let upload = AudioUpload::new("t", None).advance(UploadReply::Size(MAX_TG_SIZE));
    assert!(matches!(
        &upload.step,
        AudioStep::SendWhole { file_name, title, .. } if file_name == "t.mp3" && title == "t"
    ));
    assert_eq!(audio_result(&upload.advance(UploadReply::Done)), &Ok(()));

    let upload = AudioUpload::new("t", None)
        .advance(UploadReply::Size(MAX_TG_SIZE + 1))
        .advance(UploadReply::Parts(2));
    assert!(matches!(
        &upload.step,
        AudioStep::SendPart { index: 0, file_name, title, .. }
            if file_name == "t (part 1).mp3" && title == "t (part 1)"
    ));
    let upload = upload.advance(UploadReply::Done);
    assert!(matches!(
        &upload.step,
        AudioStep::SendPart { index: 1, title, .. } if title == "t (part 2)"
    ));
    let upload = upload.advance(UploadReply::Done);
    assert!(matches!(upload.step, AudioStep::RemoveParts));
    assert_eq!(audio_result(&upload.advance(UploadReply::Done)), &Ok(()));
}

#[test]
fn audio_is_credited_to_its_channel() {
    let credit = audio_credit(&Some("c".to_string()));
    assert_eq!(credit.performer.as_deref(), Some("c"));
    assert_eq!(credit.caption.as_deref(), Some("c"));
    for channel in [Some("c"), None] {
        let upload = AudioUpload::new("t", channel).advance(UploadReply::Size(1));
        match &upload.step {
            AudioStep::SendWhole { credit, .. } => {
                assert_eq!(credit.performer.as_deref(), channel);
                assert_eq!(credit.caption.as_deref(), channel);
            }
            other => panic!("not sent: {other:?}"),
        }
        let mut upload = AudioUpload::new("t", channel)
            .advance(UploadReply::Size(u64::MAX))
            .advance(UploadReply::Parts(2));
        for part in 0..2 {
            match &upload.step {
                AudioStep::SendPart { index, credit, .. } => {
                    assert_eq!(*index, part);
                    assert_eq!(credit.performer.as_deref(), channel);
                    assert_eq!(credit.caption.as_deref(), channel);
                }
                other => panic!("not sent: {other:?}"),
            }
            upload = upload.advance(UploadReply::Done);
        }
    }
}

#[test]
fn audio_fails_in_its_own_words() {
    let upload = AudioUpload::new("t", None).advance(UploadReply::Failed("gone".into()));
    assert_eq!(audio_result(&upload), &Err("Cannot read downloaded file: gone".to_string()));
    let upload = AudioUpload::new("t", None).advance(UploadReply::Size(1)).advance(refused());
    assert_eq!(audio_result(&upload), &Err("Telegram API error: no chat".to_string()));
    let large = || AudioUpload::new("t", None).advance(UploadReply::Size(u64::MAX));
    assert!(matches!(large().step, AudioStep::Split { ext: "mp3" }));
    assert_eq!(
        audio_result(&large().advance(UploadReply::Failed("e".into()))),
        &Err("e".to_string())
    );
    let upload =
        large().advance(UploadReply::Parts(2)).advance(UploadReply::Done).advance(refused());
    assert_eq!(
        audio_result(&upload),
        &Err("Telegram API error on chunk 2: no chat".to_string())
    );
    assert_eq!(part_label("t", 9, 10), "t (part 10)");
    assert_eq!(part_label("t", 0, 1), "t");
}

// Splitting

fn split_result(job: &SplitJob) -> &Result<u32, String> {
    match &job.step {
        SplitStep::Finish(result) => result,
        other => panic!("not finished: {other:?}"),
    }
}

fn probed(size: u64) -> SplitJob {
    SplitJob::new()
        .advance(SplitReply::Size(size))
        .advance(SplitReply::Printed(b" 12.5\n".to_vec()))
}

fn checked(parts: u32) -> SplitJob {
    let mut job = probed(1)
        .advance(SplitReply::Seconds("6.25".into()))
        .advance(SplitReply::Exited(true));
    for _ in 0..parts {
        job = job.advance(SplitReply::Found(true));
    }
    job.advance(SplitReply::Found(false))
}

fn size_of(size: u64) -> SplitReply {
    SplitReply::ChunkSize { path: "/t/p".into(), size, megabytes: "50.0".into() }
}

#[test]
fn a_file_is_split_and_its_parts_are_measured() {
    let job = probed(3 * MAX_TG_SIZE - 1);
    assert_eq!(job.chunks, 3);
    assert!(matches!(&job.step, SplitStep::DivideDuration { duration } if duration == "12.5"));
    let job = job.advance(SplitReply::Seconds("4.17".into()));
    assert!(matches!(&job.step, SplitStep::Split { segment_time } if segment_time == "4.17"));
    let job = job.advance(SplitReply::Exited(true));
    assert!(matches!(job.step, SplitStep::CheckChunk { index: 0 }));
    let job = job.advance(SplitReply::Found(true));
    assert!(matches!(job.step, SplitStep::CheckChunk { index: 1 }));

    let job = checked(2);
    assert!(matches!(job.step, SplitStep::ReadChunkSize { index: 0 }));
    let job = job.advance(size_of(MAX_TG_SIZE));
    assert!(matches!(job.step, SplitStep::ReadChunkSize { index: 1 }));
    assert_eq!(split_result(&job.advance(size_of(0))), &Ok(2));
}

#[test]
fn parts_that_are_too_large_are_removed() {
    let job = checked(2).advance(size_of(1)).advance(size_of(MAX_TG_SIZE + 1));
    assert!(matches!(job.step, SplitStep::RemoveChunks));
    assert_eq!(job.found, 2);
    assert_eq!(
        split_result(&job.advance(SplitReply::Done)),
        &Err("Split chunk /t/p is too large (50.0MB)".to_string())
    );
    let job = checked(1).advance(SplitReply::ChunkUnreadable {
        path: "/t/p".into(),
        error: "gone".into(),
    });
    assert!(matches!(job.step, SplitStep::RemoveChunks));
    assert_eq!(
        split_result(&job.advance(SplitReply::Done)),
        &Err("Cannot read split chunk /t/p: gone".to_string())
    );
}

#[test]
fn splitting_fails_in_words() {
    let failed = || SplitReply::Failed("e".into());
    let error = |job: SplitJob| split_result(&job).clone().unwrap_err();
    assert_eq!(error(SplitJob::new().advance(failed())), "Cannot read file: e");
    assert_eq!(
        error(SplitJob::new().advance(SplitReply::Size(1)).advance(failed())),
        "Failed to run ffprobe: e"
    );
    assert_eq!(error(probed(1).advance(failed())), "Failed to parse duration: 12.5");
    let split = || probed(1).advance(SplitReply::Seconds("1.00".into()));
    assert_eq!(error(split().advance(failed())), "Failed to run ffmpeg: e");
    assert_eq!(error(split().advance(SplitReply::Exited(false))), "ffmpeg split failed");
    assert_eq!(error(checked(0)), "No chunks produced by ffmpeg");
}

#[test]
fn parts_have_names_of_one_pattern() {
    assert_eq!(chunk_pattern("s", "mp4"), "s_%03d.mp4");
    assert_eq!(chunk_name("s", 0, "mp4"), "s_000.mp4");
    assert_eq!(chunk_name("s", 12, "mp3"), "s_012.mp3");
    assert_eq!(chunk_name("s", 1234, "mp3"), "s_1234.mp3");
    assert_eq!(chunk_name("s", u32::MAX, "mp3"), "s_4294967295.mp3");
    assert_ne!(new_stem(), new_stem());
}

#[test]
fn ffmpeg_gets_its_arguments() {
    assert_eq!(
        probe_args("/t/f"),
        vec![
            "-v",
            "error",
            "-show_entries",
            "format=duration",
            "-of",
            "default=noprint_wrappers=1:nokey=1",
            "/t/f",
        ]
    );
    assert_eq!(
        split_args("/t/f", "1.50", "/t/s_%03d.mp4"),
        vec![
            "-i",
            "/t/f",
            "-f",
            "segment",
            "-segment_time",
            "1.50",
            "-c",
            "copy",
            "-reset_timestamps",
            "1",
            "/t/s_%03d.mp4",
        ]
    );
}
