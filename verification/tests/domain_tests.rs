use stream_pulse::datastore::{plan_bulk_insert, FailedInsert, InsertFailReason};
use stream_pulse::domain::{timestamp_of, Stream};
use stream_pulse::error::{Error, ErrorKind};
use stream_pulse::llm::openai::{
    completions_url, is_success, summary_of, transcriptions_url, CompletionChoice,
    CompletionMessage, CompletionResponse,
};
use stream_pulse::processor::builder::{ChunkingConfig, LiveStreamProcessorBuilder};
use stream_pulse::text::{file_stem_of, trim};

const NOW: i64 = 1_700_000_000;

fn stream(id: &str, streamed: &str) -> Stream {
    Stream {
        video_id: id.to_string(),
        title: format!("title of {}", id),
        view_count: "10 views".to_string(),
        streamed_date: streamed.to_string(),
        duration: "1:00:00".to_string(),
        summary_md: None,
        timestamp_md: None,
    }
}

#[test]
fn relative_time_of_each_unit() {
    assert_eq!(timestamp_of("30 seconds ago", NOW), Some(NOW - 30));
    assert_eq!(timestamp_of("1 second ago", NOW), Some(NOW - 1));
    assert_eq!(timestamp_of("5 minutes ago", NOW), Some(NOW - 300));
    assert_eq!(timestamp_of("1 hour ago", NOW), Some(NOW - 3600));
    assert_eq!(timestamp_of("3 days ago", NOW), Some(NOW - 259_200));
    assert_eq!(timestamp_of("2 weeks ago", NOW), Some(NOW - 1_209_600));
    assert_eq!(timestamp_of("1 month ago", NOW), Some(NOW - 2_592_000));
    assert_eq!(timestamp_of("11 months ago", NOW), Some(NOW - 28_512_000));
    assert_eq!(timestamp_of("2 years ago", NOW), Some(NOW - 63_072_000));
    assert_eq!(timestamp_of("Streamed 3 days ago", NOW), Some(NOW - 259_200));
    assert_eq!(timestamp_of("0 days ago", NOW), Some(NOW));
}

#[test]
fn relative_time_that_cannot_be_read() {
    assert_eq!(timestamp_of("", NOW), None);
    assert_eq!(timestamp_of("yesterday", NOW), None);
    assert_eq!(timestamp_of("3 days", NOW), None);
    assert_eq!(timestamp_of("three days ago", NOW), None);
    assert_eq!(timestamp_of("3  days ago", NOW), None);
    assert_eq!(timestamp_of("3 fortnights ago", NOW), None);
    assert_eq!(timestamp_of("3 days ago ", NOW), None);
    assert_eq!(timestamp_of("streamed 3 days ago", NOW), None);
    assert_eq!(timestamp_of("Premiered 3 days ago", NOW), None);
    assert_eq!(timestamp_of("-3 days ago", NOW), None);
}

#[test]
fn relative_time_beyond_the_earliest_point() {
    assert_eq!(timestamp_of("9223372036854775807 seconds ago", 0), Some(-i64::MAX));
    assert_eq!(timestamp_of("9223372036854775808 seconds ago", 0), Some(i64::MIN));
    assert_eq!(timestamp_of("9223372036854775809 seconds ago", 0), None);
    assert_eq!(timestamp_of("18446744073709551615 seconds ago", i64::MAX), Some(i64::MIN));
    assert_eq!(timestamp_of("18446744073709551616 seconds ago", i64::MAX), None);
    assert_eq!(timestamp_of("99999999999999999999999 years ago", NOW), None);
    assert_eq!(timestamp_of("292471208678 years ago", 0), None);
    assert_eq!(stream("a", "1 day ago").timestamp_from_time_ago(NOW), Some(NOW - 86_400));
}

#[test]
fn bulk_insert_parts_dated_from_undated() {
    let streams = vec![
        stream("a", "1 day ago"),
        stream("b", "who knows"),
        stream("c", "2 hours ago"),
        stream("d", ""),
    ];
    let plan = plan_bulk_insert(&streams, NOW);
    assert_eq!(plan.rows.len(), 2);
    assert_eq!(plan.rows[0].video_id, "a");
    assert_eq!(plan.rows[0].stream_timestamp, NOW - 86_400);
    assert_eq!(plan.rows[0].title, "title of a");
    assert_eq!(plan.rows[1].video_id, "c");
    assert_eq!(plan.rows[1].stream_timestamp, NOW - 7200);
    assert_eq!(
        plan.failed_inserts,
        vec![
            FailedInsert {
                video_id: "b".to_string(),
                reason: InsertFailReason::InvalidStreamedDate {
                    malformed_date: "who knows".to_string()
                },
            },
            FailedInsert {
                video_id: "d".to_string(),
                reason: InsertFailReason::InvalidStreamedDate { malformed_date: String::new() },
            },
        ]
    );
    let columns = plan.columns();
    assert_eq!(columns.video_ids, vec!["a".to_string(), "c".to_string()]);
    assert_eq!(columns.stream_timestamps, vec![NOW - 86_400, NOW - 7200]);
    assert_eq!(columns.summaries, vec![None, None]);
    assert_eq!(columns.durations.len(), 2);
    let result = plan.finish(2);
    assert_eq!(result.successful_inserts, 2);
    assert_eq!(result.failed_inserts.len(), 2);
}

#[test]
fn summary_is_the_first_choice() {
    let choice = |text: Option<&str>| CompletionChoice {
        index: 0,
        message: CompletionMessage {
            role: "assistant".to_string(),
            content: text.map(|t| t.to_string()),
        },
        finish_reason: "stop".to_string(),
    };
    let response = CompletionResponse {
        id: "1".to_string(),
        choices: vec![choice(Some("first")), choice(Some("second"))],
    };
    assert_eq!(summary_of(&response).unwrap().summary, "first");
    let empty = CompletionResponse { id: "2".to_string(), choices: vec![] };
    assert_eq!(
        summary_of(&empty),
        Err(Error::SummarizationError("No content in response".to_string()))
    );
    let silent = CompletionResponse {
        id: "3".to_string(),
        choices: vec![choice(None), choice(Some("second"))],
    };
    assert!(matches!(summary_of(&silent), Err(Error::SummarizationError(_))));
}

#[test]
fn backend_addresses_and_statuses() {
    assert_eq!(transcriptions_url("http://h/v1"), "http://h/v1/audio/transcriptions");
    assert_eq!(completions_url("http://h/v1"), "http://h/v1/chat/completions");
    assert!(is_success(200));
    assert!(is_success(299));
    assert!(!is_success(300));
    assert!(!is_success(199));
    assert!(!is_success(404));
}

#[test]
fn error_says_its_stage_and_text() {
    let e = Error::StorageError("Connection refused".to_string());
    assert_eq!(e.message(), "storage: Connection refused");
    assert_eq!(e.error_kind(), ErrorKind::Storage);
    assert_eq!(e.stage_name(), "storage");
    assert_eq!(e.detail_text(), "Connection refused");
    assert_eq!(Error::parse("x").message(), "parse: x");
    assert_eq!(Error::parse_field("a: ", "b"), Error::ParseError("a: b".to_string()));
    assert_eq!(
        Error::of_kind(ErrorKind::Cleanup, "m".to_string()),
        Error::CleanupError("m".to_string())
    );
    assert_eq!(e.clone(), e);
}

#[test]
fn builder_keeps_what_it_is_given() {
    let processor = LiveStreamProcessorBuilder::new("/tmp/work")
        .store(1u8)
        .transcriber("t")
        .summarizer(3u32)
        .audio_handler(4u64)
        .channel_scraper('c')
        .max_streams(7)
        .with_chunking(900)
        .build();
    assert_eq!(processor.workdir, "/tmp/work");
    assert_eq!(processor.store, 1u8);
    assert_eq!(processor.transcriber, "t");
    assert_eq!(processor.summarizer, 3u32);
    assert_eq!(processor.audio_handler, 4u64);
    assert_eq!(processor.channel_scraper, 'c');
    assert_eq!(processor.max_streams, 7);
    assert_eq!(processor.chunking_config, Some(ChunkingConfig { chunk_duration_seconds: 900 }));
    let plain = LiveStreamProcessorBuilder::new("w").build();
    assert_eq!(plain.max_streams, 5);
    assert_eq!(plain.chunking_config, None);
}

#[test]
fn trim_takes_white_space_from_both_ends() {
    assert_eq!(trim("  a b \n"), "a b");
    assert_eq!(trim("\u{3000}x\u{a0}"), "x");
    assert_eq!(trim(" \t\r\n"), "");
    assert_eq!(trim(""), "");
    assert_eq!(trim("é"), "é");
    for text in ["  a b \n", "\u{2003}x\u{205f}", "\u{1680}\u{85}z\u{2028}\u{2029}\u{202f}", "x\u{200b}"] {
        assert_eq!(trim(text), text.trim());
    }
}

#[test]
fn file_stem_is_the_name_without_its_extension() {
    assert_eq!(file_stem_of("/w/audio/abc_trimmed.mp3"), Some("abc_trimmed".to_string()));
    assert_eq!(file_stem_of("abc.tar.gz"), Some("abc.tar".to_string()));
    assert_eq!(file_stem_of("dir.d/name"), Some("name".to_string()));
    assert_eq!(file_stem_of("/w/.hidden"), Some(".hidden".to_string()));
    assert_eq!(file_stem_of("/w/é.mp3"), Some("é".to_string()));
    assert_eq!(file_stem_of("/w/audio/"), None);
    assert_eq!(file_stem_of(""), None);
}
