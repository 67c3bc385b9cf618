use stream_pulse::error::Error;
use stream_pulse::llm::transcriber::{
    assemble, chunk_pattern_of, order_chunks, AudioInput, TranscribeEvent, TranscribeResponse,
    TranscribeSegment, TranscribeStep, TranscriptAssembler, Transcription,
};

fn segment(start_ms: u64, end_ms: u64, text: &str) -> TranscribeSegment {
    TranscribeSegment { start_ms, end_ms, text: text.to_string() }
}

fn response(text: &str, duration_ms: u64, starts: &[u64]) -> TranscribeResponse {
    TranscribeResponse {
        duration_ms,
        text: text.to_string(),
        segments: Some(starts.iter().map(|s| segment(*s, *s + 1000, "part")).collect()),
    }
}

#[test]
fn chunk_offsets_are_added_to_segment_starts() {
    let responses = vec![
        response("one", 900_000, &[0, 10_000]),
        response("two", 900_000, &[0, 5_000]),
        response("three", 600_000, &[0, 20_000]),
    ];
    let whole = assemble(&responses, 900).unwrap();
    let starts: Vec<u64> = whole.segments.as_ref().unwrap().iter().map(|s| s.start_ms).collect();
    assert_eq!(starts, vec![0, 10_000, 900_000, 905_000, 1_800_000, 1_820_000]);
    let ends: Vec<u64> = whole.segments.as_ref().unwrap().iter().map(|s| s.end_ms).collect();
    assert_eq!(ends, vec![1_000, 11_000, 901_000, 906_000, 1_801_000, 1_821_000]);
    assert_eq!(whole.text, "one two three");
    assert_eq!(whole.duration_ms, 2_400_000);
}

#[test]
fn assembled_text_is_trimmed() {
    let responses = vec![
        TranscribeResponse { duration_ms: 1, text: "  Hello".to_string(), segments: None },
        TranscribeResponse { duration_ms: 2, text: "world. ".to_string(), segments: None },
    ];
    let whole = assemble(&responses, 60).unwrap();
    assert_eq!(whole.text, "Hello world.");
    assert_eq!(whole.segments, Some(vec![]));
    assert_eq!(whole.duration_ms, 3);
    let nothing = assemble(&vec![], 60).unwrap();
    assert_eq!(
        nothing,
        TranscribeResponse { duration_ms: 0, text: String::new(), segments: Some(vec![]) }
    );
}

#[test]
fn times_that_cannot_be_written_fail() {
    let too_long = vec![response("a", u64::MAX, &[]), response("b", 1, &[])];
    assert_eq!(
        assemble(&too_long, 900),
        Err(Error::TranscriptionError("a time of the transcript is out of range".to_string()))
    );
    let late = vec![response("a", 1, &[]), response("b", 1, &[u64::MAX - 900_000])];
    assert!(assemble(&late, 900).is_err());
    let just = vec![response("a", 1, &[]), response("b", 1, &[u64::MAX - 901_000])];
    assert_eq!(
        assemble(&just, 900).unwrap().segments.unwrap()[0],
        segment(u64::MAX - 1000, u64::MAX, "part")
    );
}

#[test]
fn assembler_hands_the_previous_text_on() {
    let mut assembler = TranscriptAssembler::new(900);
    assert_eq!(assembler.hint(), None);
    assembler.push(&response("first", 10, &[5])).unwrap();
    assert_eq!(assembler.hint(), Some("first".to_string()));
    assembler.push(&response("second", 10, &[5])).unwrap();
    assert_eq!(assembler.hint(), Some("second".to_string()));
    assert!(assembler.push(&response("third", u64::MAX, &[])).is_err());
    assert_eq!(assembler.hint(), Some("second".to_string()));
    let whole = assembler.finish();
    assert_eq!(whole.text, "first second");
    assert_eq!(whole.duration_ms, 20);
    assert_eq!(whole.segments.unwrap()[1].start_ms, 900_005);
}

#[test]
fn chunks_are_ordered_by_name() {
    let listing = vec![
        "/c/a_010.mp3".to_string(),
        "/c/a_002.mp3".to_string(),
        "/c/a_000.mp3".to_string(),
        "/c/a_001.mp3".to_string(),
        "/c/Z.mp3".to_string(),
        "/c/a_00.mp3".to_string(),
    ];
    assert_eq!(
        order_chunks(listing),
        vec![
            "/c/Z.mp3".to_string(),
            "/c/a_00.mp3".to_string(),
            "/c/a_000.mp3".to_string(),
            "/c/a_001.mp3".to_string(),
            "/c/a_002.mp3".to_string(),
            "/c/a_010.mp3".to_string(),
        ]
    );
    assert!(order_chunks(vec![]).is_empty());
}

#[test]
fn chunk_pattern_is_named_by_the_file() {
    assert_eq!(
        chunk_pattern_of("/w/audio/abc", "/w/audio/abc_trimmed.mp3"),
        Some("/w/audio/abc/abc_trimmed_%03d.mp3".to_string())
    );
    assert_eq!(chunk_pattern_of("/w/audio/abc", "/w/audio/"), None);
}

fn chunked() -> AudioInput {
    AudioInput::Chunked {
        chunk_duration_seconds: 900,
        chunks_dir_path: "/w/audio/abc".to_string(),
        file_path: "/w/audio/abc_trimmed.mp3".to_string(),
    }
}

fn request(file: &str, prompt: Option<&str>) -> TranscribeStep {
    TranscribeStep::Request { file: file.to_string(), prompt: prompt.map(|p| p.to_string()) }
}

#[test]
fn chunked_transcription_splits_then_sends_each_chunk_in_order() {
    let (mut t, step) = Transcription::start(chunked());
    assert_eq!(step, TranscribeStep::ListChunks { dir: "/w/audio/abc".to_string() });
    let step = t.step(TranscribeEvent::Listed(vec![]));
    assert_eq!(
        step,
        TranscribeStep::SplitAudio {
            file: "/w/audio/abc_trimmed.mp3".to_string(),
            seconds: 900,
            pattern: "/w/audio/abc/abc_trimmed_%03d.mp3".to_string(),
        }
    );
    let step = t.step(TranscribeEvent::SplitDone(Ok(())));
    assert_eq!(step, TranscribeStep::ListChunks { dir: "/w/audio/abc".to_string() });
    let listing = vec!["c_002.mp3".to_string(), "c_000.mp3".to_string(), "c_001.mp3".to_string()];
    let step = t.step(TranscribeEvent::Listed(listing));
    assert_eq!(step, request("c_000.mp3", None));
    let step = t.step(TranscribeEvent::Answered(Ok(response("one", 900_000, &[0, 10_000]))));
    assert_eq!(step, request("c_001.mp3", Some("one")));
    let step = t.step(TranscribeEvent::Answered(Ok(response("two", 900_000, &[0, 5_000]))));
    assert_eq!(step, request("c_002.mp3", Some("two")));
    let step = t.step(TranscribeEvent::Answered(Ok(response("three", 100_000, &[0, 20_000]))));
    match step {
        TranscribeStep::Done(whole) => {
            let starts: Vec<u64> = whole.segments.unwrap().iter().map(|s| s.start_ms).collect();
            assert_eq!(starts, vec![0, 10_000, 900_000, 905_000, 1_800_000, 1_820_000]);
            assert_eq!(whole.text, "one two three");
            assert_eq!(whole.duration_ms, 1_900_000);
        }
        other => panic!("expected the transcript, got {:?}", other),
    }
    let step = t.step(TranscribeEvent::SplitDone(Ok(())));
    assert_eq!(
        step,
        TranscribeStep::Failed(Error::TranscriptionError("unexpected event".to_string()))
    );
}

#[test]
fn chunks_that_are_there_are_not_cut_again() {
    let (mut t, _) = Transcription::start(chunked());
    let step = t.step(TranscribeEvent::Listed(vec!["b.mp3".to_string(), "a.mp3".to_string()]));
    assert_eq!(step, request("a.mp3", None));
}

#[test]
fn cut_that_leaves_nothing_gives_an_empty_transcript() {
    let (mut t, _) = Transcription::start(chunked());
    t.step(TranscribeEvent::Listed(vec![]));
    t.step(TranscribeEvent::SplitDone(Ok(())));
    let step = t.step(TranscribeEvent::Listed(vec![]));
    assert_eq!(
        step,
        TranscribeStep::Done(TranscribeResponse {
            duration_ms: 0,
            text: String::new(),
            segments: Some(vec![]),
        })
    );
}

#[test]
fn failures_of_cut_and_backend_fail_the_transcription() {
    let (mut t, _) = Transcription::start(chunked());
    t.step(TranscribeEvent::Listed(vec![]));
    let step = t.step(TranscribeEvent::SplitDone(Err("ffmpeg exited with 1".to_string())));
    assert_eq!(
        step,
        TranscribeStep::Failed(Error::TranscriptionError("ffmpeg exited with 1".to_string()))
    );
    let (mut t, _) = Transcription::start(chunked());
    t.step(TranscribeEvent::Listed(vec!["a.mp3".to_string(), "b.mp3".to_string()]));
    t.step(TranscribeEvent::Answered(Ok(response("one", 1, &[]))));
    let step = t.step(TranscribeEvent::Answered(Err("Whisper API timeout".to_string())));
    assert_eq!(
        step,
        TranscribeStep::Failed(Error::TranscriptionError("Whisper API timeout".to_string()))
    );
    let step = t.step(TranscribeEvent::Answered(Ok(response("late", 1, &[]))));
    assert!(matches!(step, TranscribeStep::Failed(_)));
}

#[test]
fn file_without_a_name_cannot_be_cut() {
    let input = AudioInput::Chunked {
        chunk_duration_seconds: 900,
        chunks_dir_path: "/w/audio/abc".to_string(),
        file_path: "/w/audio/".to_string(),
    };
    let (mut t, _) = Transcription::start(input);
    let step = t.step(TranscribeEvent::Listed(vec![]));
    assert_eq!(
        step,
        TranscribeStep::Failed(Error::TranscriptionError("Invalid file path".to_string()))
    );
}

#[test]
fn whole_file_is_sent_once_and_answered_as_it_is() {
    let (mut t, step) = Transcription::start(AudioInput::File("/w/a.mp3".to_string()));
    assert_eq!(step, request("/w/a.mp3", None));
    let answer =
        TranscribeResponse { duration_ms: 120_000, text: " as it is ".to_string(), segments: None };
    let step = t.step(TranscribeEvent::Answered(Ok(TranscribeResponse {
        duration_ms: 120_000,
        text: " as it is ".to_string(),
        segments: None,
    })));
    assert_eq!(step, TranscribeStep::Done(answer));
    let (mut t, _) = Transcription::start(AudioInput::File("/w/a.mp3".to_string()));
    let step = t.step(TranscribeEvent::Listed(vec!["x".to_string()]));
    assert!(matches!(step, TranscribeStep::Failed(_)));
}
