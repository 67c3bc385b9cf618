use stream_pulse::error::Error;
use stream_pulse::yt::audio_handler::{
    artifact_path, stream_url_of, AudioEvent, AudioPaths, AudioStep, AudioTask, BASE_URL,
};

fn probe(path: &str) -> AudioStep {
    AudioStep::Probe { path: path.to_string() }
}

#[test]
fn paths_are_keyed_by_the_id() {
    let paths = AudioPaths::new("/w/audio", "abc");
    assert_eq!(
        paths,
        AudioPaths {
            template: "/w/audio/abc.%(ext)s".to_string(),
            raw: "/w/audio/abc.mp3".to_string(),
            denoised: "/w/audio/abc_denoised.mp3".to_string(),
            normalized: "/w/audio/abc_normalized.mp3".to_string(),
            trimmed: "/w/audio/abc_trimmed.mp3".to_string(),
        }
    );
    assert_eq!(artifact_path("d", "i", ".x"), "d/i.x");
    assert_eq!(stream_url_of(BASE_URL, "abc"), "https://youtube.com/watch?v=abc");
}

#[test]
fn present_artifacts_run_no_tool() {
    let (mut task, step) = AudioTask::download(BASE_URL, "abc", "/w/audio");
    assert_eq!(step, probe("/w/audio/abc.mp3"));
    let step = task.step(AudioEvent::Probed(true));
    assert_eq!(step, AudioStep::Ready("/w/audio/abc.mp3".to_string()));
    let (mut task, step) = AudioTask::clean_up("abc", "/w/audio");
    assert_eq!(step, probe("/w/audio/abc_trimmed.mp3"));
    let step = task.step(AudioEvent::Probed(true));
    assert_eq!(step, AudioStep::Ready("/w/audio/abc_trimmed.mp3".to_string()));
}

#[test]
fn absent_audio_is_fetched_and_looked_for_again() {
    let (mut task, _) = AudioTask::download(BASE_URL, "abc", "/w/audio");
    let step = task.step(AudioEvent::Probed(false));
    assert_eq!(
        step,
        AudioStep::Fetch {
            url: "https://youtube.com/watch?v=abc".to_string(),
            format: "mp3".to_string(),
            template: "/w/audio/abc.%(ext)s".to_string(),
        }
    );
    let step = task.step(AudioEvent::ToolDone(Ok(())));
    assert_eq!(step, probe("/w/audio/abc.mp3"));
    let step = task.step(AudioEvent::Probed(true));
    assert_eq!(step, AudioStep::Ready("/w/audio/abc.mp3".to_string()));
}

#[test]
fn fetch_that_leaves_no_file_is_a_failure() {
    let (mut task, _) = AudioTask::download(BASE_URL, "abc", "/w/audio");
    task.step(AudioEvent::Probed(false));
    task.step(AudioEvent::ToolDone(Ok(())));
    let step = task.step(AudioEvent::Probed(false));
    assert_eq!(
        step,
        AudioStep::Failed(Error::AcquisitionError(
            "yt-dlp did not produce expected file: /w/audio/abc.mp3".to_string()
        ))
    );
    let step = task.step(AudioEvent::Probed(true));
    assert_eq!(step, AudioStep::Failed(Error::AcquisitionError("unexpected event".to_string())));
}

#[test]
fn failed_fetch_is_a_failure() {
    let (mut task, _) = AudioTask::download(BASE_URL, "abc", "/w/audio");
    task.step(AudioEvent::Probed(false));
    let step = task.step(AudioEvent::ToolDone(Err("yt-dlp download failed".to_string())));
    assert_eq!(
        step,
        AudioStep::Failed(Error::AcquisitionError("yt-dlp download failed".to_string()))
    );
}

#[test]
fn cleanup_runs_its_chain_in_order() {
    let (mut task, _) = AudioTask::clean_up("abc", "/w/audio");
    let step = task.step(AudioEvent::Probed(false));
    assert_eq!(
        step,
        AudioStep::Denoise {
            from: "/w/audio/abc.mp3".to_string(),
            to: "/w/audio/abc_denoised.mp3".to_string(),
        }
    );
    let step = task.step(AudioEvent::ToolDone(Ok(())));
    assert_eq!(
        step,
        AudioStep::Normalize {
            from: "/w/audio/abc_denoised.mp3".to_string(),
            to: "/w/audio/abc_normalized.mp3".to_string(),
        }
    );
    let step = task.step(AudioEvent::ToolDone(Ok(())));
    assert_eq!(
        step,
        AudioStep::Trim {
            from: "/w/audio/abc_normalized.mp3".to_string(),
            to: "/w/audio/abc_trimmed.mp3".to_string(),
        }
    );
    let step = task.step(AudioEvent::ToolDone(Ok(())));
    assert_eq!(step, AudioStep::Ready("/w/audio/abc_trimmed.mp3".to_string()));
}

#[test]
fn failed_cleanup_step_ends_the_chain() {
    let (mut task, _) = AudioTask::clean_up("abc", "/w/audio");
    task.step(AudioEvent::Probed(false));
    task.step(AudioEvent::ToolDone(Ok(())));
    let step = task.step(AudioEvent::ToolDone(Err("ffmpeg failed".to_string())));
    assert_eq!(step, AudioStep::Failed(Error::CleanupError("ffmpeg failed".to_string())));
    let (mut task, _) = AudioTask::clean_up("abc", "/w/audio");
    let step = task.step(AudioEvent::ToolDone(Ok(())));
    assert_eq!(step, AudioStep::Failed(Error::CleanupError("unexpected event".to_string())));
}
