use crate::error::Error;
use vstd::prelude::*;

verus! {

/// The address under which a recording is watched, without its query.
pub const BASE_URL: &'static str = "https://youtube.com/watch";

/// The format in which audio is fetched.
pub const AUDIO_FORMAT: &'static str = "mp3";

/// The text of the failure when a fetch went well and left no file: this text
/// and the path of the file.
pub const NO_OUTPUT_FILE: &'static str = "yt-dlp did not produce expected file: ";

/// The text of the failure when an audio task is handed what it did not ask
/// for.
pub const UNEXPECTED_AUDIO_EVENT: &'static str = "unexpected event";

/// The address under which the recording with an id is watched.
pub open spec fn stream_url(base: Seq<char>, video_id: Seq<char>) -> Seq<char> {
    base + "?v="@ + video_id
}

/// The path of a file of a recording: in the directory, the id of the
/// recording and an ending.
pub open spec fn artifact(dir: Seq<char>, video_id: Seq<char>, ending: Seq<char>) -> Seq<char> {
    dir + "/"@ + video_id + ending
}

/// The files of one recording in the audio directory.
#[derive(Debug, PartialEq)]
pub struct AudioPaths {
    /// Where the fetch writes, with the extension left open.
    pub template: String,
    /// The audio as it was fetched.
    pub raw: String,
    /// The audio without noise.
    pub denoised: String,
    /// The audio at an even volume.
    pub normalized: String,
    /// The audio without silence: the end of the cleanup chain.
    pub trimmed: String,
}

/// What [`AudioPaths`] holds, as plain text.
pub struct AudioPathsView {
    pub template: Seq<char>,
    pub raw: Seq<char>,
    pub denoised: Seq<char>,
    pub normalized: Seq<char>,
    pub trimmed: Seq<char>,
}

impl View for AudioPaths {
    type V = AudioPathsView;

    open spec fn view(&self) -> AudioPathsView {
        AudioPathsView {
            template: self.template@,
            raw: self.raw@,
            denoised: self.denoised@,
            normalized: self.normalized@,
            trimmed: self.trimmed@,
        }
    }
}

/// The files of the recording with an id in a directory.
pub open spec fn audio_paths(dir: Seq<char>, video_id: Seq<char>) -> AudioPathsView {
    AudioPathsView {
        template: artifact(dir, video_id, ".%(ext)s"@),
        raw: artifact(dir, video_id, ".mp3"@),
        denoised: artifact(dir, video_id, "_denoised.mp3"@),
        normalized: artifact(dir, video_id, "_normalized.mp3"@),
        trimmed: artifact(dir, video_id, "_trimmed.mp3"@),
    }
}

/// The path of a file of a recording.
pub fn artifact_path(dir: &str, video_id: &str, ending: &str) -> (r: String)
    ensures
        r@ == artifact(dir@, video_id@, ending@),
{
    let mut path = String::from_str(dir);
    path.append("/");
    path.append(video_id);
    path.append(ending);
    path
}

/// The address under which a recording is watched.
pub fn stream_url_of(base: &str, video_id: &str) -> (r: String)
    ensures
        r@ == stream_url(base@, video_id@),
{
    let mut url = String::from_str(base);
    url.append("?v=");
    url.append(video_id);
    url
}

impl AudioPaths {
    /// The files of the recording with an id in a directory.
    pub fn new(dir: &str, video_id: &str) -> (r: AudioPaths)
        ensures
            r@ == audio_paths(dir@, video_id@),
    {
        AudioPaths {
            template: artifact_path(dir, video_id, ".%(ext)s"),
            raw: artifact_path(dir, video_id, ".mp3"),
            denoised: artifact_path(dir, video_id, "_denoised.mp3"),
            normalized: artifact_path(dir, video_id, "_normalized.mp3"),
            trimmed: artifact_path(dir, video_id, "_trimmed.mp3"),
        }
    }
}

/// Where the work on the audio of one recording stands.
#[derive(Clone, Copy, Debug, PartialEq, Eq, Structural)]
pub enum AudioPhase {
    /// It is being looked up whether the fetched audio is there already.
    CheckingRaw,
    /// The audio is being fetched.
    Fetching,
    /// It is being looked up whether the fetch left its file.
    CheckingFetched,
    /// It is being looked up whether the cleaned audio is there already.
    CheckingTrimmed,
    /// Noise is being removed.
    Denoising,
    /// The volume is being evened out.
    Normalizing,
    /// Silence is being cut.
    Trimming,
    /// The file that was worked for is there.
    Ready,
    /// The work has failed.
    Failed,
}

/// What an audio task asks of its surroundings next, or how it ended.
#[derive(Debug, PartialEq)]
pub enum AudioStep {
    /// Say whether a file is there.
    Probe { path: String },
    /// Fetch the audio at an address, in a format, to where a template says.
    Fetch { url: String, format: String, template: String },
    /// Remove noise from one file into another.
    Denoise { from: String, to: String },
    /// Even out the volume of one file into another.
    Normalize { from: String, to: String },
    /// Cut the silence from one file into another.
    Trim { from: String, to: String },
    /// The file that was worked for.
    Ready(String),
    /// The failure.
    Failed(Error),
}

impl AudioStep {
    /// Whether the step has a tool run: a fetch or a step of the cleanup.
    pub open spec fn runs_tool(self) -> bool {
        self is Fetch || self is Denoise || self is Normalize || self is Trim
    }
}

/// What the surroundings hand back to an audio task.
pub enum AudioEvent {
    /// Whether the file is there.
    Probed(bool),
    /// How the tool run went.
    ToolDone(Result<(), String>),
}

/// The work on the audio of one recording: either its fetch or its cleanup.
/// It asks for one thing at a time and is told how that went.
pub struct AudioTask {
    url: String,
    paths: AudioPaths,
    phase: AudioPhase,
}

impl AudioTask {
    /// The address from which the audio is fetched.
    pub closed spec fn url(&self) -> Seq<char> {
        self.url@
    }

    /// The files of the recording.
    pub closed spec fn paths(&self) -> AudioPathsView {
        self.paths@
    }

    /// Where the work stands.
    pub closed spec fn phase(&self) -> AudioPhase {
        self.phase
    }

    /// Whether `step` asks whether the file at `path` is there.
    pub open spec fn probes(step: AudioStep, path: Seq<char>) -> bool {
        step matches AudioStep::Probe { path: p } && p@ == path
    }

    /// Whether `step` hands out the file at `path`.
    pub open spec fn ready(step: AudioStep, path: Seq<char>) -> bool {
        step matches AudioStep::Ready(p) && p@ == path
    }

    /// Whether a fetch for the recording with an id into a directory is at its
    /// start, and `step` what it asks first: whether the fetched audio is
    /// there.
    pub open spec fn starts_download(
        &self,
        base_url: Seq<char>,
        video_id: Seq<char>,
        dir: Seq<char>,
        step: AudioStep,
    ) -> bool {
        &&& self.url() == stream_url(base_url, video_id)
        &&& self.paths() == audio_paths(dir, video_id)
        &&& self.phase() == AudioPhase::CheckingRaw
        &&& Self::probes(step, self.paths().raw)
    }

    /// Whether a cleanup for the recording with an id in a directory is at its
    /// start, and `step` what it asks first: whether the cleaned audio is
    /// there.
    pub open spec fn starts_clean_up(
        &self,
        video_id: Seq<char>,
        dir: Seq<char>,
        step: AudioStep,
    ) -> bool {
        &&& self.paths() == audio_paths(dir, video_id)
        &&& self.phase() == AudioPhase::CheckingTrimmed
        &&& Self::probes(step, self.paths().trimmed)
    }

    /// Begins the fetch of the audio of a recording into a directory.
    pub fn download(base_url: &str, video_id: &str, audio_dl_path: &str) -> (r: (
        AudioTask,
        AudioStep,
    ))
        ensures
            r.0.starts_download(base_url@, video_id@, audio_dl_path@, r.1),
    {
        let paths = AudioPaths::new(audio_dl_path, video_id);
        let step = AudioStep::Probe { path: paths.raw.clone() };
        let task = AudioTask {
            url: stream_url_of(base_url, video_id),
            paths,
            phase: AudioPhase::CheckingRaw,
        };
        (task, step)
    }

    /// Begins the cleanup of the audio of a recording in a directory.
    pub fn clean_up(video_id: &str, audio_dl_path: &str) -> (r: (AudioTask, AudioStep))
        ensures
            r.0.starts_clean_up(video_id@, audio_dl_path@, r.1),
    {
        let paths = AudioPaths::new(audio_dl_path, video_id);
        let step = AudioStep::Probe { path: paths.trimmed.clone() };
        let task = AudioTask { url: String::new(), paths, phase: AudioPhase::CheckingTrimmed };
        (task, step)
    }

    /// Whether a phase belongs to the cleanup.
    pub open spec fn cleaning(phase: AudioPhase) -> bool {
        phase == AudioPhase::CheckingTrimmed || phase == AudioPhase::Denoising || phase
            == AudioPhase::Normalizing || phase == AudioPhase::Trimming
    }

    /// Whether `step` is a failure of the kind that the phase calls for, with
    /// the text `m`: of the cleanup in its phases, of the fetch in all others.
    pub open spec fn fails_with(phase: AudioPhase, step: AudioStep, m: Seq<char>) -> bool {
        &&& step matches AudioStep::Failed(e)
        &&& e.detail() == m
        &&& if Self::cleaning(phase) {
            e is CleanupError
        } else {
            e is AcquisitionError
        }
    }

    /// What an event leads to.
    ///
    /// The fetch: audio that is there is handed out, and nothing is fetched;
    /// else it is fetched and looked for again, and a fetch that went well and
    /// left no file is a failure. The cleanup: cleaned audio that is there is
    /// handed out, and no tool runs; else noise is removed, the volume evened
    /// out and silence cut, each into a file of its own, and the last is handed
    /// out. A tool run that fails fails the task with the text that it brought.
    /// An event that was not asked for fails it too.
    pub open spec fn steps(
        before: AudioTask,
        event: AudioEvent,
        after: AudioTask,
        step: AudioStep,
    ) -> bool {
        let p = before.paths();
        &&& after.url() == before.url()
        &&& after.paths() == p
        &&& match (before.phase(), event) {
            (AudioPhase::CheckingRaw, AudioEvent::Probed(true)) => {
                &&& after.phase() == AudioPhase::Ready
                &&& Self::ready(step, p.raw)
            },
            (AudioPhase::CheckingRaw, AudioEvent::Probed(false)) => {
                &&& after.phase() == AudioPhase::Fetching
                &&& step matches AudioStep::Fetch { url, format, template }
                &&& url@ == before.url()
                &&& format@ == AUDIO_FORMAT@
                &&& template@ == p.template
            },
            (AudioPhase::Fetching, AudioEvent::ToolDone(Ok(_))) => {
                &&& after.phase() == AudioPhase::CheckingFetched
                &&& Self::probes(step, p.raw)
            },
            (AudioPhase::CheckingFetched, AudioEvent::Probed(true)) => {
                &&& after.phase() == AudioPhase::Ready
                &&& Self::ready(step, p.raw)
            },
            (AudioPhase::CheckingFetched, AudioEvent::Probed(false)) => {
                &&& after.phase() == AudioPhase::Failed
                &&& Self::fails_with(before.phase(), step, NO_OUTPUT_FILE@ + p.raw)
            },
            (AudioPhase::CheckingTrimmed, AudioEvent::Probed(true)) => {
                &&& after.phase() == AudioPhase::Ready
                &&& Self::ready(step, p.trimmed)
            },
            (AudioPhase::CheckingTrimmed, AudioEvent::Probed(false)) => {
                &&& after.phase() == AudioPhase::Denoising
                &&& step matches AudioStep::Denoise { from, to }
                &&& from@ == p.raw
                &&& to@ == p.denoised
            },
            (AudioPhase::Denoising, AudioEvent::ToolDone(Ok(_))) => {
                &&& after.phase() == AudioPhase::Normalizing
                &&& step matches AudioStep::Normalize { from, to }
                &&& from@ == p.denoised
                &&& to@ == p.normalized
            },
            (AudioPhase::Normalizing, AudioEvent::ToolDone(Ok(_))) => {
                &&& after.phase() == AudioPhase::Trimming
                &&& step matches AudioStep::Trim { from, to }
                &&& from@ == p.normalized
                &&& to@ == p.trimmed
            },
            (AudioPhase::Trimming, AudioEvent::ToolDone(Ok(_))) => {
                &&& after.phase() == AudioPhase::Ready
                &&& Self::ready(step, p.trimmed)
            },
            (AudioPhase::Fetching, AudioEvent::ToolDone(Err(m))) => {
                &&& after.phase() == AudioPhase::Failed
                &&& Self::fails_with(before.phase(), step, m@)
            },
            (AudioPhase::Denoising, AudioEvent::ToolDone(Err(m))) => {
                &&& after.phase() == AudioPhase::Failed
                &&& Self::fails_with(before.phase(), step, m@)
            },
            (AudioPhase::Normalizing, AudioEvent::ToolDone(Err(m))) => {
                &&& after.phase() == AudioPhase::Failed
                &&& Self::fails_with(before.phase(), step, m@)
            },
            (AudioPhase::Trimming, AudioEvent::ToolDone(Err(m))) => {
                &&& after.phase() == AudioPhase::Failed
                &&& Self::fails_with(before.phase(), step, m@)
            },
            _ => {
                &&& after.phase() == AudioPhase::Failed
                &&& Self::fails_with(before.phase(), step, UNEXPECTED_AUDIO_EVENT@)
            },
        }
    }

    fn fail(&mut self, detail: String) -> (r: AudioStep)
        ensures
            final(self).url == old(self).url,
            final(self).paths == old(self).paths,
            final(self).phase == AudioPhase::Failed,
            Self::fails_with(old(self).phase, r, detail@),
    {
        let cleaning = match self.phase {
            AudioPhase::CheckingTrimmed => true,
            AudioPhase::Denoising => true,
            AudioPhase::Normalizing => true,
            AudioPhase::Trimming => true,
            _ => false,
        };
        self.phase = AudioPhase::Failed;
        if cleaning {
            AudioStep::Failed(Error::CleanupError(detail))
        } else {
            AudioStep::Failed(Error::AcquisitionError(detail))
        }
    }

    fn probed(&mut self, present: bool) -> (r: AudioStep)
        ensures
            Self::steps(*old(self), AudioEvent::Probed(present), *final(self), r),
    {
        match self.phase {
            AudioPhase::CheckingRaw => {
                if present {
                    self.phase = AudioPhase::Ready;
                    AudioStep::Ready(self.paths.raw.clone())
                } else {
                    self.phase = AudioPhase::Fetching;
                    AudioStep::Fetch {
                        url: self.url.clone(),
                        format: String::from_str(AUDIO_FORMAT),
                        template: self.paths.template.clone(),
                    }
                }
            },
            AudioPhase::CheckingFetched => {
                if present {
                    self.phase = AudioPhase::Ready;
                    AudioStep::Ready(self.paths.raw.clone())
                } else {
                    let mut detail = String::from_str(NO_OUTPUT_FILE);
                    detail.append(self.paths.raw.as_str());
                    self.fail(detail)
                }
            },
            AudioPhase::CheckingTrimmed => {
                if present {
                    self.phase = AudioPhase::Ready;
                    AudioStep::Ready(self.paths.trimmed.clone())
                } else {
                    self.phase = AudioPhase::Denoising;
                    AudioStep::Denoise {
                        from: self.paths.raw.clone(),
                        to: self.paths.denoised.clone(),
                    }
                }
            },
            _ => self.fail(String::from_str(UNEXPECTED_AUDIO_EVENT)),
        }
    }

    fn tool_done(&mut self, outcome: Result<(), String>) -> (r: AudioStep)
        ensures
            Self::steps(*old(self), AudioEvent::ToolDone(outcome), *final(self), r),
    {
        let running = match self.phase {
            AudioPhase::Fetching => true,
            AudioPhase::Denoising => true,
            AudioPhase::Normalizing => true,
            AudioPhase::Trimming => true,
            _ => false,
        };
        if !running {
            return self.fail(String::from_str(UNEXPECTED_AUDIO_EVENT));
        }
        match outcome {
            Err(m) => self.fail(m),
            Ok(_) => match self.phase {
                AudioPhase::Fetching => {
                    self.phase = AudioPhase::CheckingFetched;
                    AudioStep::Probe { path: self.paths.raw.clone() }
                },
                AudioPhase::Denoising => {
                    self.phase = AudioPhase::Normalizing;
                    AudioStep::Normalize {
                        from: self.paths.denoised.clone(),
                        to: self.paths.normalized.clone(),
                    }
                },
                AudioPhase::Normalizing => {
                    self.phase = AudioPhase::Trimming;
                    AudioStep::Trim {
                        from: self.paths.normalized.clone(),
                        to: self.paths.trimmed.clone(),
                    }
                },
                _ => {
                    self.phase = AudioPhase::Ready;
                    AudioStep::Ready(self.paths.trimmed.clone())
                },
            },
        }
    }

    /// Tells the task how what it asked for went, and learns what it asks
    /// next.
    pub fn step(&mut self, event: AudioEvent) -> (r: AudioStep)
        ensures
            Self::steps(*old(self), event, *final(self), r),
    {
        match event {
            AudioEvent::Probed(present) => self.probed(present),
            AudioEvent::ToolDone(outcome) => self.tool_done(outcome),
        }
    }

    /// Where every file that a task looks for is there, the task asks for no
    /// tool run: it begins by looking for its file, and on hearing that the
    /// file is there it hands the file out.
    pub proof fn lemma_present_artifacts_run_no_tool(
        task: AudioTask,
        first: AudioStep,
        after: AudioTask,
        second: AudioStep,
    )
        requires
            task.phase() == AudioPhase::CheckingRaw || task.phase() == AudioPhase::CheckingTrimmed,
            first is Probe,
            Self::steps(task, AudioEvent::Probed(true), after, second),
        ensures
            !first.runs_tool(),
            !second.runs_tool(),
            second is Ready,
            after.phase() == AudioPhase::Ready,
    {
    }
}

} // verus!
