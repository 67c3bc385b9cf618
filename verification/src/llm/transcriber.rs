use crate::error::Error;
use crate::text::{lemma_text_order_total, text_order, trim, trimmed};
use crate::types::{string_views, text_of};
use vstd::prelude::*;
use vstd::relations::sorted_by;
use vstd::seq_lib::lemma_sorted_unique;

verus! {

/// What a transcription is asked to work on.
#[derive(Debug, PartialEq)]
pub enum AudioInput {
    /// An audio file to be cut into chunks of a fixed length, which are kept in
    /// a directory of their own and transcribed one after the other.
    Chunked { chunk_duration_seconds: u16, chunks_dir_path: String, file_path: String },
    /// An audio file to be transcribed whole.
    File(String),
}

/// What an [`AudioInput`] holds, as plain text.
pub enum AudioInputView {
    Chunked { chunk_duration_seconds: u16, chunks_dir_path: Seq<char>, file_path: Seq<char> },
    File(Seq<char>),
}

impl View for AudioInput {
    type V = AudioInputView;

    open spec fn view(&self) -> AudioInputView {
        match self {
            AudioInput::Chunked {
                chunk_duration_seconds,
                chunks_dir_path,
                file_path,
            } => AudioInputView::Chunked {
                chunk_duration_seconds: *chunk_duration_seconds,
                chunks_dir_path: chunks_dir_path@,
                file_path: file_path@,
            },
            AudioInput::File(path) => AudioInputView::File(path@),
        }
    }
}

impl Clone for AudioInput {
    fn clone(&self) -> (r: Self)
        ensures
            r == *self,
    {
        match self {
            AudioInput::Chunked {
                chunk_duration_seconds,
                chunks_dir_path,
                file_path,
            } => AudioInput::Chunked {
                chunk_duration_seconds: *chunk_duration_seconds,
                chunks_dir_path: chunks_dir_path.clone(),
                file_path: file_path.clone(),
            },
            AudioInput::File(path) => AudioInput::File(path.clone()),
        }
    }
}

/// A stretch of a transcript with the times, in milliseconds, at which it
/// starts and ends.
#[derive(Debug, PartialEq)]
pub struct TranscribeSegment {
    pub start_ms: u64,
    pub end_ms: u64,
    pub text: String,
}

/// What a [`TranscribeSegment`] holds.
pub struct SegmentView {
    pub start_ms: nat,
    pub end_ms: nat,
    pub text: Seq<char>,
}

impl View for TranscribeSegment {
    type V = SegmentView;

    open spec fn view(&self) -> SegmentView {
        SegmentView {
            start_ms: self.start_ms as nat,
            end_ms: self.end_ms as nat,
            text: self.text@,
        }
    }
}

/// The views of a sequence of segments, item by item.
pub open spec fn segment_views(segments: Seq<TranscribeSegment>) -> Seq<SegmentView> {
    Seq::new(segments.len(), |i: int| segments[i]@)
}

/// The views of the segments of a response, where it has any.
pub open spec fn optional_segment_views(segments: Option<Vec<TranscribeSegment>>) -> Option<
    Seq<SegmentView>,
> {
    match segments {
        Some(s) => Some(segment_views(s@)),
        None => None,
    }
}

/// What a transcription backend answers: the text, how long the audio ran in
/// milliseconds, and the segments of the text where the backend gives them.
#[derive(Debug, PartialEq)]
pub struct TranscribeResponse {
    pub duration_ms: u64,
    pub text: String,
    pub segments: Option<Vec<TranscribeSegment>>,
}

/// What a [`TranscribeResponse`] holds.
pub struct ResponseView {
    pub duration_ms: nat,
    pub text: Seq<char>,
    pub segments: Option<Seq<SegmentView>>,
}

impl View for TranscribeResponse {
    type V = ResponseView;

    open spec fn view(&self) -> ResponseView {
        ResponseView {
            duration_ms: self.duration_ms as nat,
            text: self.text@,
            segments: optional_segment_views(self.segments),
        }
    }
}

/// The views of a sequence of responses, item by item.
pub open spec fn response_views(responses: Seq<TranscribeResponse>) -> Seq<ResponseView> {
    Seq::new(responses.len(), |i: int| responses[i]@)
}

/// The length of a chunk in milliseconds.
pub open spec fn chunk_millis(chunk_duration_seconds: u16) -> nat {
    chunk_duration_seconds as nat * 1000
}

/// A segment moved later by `by` milliseconds.
pub open spec fn shift(segment: SegmentView, by: nat) -> SegmentView {
    SegmentView {
        start_ms: segment.start_ms + by,
        end_ms: segment.end_ms + by,
        text: segment.text,
    }
}

/// Segments moved later by `by` milliseconds, each.
pub open spec fn shifted(segments: Seq<SegmentView>, by: nat) -> Seq<SegmentView> {
    Seq::new(segments.len(), |i: int| shift(segments[i], by))
}

/// The segments of a response; none where the backend gave none.
pub open spec fn segments_of(response: ResponseView) -> Seq<SegmentView> {
    match response.segments {
        Some(s) => s,
        None => Seq::empty(),
    }
}

/// The segments of the chunks of a recording on the clock of the recording:
/// those of the chunk at index `k` are moved later by `k` chunk lengths.
pub open spec fn joined_segments(responses: Seq<ResponseView>, chunk_ms: nat) -> Seq<SegmentView>
    decreases responses.len(),
{
    if responses.len() == 0 {
        Seq::empty()
    } else {
        joined_segments(responses.drop_last(), chunk_ms) + shifted(
            segments_of(responses.last()),
            (responses.len() - 1) as nat * chunk_ms,
        )
    }
}

/// The texts of the chunks in a row, each followed by a space.
pub open spec fn joined_text(responses: Seq<ResponseView>) -> Seq<char>
    decreases responses.len(),
{
    if responses.len() == 0 {
        Seq::empty()
    } else {
        joined_text(responses.drop_last()) + responses.last().text + " "@
    }
}

/// The sum of the lengths that the backend reported for the chunks.
pub open spec fn total_duration(responses: Seq<ResponseView>) -> nat
    decreases responses.len(),
{
    if responses.len() == 0 {
        0
    } else {
        total_duration(responses.drop_last()) + responses.last().duration_ms
    }
}

/// Whether the times of every segment can be written in 64 bits.
pub open spec fn segments_fit(segments: Seq<SegmentView>) -> bool {
    forall|i: int|
        0 <= i < segments.len() ==> (#[trigger] segments[i]).start_ms <= u64::MAX
            && segments[i].end_ms <= u64::MAX
}

/// The transcript of a recording, put together from the answers for its
/// chunks in their order.
pub open spec fn assembled(responses: Seq<ResponseView>, chunk_ms: nat) -> ResponseView {
    ResponseView {
        duration_ms: total_duration(responses),
        text: trimmed(joined_text(responses)),
        segments: Some(joined_segments(responses, chunk_ms)),
    }
}

/// Whether the transcript put together from these answers can be written:
/// the times of all its segments and its whole length fit in 64 bits.
pub open spec fn assembles(responses: Seq<ResponseView>, chunk_ms: nat) -> bool {
    &&& responses.len() <= usize::MAX
    &&& total_duration(responses) <= u64::MAX
    &&& segments_fit(joined_segments(responses, chunk_ms))
}

/// The text of the failure when a time of a transcript cannot be written.
pub const TIME_OUT_OF_RANGE: &'static str = "a time of the transcript is out of range";

/// Puts the transcript of a recording together, chunk by chunk.
pub struct TranscriptAssembler {
    chunk_duration_seconds: u16,
    count: usize,
    segments: Vec<TranscribeSegment>,
    text: String,
    duration_ms: u64,
    previous_text: Option<String>,
}

impl TranscriptAssembler {
    /// The length of a chunk in seconds.
    pub closed spec fn chunk_seconds(&self) -> u16 {
        self.chunk_duration_seconds
    }

    /// How many chunks have been taken in.
    pub closed spec fn count(&self) -> nat {
        self.count as nat
    }

    /// The segments so far, on the clock of the recording.
    pub closed spec fn segments(&self) -> Seq<SegmentView> {
        segment_views(self.segments@)
    }

    /// The text so far.
    pub closed spec fn text(&self) -> Seq<char> {
        self.text@
    }

    /// The length so far, in milliseconds.
    pub closed spec fn duration(&self) -> nat {
        self.duration_ms as nat
    }

    /// The text of the chunk that was taken in last.
    pub closed spec fn previous(&self) -> Option<Seq<char>> {
        text_of(self.previous_text)
    }

    /// Whether this is what taking in `responses`, in their order, leads to.
    pub open spec fn holds(&self, responses: Seq<ResponseView>) -> bool {
        &&& self.count() == responses.len()
        &&& self.segments() == joined_segments(responses, chunk_millis(self.chunk_seconds()))
        &&& self.text() == joined_text(responses)
        &&& self.duration() == total_duration(responses)
        &&& self.previous() == if responses.len() == 0 {
            None
        } else {
            Some(responses.last().text)
        }
    }

    /// An assembler that has taken in nothing.
    pub fn new(chunk_duration_seconds: u16) -> (r: Self)
        ensures
            r.chunk_seconds() == chunk_duration_seconds,
            r.holds(Seq::empty()),
    {
        let r = TranscriptAssembler {
            chunk_duration_seconds,
            count: 0,
            segments: Vec::new(),
            text: String::new(),
            duration_ms: 0,
            previous_text: None,
        };
        assert(segment_views(r.segments@) == Seq::<SegmentView>::empty());
        r
    }

    /// The hint for the next request: the text of the chunk before it.
    pub fn hint(&self) -> (r: Option<String>)
        ensures
            text_of(r) == self.previous(),
    {
        match &self.previous_text {
            Some(t) => Some(t.clone()),
            None => None,
        }
    }

    /// Whether the answer for the next chunk can be taken in: the times of its
    /// segments, moved onto the clock of the recording, and the new length fit
    /// in 64 bits.
    pub open spec fn takes(&self, response: ResponseView) -> bool {
        &&& self.count() < usize::MAX
        &&& self.duration() + response.duration_ms <= u64::MAX
        &&& segments_fit(
            shifted(segments_of(response), self.count() * chunk_millis(self.chunk_seconds())),
        )
    }

    /// Takes in the answer for the next chunk: its segments are moved later by
    /// the chunks before it, its text and a space are put behind the text so
    /// far, and its length is added. An answer with a time that cannot be
    /// written is refused and changes nothing.
    pub fn push(&mut self, response: &TranscribeResponse) -> (r: Result<(), Error>)
        ensures
            final(self).chunk_seconds() == old(self).chunk_seconds(),
            match r {
                Ok(_) => {
                    &&& old(self).takes(response@)
                    &&& final(self).count() == old(self).count() + 1
                    &&& final(self).segments() == old(self).segments() + shifted(
                        segments_of(response@),
                        old(self).count() * chunk_millis(old(self).chunk_seconds()),
                    )
                    &&& final(self).text() == old(self).text() + response@.text + " "@
                    &&& final(self).duration() == old(self).duration() + response@.duration_ms
                    &&& final(self).previous() == Some(response@.text)
                },
                Err(e) => {
                    &&& !old(self).takes(response@)
                    &&& *final(self) == *old(self)
                    &&& e matches Error::TranscriptionError(m)
                    &&& m@ == TIME_OUT_OF_RANGE@
                },
            },
    {
        let chunk_ms: u128 = self.chunk_duration_seconds as u128 * 1000;
        assert(self.count * chunk_ms <= usize::MAX * 65535000) by (nonlinear_arith)
            requires
                self.count <= usize::MAX,
                chunk_ms <= 65535000,
        ;
        let offset: u128 = self.count as u128 * chunk_ms;
        let ghost by = self.count() * chunk_millis(self.chunk_seconds());
        assert(by == offset);
        let ghost incoming = segments_of(response@);
        if self.count == usize::MAX || self.duration_ms as u128 + response.duration_ms as u128
            > u64::MAX as u128 {
            return Err(Error::TranscriptionError(String::from_str(TIME_OUT_OF_RANGE)));
        }
        let mut fits = true;
        let mut moved: Vec<TranscribeSegment> = Vec::new();
        match &response.segments {
            Some(segments) => {
                assert(incoming == segment_views(segments@));
                let mut i: usize = 0;
                while i < segments.len() && fits
                    invariant
                        i <= segments.len(),
                        incoming == segment_views(segments@),
                        incoming == segments_of(response@),
                        offset <= usize::MAX * 65535000,
                        fits ==> segment_views(moved@) == shifted(incoming.take(i as int), offset as nat),
                        fits ==> segments_fit(shifted(incoming.take(i as int), offset as nat)),
                        !fits ==> !old(self).takes(response@),
                        old(self).count() * chunk_millis(old(self).chunk_seconds()) == offset,
                    decreases segments.len() - i + (if fits { 1int } else { 0int }),
                {
                    let segment = &segments[i];
                    let start: u128 = segment.start_ms as u128 + offset;
                    let end: u128 = segment.end_ms as u128 + offset;
                    if start <= u64::MAX as u128 && end <= u64::MAX as u128 {
                        let ghost before = segment_views(moved@);
                        moved.push(
                            TranscribeSegment {
                                start_ms: start as u64,
                                end_ms: end as u64,
                                text: segment.text.clone(),
                            },
                        );
                        proof {
                            let prefix = incoming.take(i + 1);
                            assert(prefix == incoming.take(i as int).push(incoming[i as int]));
                            assert(shifted(prefix, offset as nat) == shifted(
                                incoming.take(i as int),
                                offset as nat,
                            ).push(shift(incoming[i as int], offset as nat)));
                            assert(segment_views(moved@) == before.push(
                                shift(incoming[i as int], offset as nat),
                            ));
                        }
                        i += 1;
                    } else {
                        fits = false;
                        proof {
                            let all = shifted(incoming, offset as nat);
                            assert(all[i as int] == shift(incoming[i as int], offset as nat));
                            assert(!segments_fit(all));
                        }
                    }
                }
                assert(fits ==> incoming.take(segments.len() as int) == incoming);
            },
            None => {
                assert(shifted(incoming, offset as nat) == Seq::<SegmentView>::empty());
                assert(segment_views(moved@) == Seq::<SegmentView>::empty());
            },
        }
        if !fits {
            return Err(Error::TranscriptionError(String::from_str(TIME_OUT_OF_RANGE)));
        }
        let ghost before = segment_views(self.segments@);
        let ghost added = segment_views(moved@);
        self.segments.append(&mut moved);
        assert(segment_views(self.segments@) == before + added);
        self.text.append(response.text.as_str());
        self.text.append(" ");
        self.duration_ms = self.duration_ms + response.duration_ms;
        self.count = self.count + 1;
        self.previous_text = Some(response.text.clone());
        assert(old(self).text() + response@.text + " "@ == (old(self).text() + response@.text)
            + " "@);
        Ok(())
    }

    /// The transcript: the segments and the length as they stand, and the
    /// text without the white space at its ends.
    pub fn finish(&self) -> (r: TranscribeResponse)
        ensures
            r@ == (ResponseView {
                duration_ms: self.duration(),
                text: trimmed(self.text()),
                segments: Some(self.segments()),
            }),
    {
        let mut segments: Vec<TranscribeSegment> = Vec::new();
        let mut i: usize = 0;
        while i < self.segments.len()
            invariant
                i <= self.segments.len(),
                segment_views(segments@) == segment_views(self.segments@).take(i as int),
            decreases self.segments.len() - i,
        {
            let s = &self.segments[i];
            let ghost before = segment_views(segments@);
            segments.push(
                TranscribeSegment { start_ms: s.start_ms, end_ms: s.end_ms, text: s.text.clone() },
            );
            assert(segment_views(segments@) == before.push(s@));
            assert(segment_views(self.segments@).take(i + 1) == segment_views(
                self.segments@,
            ).take(i as int).push(s@));
            i += 1;
        }
        assert(segment_views(self.segments@).take(self.segments.len() as int) == segment_views(
            self.segments@,
        ));
        TranscribeResponse {
            duration_ms: self.duration_ms,
            text: trim(self.text.as_str()),
            segments: Some(segments),
        }
    }

    /// Taking in one more answer leads to what the longer row of answers
    /// leads to.
    pub proof fn lemma_push_holds(
        before: Self,
        after: Self,
        responses: Seq<ResponseView>,
        response: ResponseView,
    )
        requires
            before.holds(responses),
            after.chunk_seconds() == before.chunk_seconds(),
            after.count() == before.count() + 1,
            after.segments() == before.segments() + shifted(
                segments_of(response),
                before.count() * chunk_millis(before.chunk_seconds()),
            ),
            after.text() == before.text() + response.text + " "@,
            after.duration() == before.duration() + response.duration_ms,
            after.previous() == Some(response.text),
        ensures
            after.holds(responses.push(response)),
    {
        let longer = responses.push(response);
        assert(longer.drop_last() == responses);
        assert(longer.last() == response);
    }
}

/// The length of a row of answers is no less than that of its beginning.
proof fn lemma_total_duration_prefix(responses: Seq<ResponseView>, n: int)
    requires
        0 <= n <= responses.len(),
    ensures
        total_duration(responses.take(n)) <= total_duration(responses),
    decreases responses.len() - n,
{
    if n < responses.len() {
        lemma_total_duration_prefix(responses, n + 1);
        assert(responses.take(n + 1).drop_last() == responses.take(n));
    } else {
        assert(responses.take(n) == responses);
    }
}

/// The segments of a row of answers begin with those of its beginning.
proof fn lemma_joined_segments_prefix(responses: Seq<ResponseView>, n: int, chunk_ms: nat)
    requires
        0 <= n <= responses.len(),
    ensures
        joined_segments(responses.take(n), chunk_ms).len() <= joined_segments(
            responses,
            chunk_ms,
        ).len(),
        joined_segments(responses.take(n), chunk_ms) == joined_segments(responses, chunk_ms).take(
            joined_segments(responses.take(n), chunk_ms).len() as int,
        ),
    decreases responses.len() - n,
{
    if n < responses.len() {
        lemma_joined_segments_prefix(responses, n + 1, chunk_ms);
        assert(responses.take(n + 1).drop_last() == responses.take(n));
    } else {
        assert(responses.take(n) == responses);
    }
}

/// Puts the transcript of a recording together from the answers for its
/// chunks, given in the order of the chunks. Fails where a time of the
/// transcript cannot be written in 64 bits.
pub fn assemble(responses: &Vec<TranscribeResponse>, chunk_duration_seconds: u16) -> (r: Result<
    TranscribeResponse,
    Error,
>)
    ensures
        match r {
            Ok(t) => {
                &&& assembles(response_views(responses@), chunk_millis(chunk_duration_seconds))
                &&& t@ == assembled(
                    response_views(responses@),
                    chunk_millis(chunk_duration_seconds),
                )
            },
            Err(e) => {
                &&& !assembles(response_views(responses@), chunk_millis(chunk_duration_seconds))
                &&& e matches Error::TranscriptionError(m)
                &&& m@ == TIME_OUT_OF_RANGE@
            },
        },
{
    let ghost all = response_views(responses@);
    let ghost chunk_ms = chunk_millis(chunk_duration_seconds);
    let mut assembler = TranscriptAssembler::new(chunk_duration_seconds);
    let mut i: usize = 0;
    assert(all.take(0) == Seq::<ResponseView>::empty());
    while i < responses.len()
        invariant
            i <= responses.len(),
            all == response_views(responses@),
            chunk_ms == chunk_millis(chunk_duration_seconds),
            assembler.chunk_seconds() == chunk_duration_seconds,
            assembler.holds(all.take(i as int)),
        decreases responses.len() - i,
    {
        let ghost before = assembler;
        let ghost prefix = all.take(i as int);
        proof {
            assert(all.take(i + 1) == prefix.push(responses@[i as int]@));
            assert(all.take(i + 1).drop_last() == prefix);
            lemma_total_duration_prefix(all, i + 1);
            lemma_joined_segments_prefix(all, i + 1, chunk_ms);
        }
        match assembler.push(&responses[i]) {
            Ok(_) => {
                proof {
                    TranscriptAssembler::lemma_push_holds(
                        before,
                        assembler,
                        prefix,
                        responses@[i as int]@,
                    );
                }
            },
            Err(e) => {
                proof {
                    let longer = all.take(i + 1);
                    let moved = shifted(segments_of(longer.last()), i as nat * chunk_ms);
                    let joined = joined_segments(longer, chunk_ms);
                    assert(joined == joined_segments(prefix, chunk_ms) + moved);
                    if !segments_fit(moved) {
                        let k = choose|k: int|
                            0 <= k < moved.len() && !((#[trigger] moved[k]).start_ms <= u64::MAX
                                && moved[k].end_ms <= u64::MAX);
                        let at = joined_segments(prefix, chunk_ms).len() + k;
                        assert(joined[at] == moved[k]);
                        assert(joined_segments(all, chunk_ms)[at] == joined[at]);
                    }
                }
                return Err(e);
            },
        }
        i += 1;
    }
    assert(all.take(responses.len() as int) == all);
    Ok(assembler.finish())
}

/// `slice::sort` of std on strings: the names stay the same, each as often as
/// before, and stand in ascending order afterwards. Std orders strings by
/// their bytes, which is the order of their code points.
#[verifier::external_body]
fn sort_names(names: &mut Vec<String>)
    ensures
        string_views(final(names)@).to_multiset() == string_views(old(names)@).to_multiset(),
        sorted_by(string_views(final(names)@), text_order()),
{
    names.sort();
}

/// Names in the order in which their chunks are transcribed.
pub open spec fn in_name_order(names: Seq<Seq<char>>) -> Seq<Seq<char>> {
    names.sort_by(text_order())
}

/// The names in order are the names that were given, each as often as it was
/// given, and none stands before a smaller one.
pub proof fn lemma_name_order(names: Seq<Seq<char>>)
    ensures
        in_name_order(names).to_multiset() == names.to_multiset(),
        in_name_order(names).len() == names.len(),
        sorted_by(in_name_order(names), text_order()),
{
    lemma_text_order_total();
    names.lemma_sort_by_ensures(text_order());
    names.to_multiset_ensures();
    names.sort_by(text_order()).to_multiset_ensures();
}

/// Puts the files of a chunk directory in the order in which they are
/// transcribed: the order of their names.
pub fn order_chunks(listing: Vec<String>) -> (r: Vec<String>)
    ensures
        string_views(r@) == in_name_order(string_views(listing@)),
{
    let mut names = listing;
    sort_names(&mut names);
    proof {
        lemma_text_order_total();
        lemma_name_order(string_views(listing@));
        lemma_sorted_unique(
            string_views(names@),
            in_name_order(string_views(listing@)),
            text_order(),
        );
    }
    names
}

/// The text of the failure when an audio file has no name to call its chunks
/// by.
pub const INVALID_FILE_PATH: &'static str = "Invalid file path";

/// The text of the failure when a transcription is handed what it did not ask
/// for.
pub const UNEXPECTED_EVENT: &'static str = "unexpected event";

/// The pattern by which the chunks of an audio file are named: in the chunk
/// directory, the name of the file without its extension, an underscore, the
/// number of the chunk in three digits, and `.mp3`. `None` for a file
/// without a name.
pub open spec fn chunk_pattern(chunks_dir: Seq<char>, file_path: Seq<char>) -> Option<Seq<char>> {
    match crate::text::file_stem(file_path) {
        Some(stem) => Some(chunks_dir + "/"@ + stem + "_%03d.mp3"@),
        None => None,
    }
}

/// The pattern by which the chunks of an audio file are named.
pub fn chunk_pattern_of(chunks_dir: &str, file_path: &str) -> (r: Option<String>)
    ensures
        text_of(r) == chunk_pattern(chunks_dir@, file_path@),
{
    match crate::text::file_stem_of(file_path) {
        Some(stem) => {
            let mut pattern = String::from_str(chunks_dir);
            pattern.append("/");
            pattern.append(stem.as_str());
            pattern.append("_%03d.mp3");
            Some(pattern)
        },
        None => None,
    }
}

/// Where a transcription stands.
#[derive(Clone, Copy, Debug, PartialEq, Eq, Structural)]
pub enum TranscribePhase {
    /// The chunk directory is being listed for the first time.
    Listing,
    /// The audio file is being cut into chunks.
    Splitting,
    /// The chunk directory is being listed after the cut.
    Relisting,
    /// A file is with the backend.
    Requesting,
    /// The transcript is there.
    Finished,
    /// The transcription has failed.
    Failed,
}

/// What a transcription asks of its surroundings next, or how it ended.
#[derive(Debug, PartialEq)]
pub enum TranscribeStep {
    /// List the files of the chunk directory.
    ListChunks { dir: String },
    /// Cut the audio file into chunks of so many seconds, named by the pattern.
    SplitAudio { file: String, seconds: u16, pattern: String },
    /// Have the backend transcribe a file, with the text before it as a hint.
    Request { file: String, prompt: Option<String> },
    /// The transcript.
    Done(TranscribeResponse),
    /// The failure.
    Failed(Error),
}

/// What the surroundings hand back to a transcription.
pub enum TranscribeEvent {
    /// The files of the chunk directory; none where there is no such directory.
    Listed(Vec<String>),
    /// How the cut went.
    SplitDone(Result<(), String>),
    /// What the backend answered.
    Answered(Result<TranscribeResponse, String>),
}

/// The transcription of one recording: it asks for one thing at a time and
/// is told how that went.
pub struct Transcription {
    input: AudioInput,
    phase: TranscribePhase,
    chunks: Vec<String>,
    assembler: TranscriptAssembler,
}

/// The length of the chunks that an input asks for; 0 for a whole file.
pub open spec fn input_seconds(input: AudioInputView) -> u16 {
    match input {
        AudioInputView::Chunked { chunk_duration_seconds, .. } => chunk_duration_seconds,
        AudioInputView::File(_) => 0,
    }
}

/// The directory in which the chunks of an input are kept; the empty text for
/// a whole file.
pub open spec fn input_dir(input: AudioInputView) -> Seq<char> {
    match input {
        AudioInputView::Chunked { chunks_dir_path, .. } => chunks_dir_path,
        AudioInputView::File(_) => Seq::empty(),
    }
}

/// The audio file of an input.
pub open spec fn input_file(input: AudioInputView) -> Seq<char> {
    match input {
        AudioInputView::Chunked { file_path, .. } => file_path,
        AudioInputView::File(path) => path,
    }
}

impl Transcription {
    /// What is transcribed.
    pub closed spec fn input(&self) -> AudioInputView {
        self.input@
    }

    /// Where the transcription stands.
    pub closed spec fn phase(&self) -> TranscribePhase {
        self.phase
    }

    /// The files to transcribe, in their order.
    pub closed spec fn chunks(&self) -> Seq<Seq<char>> {
        string_views(self.chunks@)
    }

    /// What has been put together so far.
    pub closed spec fn assembler(&self) -> TranscriptAssembler {
        self.assembler
    }

    /// Whether this is a transcription of `input` at its start, and `step` what
    /// it asks first: for a whole file, that the file be transcribed without a
    /// hint; for a file in chunks, the files of the chunk directory.
    pub open spec fn starts(&self, input: AudioInputView, step: TranscribeStep) -> bool {
        &&& self.input() == input
        &&& self.assembler().chunk_seconds() == input_seconds(input)
        &&& self.assembler().holds(Seq::empty())
        &&& match input {
            AudioInputView::File(path) => {
                &&& self.phase() == TranscribePhase::Requesting
                &&& self.chunks() == seq![path]
                &&& step matches TranscribeStep::Request { file, prompt }
                &&& file@ == path
                &&& prompt is None
            },
            AudioInputView::Chunked { chunks_dir_path, .. } => {
                &&& self.phase() == TranscribePhase::Listing
                &&& self.chunks() == Seq::<Seq<char>>::empty()
                &&& step matches TranscribeStep::ListChunks { dir }
                &&& dir@ == chunks_dir_path
            },
        }
    }

    /// Begins the transcription of `input`.
    pub fn start(input: AudioInput) -> (r: (Transcription, TranscribeStep))
        ensures
            r.0.starts(input@, r.1),
    {
        match &input {
            AudioInput::File(path) => {
                let mut chunks: Vec<String> = Vec::new();
                chunks.push(path.clone());
                let step = TranscribeStep::Request { file: path.clone(), prompt: None };
                let t = Transcription {
                    input,
                    phase: TranscribePhase::Requesting,
                    chunks,
                    assembler: TranscriptAssembler::new(0),
                };
                assert(t.chunks() == seq![path@]);
                (t, step)
            },
            AudioInput::Chunked { chunk_duration_seconds, chunks_dir_path, file_path: _ } => {
                let step = TranscribeStep::ListChunks { dir: chunks_dir_path.clone() };
                let assembler = TranscriptAssembler::new(*chunk_duration_seconds);
                let t = Transcription {
                    input,
                    phase: TranscribePhase::Listing,
                    chunks: Vec::new(),
                    assembler,
                };
                assert(t.chunks() == Seq::<Seq<char>>::empty());
                (t, step)
            },
        }
    }

    /// Whether `step` is a failure of the transcription with the text `m`.
    pub open spec fn fails_with(step: TranscribeStep, m: Seq<char>) -> bool {
        step matches TranscribeStep::Failed(Error::TranscriptionError(t)) && t@ == m
    }

    /// What a listing leads to, where one was asked for. An empty first
    /// listing has the file cut, unless the file has no name: that fails. Any
    /// other listing fixes the files to transcribe, in the order of their
    /// names: with none of them the transcript is the empty one, else the first
    /// is sent without a hint.
    pub open spec fn after_listing(
        before: Transcription,
        files: Seq<Seq<char>>,
        after: Transcription,
        step: TranscribeStep,
    ) -> bool {
        let chunk_duration_seconds = input_seconds(before.input());
        let chunks_dir_path = input_dir(before.input());
        let file_path = input_file(before.input());
        if before.phase() == TranscribePhase::Listing && files.len() == 0 {
            &&& after.chunks() == before.chunks()
            &&& after.assembler() == before.assembler()
            &&& match chunk_pattern(chunks_dir_path, file_path) {
                Some(p) => {
                    &&& after.phase() == TranscribePhase::Splitting
                    &&& step matches TranscribeStep::SplitAudio { file, seconds, pattern }
                    &&& file@ == file_path
                    &&& seconds == chunk_duration_seconds
                    &&& pattern@ == p
                },
                None => {
                    &&& after.phase() == TranscribePhase::Failed
                    &&& Self::fails_with(step, INVALID_FILE_PATH@)
                },
            }
        } else {
            &&& after.chunks() == in_name_order(files)
            &&& after.assembler() == before.assembler()
            &&& if files.len() == 0 {
                &&& after.phase() == TranscribePhase::Finished
                &&& step matches TranscribeStep::Done(t)
                &&& t@ == assembled(Seq::empty(), chunk_millis(chunk_duration_seconds))
            } else {
                &&& after.phase() == TranscribePhase::Requesting
                &&& step matches TranscribeStep::Request { file, prompt }
                &&& file@ == after.chunks()[0]
                &&& prompt is None
            }
        }
    }

    /// What an answer of the backend leads to, where one was asked for. The
    /// answer for a whole file is the transcript. The answer for a chunk is
    /// taken in, which fails where a time cannot be written; then the next
    /// file is sent with the text of this one as a hint, or, after the last,
    /// the transcript is put together.
    pub open spec fn after_answer(
        before: Transcription,
        response: TranscribeResponse,
        after: Transcription,
        step: TranscribeStep,
    ) -> bool {
        &&& after.chunks() == before.chunks()
        &&& match before.input() {
            AudioInputView::File(_) => {
                &&& after.phase() == TranscribePhase::Finished
                &&& after.assembler() == before.assembler()
                &&& step matches TranscribeStep::Done(t)
                &&& t == response
            },
            AudioInputView::Chunked { .. } => {
                let a = before.assembler();
                let b = after.assembler();
                if !a.takes(response@) {
                    &&& after.phase() == TranscribePhase::Failed
                    &&& b == a
                    &&& Self::fails_with(step, TIME_OUT_OF_RANGE@)
                } else {
                    &&& b.chunk_seconds() == a.chunk_seconds()
                    &&& b.count() == a.count() + 1
                    &&& b.segments() == a.segments() + shifted(
                        segments_of(response@),
                        a.count() * chunk_millis(a.chunk_seconds()),
                    )
                    &&& b.text() == a.text() + response@.text + " "@
                    &&& b.duration() == a.duration() + response@.duration_ms
                    &&& b.previous() == Some(response@.text)
                    &&& if b.count() < before.chunks().len() {
                        &&& after.phase() == TranscribePhase::Requesting
                        &&& step matches TranscribeStep::Request { file, prompt }
                        &&& file@ == before.chunks()[b.count() as int]
                        &&& text_of(prompt) == Some(response@.text)
                    } else {
                        &&& after.phase() == TranscribePhase::Finished
                        &&& step matches TranscribeStep::Done(t)
                        &&& t@ == (ResponseView {
                            duration_ms: b.duration(),
                            text: trimmed(b.text()),
                            segments: Some(b.segments()),
                        })
                    }
                }
            },
        }
    }

    /// Whether nothing but the phase has changed, the transcription has
    /// failed, and `step` is the failure with the text `m`.
    pub open spec fn failed_with(
        before: Transcription,
        after: Transcription,
        step: TranscribeStep,
        m: Seq<char>,
    ) -> bool {
        &&& after.phase() == TranscribePhase::Failed
        &&& after.chunks() == before.chunks()
        &&& after.assembler() == before.assembler()
        &&& Self::fails_with(step, m)
    }

    /// What an event leads to. A listing is awaited by a transcription in
    /// chunks that is listing, the outcome of the cut by one that is cutting,
    /// and an answer of the backend by any transcription that has sent a file.
    /// A failure of the cut or of the backend fails the transcription with the
    /// text that it brought. An event that is not awaited fails it too.
    pub open spec fn steps(
        before: Transcription,
        event: TranscribeEvent,
        after: Transcription,
        step: TranscribeStep,
    ) -> bool {
        let chunked = before.input() is Chunked;
        &&& after.input() == before.input()
        &&& match (before.phase(), event) {
            (TranscribePhase::Listing, TranscribeEvent::Listed(files)) => if chunked {
                Self::after_listing(before, string_views(files@), after, step)
            } else {
                Self::failed_with(before, after, step, UNEXPECTED_EVENT@)
            },
            (TranscribePhase::Relisting, TranscribeEvent::Listed(files)) => if chunked {
                Self::after_listing(before, string_views(files@), after, step)
            } else {
                Self::failed_with(before, after, step, UNEXPECTED_EVENT@)
            },
            (TranscribePhase::Splitting, TranscribeEvent::SplitDone(Ok(_))) => if chunked {
                &&& after.phase() == TranscribePhase::Relisting
                &&& after.chunks() == before.chunks()
                &&& after.assembler() == before.assembler()
                &&& step matches TranscribeStep::ListChunks { dir }
                &&& dir@ == input_dir(before.input())
            } else {
                Self::failed_with(before, after, step, UNEXPECTED_EVENT@)
            },
            (TranscribePhase::Splitting, TranscribeEvent::SplitDone(Err(m))) => Self::failed_with(
                before,
                after,
                step,
                m@,
            ),
            (TranscribePhase::Requesting, TranscribeEvent::Answered(Ok(response))) => {
                Self::after_answer(before, response, after, step)
            },
            (
                TranscribePhase::Requesting,
                TranscribeEvent::Answered(Err(m)),
            ) => Self::failed_with(before, after, step, m@),
            _ => Self::failed_with(before, after, step, UNEXPECTED_EVENT@),
        }
    }

    fn fail(&mut self, detail: String) -> (r: TranscribeStep)
        ensures
            final(self).input == old(self).input,
            final(self).chunks == old(self).chunks,
            final(self).assembler == old(self).assembler,
            final(self).phase == TranscribePhase::Failed,
            Self::fails_with(r, detail@),
    {
        self.phase = TranscribePhase::Failed;
        TranscribeStep::Failed(Error::TranscriptionError(detail))
    }

    fn listed(&mut self, files: Vec<String>) -> (r: TranscribeStep)
        requires
            old(self).phase == TranscribePhase::Listing || old(self).phase
                == TranscribePhase::Relisting,
        ensures
            final(self).input == old(self).input,
            old(self).input is Chunked ==> Self::after_listing(
                *old(self),
                string_views(files@),
                *final(self),
                r,
            ),
            old(self).input is File ==> Self::failed_with(
                *old(self),
                *final(self),
                r,
                UNEXPECTED_EVENT@,
            ),
    {
        let ghost names = string_views(files@);
        assert(names.len() == files.len());
        match &self.input {
            AudioInput::Chunked { chunk_duration_seconds, chunks_dir_path, file_path } => {
                if files.len() == 0 && self.phase == TranscribePhase::Listing {
                    match chunk_pattern_of(chunks_dir_path.as_str(), file_path.as_str()) {
                        Some(pattern) => {
                            let step = TranscribeStep::SplitAudio {
                                file: file_path.clone(),
                                seconds: *chunk_duration_seconds,
                                pattern,
                            };
                            self.phase = TranscribePhase::Splitting;
                            step
                        },
                        None => self.fail(String::from_str(INVALID_FILE_PATH)),
                    }
                } else {
                    let seconds = *chunk_duration_seconds;
                    let chunks = order_chunks(files);
                    proof {
                        lemma_name_order(names);
                    }
                    if chunks.len() == 0 {
                        let empty = TranscriptAssembler::new(seconds).finish();
                        self.chunks = chunks;
                        self.phase = TranscribePhase::Finished;
                        TranscribeStep::Done(empty)
                    } else {
                        let step = TranscribeStep::Request {
                            file: chunks[0].clone(),
                            prompt: None,
                        };
                        self.chunks = chunks;
                        self.phase = TranscribePhase::Requesting;
                        step
                    }
                }
            },
            AudioInput::File(_) => self.fail(String::from_str(UNEXPECTED_EVENT)),
        }
    }

    fn answered(&mut self, response: TranscribeResponse) -> (r: TranscribeStep)
        requires
            old(self).phase == TranscribePhase::Requesting,
        ensures
            final(self).input == old(self).input,
            Self::after_answer(*old(self), response, *final(self), r),
    {
        match &self.input {
            AudioInput::File(_) => {
                self.phase = TranscribePhase::Finished;
                TranscribeStep::Done(response)
            },
            AudioInput::Chunked { .. } => {
                match self.assembler.push(&response) {
                    Err(_) => self.fail(String::from_str(TIME_OUT_OF_RANGE)),
                    Ok(_) => {
                        let next = self.assembler.count;
                        if next < self.chunks.len() {
                            assert(self.chunks()[next as int] == self.chunks@[next as int]@);
                            TranscribeStep::Request {
                                file: self.chunks[next].clone(),
                                prompt: Some(response.text),
                            }
                        } else {
                            self.phase = TranscribePhase::Finished;
                            TranscribeStep::Done(self.assembler.finish())
                        }
                    },
                }
            },
        }
    }

    /// Tells the transcription how what it asked for went, and learns what it
    /// asks next.
    pub fn step(&mut self, event: TranscribeEvent) -> (r: TranscribeStep)
        ensures
            Self::steps(*old(self), event, *final(self), r),
    {
        match event {
            TranscribeEvent::Listed(files) => {
                if self.phase == TranscribePhase::Listing || self.phase
                    == TranscribePhase::Relisting {
                    self.listed(files)
                } else {
                    self.fail(String::from_str(UNEXPECTED_EVENT))
                }
            },
            TranscribeEvent::SplitDone(outcome) => {
                if self.phase == TranscribePhase::Splitting {
                    match outcome {
                        Ok(_) => {
                            match &self.input {
                                AudioInput::Chunked { chunks_dir_path, .. } => {
                                    let step = TranscribeStep::ListChunks {
                                        dir: chunks_dir_path.clone(),
                                    };
                                    self.phase = TranscribePhase::Relisting;
                                    step
                                },
                                AudioInput::File(_) => self.fail(
                                    String::from_str(UNEXPECTED_EVENT),
                                ),
                            }
                        },
                        Err(m) => self.fail(m),
                    }
                } else {
                    self.fail(String::from_str(UNEXPECTED_EVENT))
                }
            },
            TranscribeEvent::Answered(outcome) => {
                if self.phase == TranscribePhase::Requesting {
                    match outcome {
                        Ok(response) => self.answered(response),
                        Err(m) => self.fail(m),
                    }
                } else {
                    self.fail(String::from_str(UNEXPECTED_EVENT))
                }
            },
        }
    }
}

} // verus!
