use crate::domain::{opt_text, stream_views, Stream, StreamView};
use crate::error::Error;
use crate::json::{json_document, json_views, parse_json, texts, walk, Json, JsonView, Walk};
use crate::text::{
    chars_of, decimal_value, field_views, is_decimal, lemma_split_nonempty, parse_decimal, split,
    split_chars,
};
use crate::types::{decoded_renderer, malformed_field, VideoRenderer, VideoRendererView};
use vstd::prelude::*;

verus! {

/// The pattern that finds the page's data: a script block that assigns a JSON
/// object to `ytInitialData`, the object being the first group.
pub const YT_INITIAL_DATA_PATTERN: &'static str =
    r"(?s)<script[^>]*>\s*var\s+ytInitialData\s*=\s*(\{.*?\});\s*</script>";

/// The text of the failure when a page holds no data that can be read.
pub const NO_INITIAL_DATA: &'static str =
    "Failed to extract ytInitialData from the page's script tag";

/// The text of the failure when an item has no title.
pub const NO_TITLE: &'static str = "Failed to get video title via ['title']['runs'][0]['text']";

/// The text of the failure when an item has no running time.
pub const NO_LENGTH_TEXT: &'static str = "No value found for 'lengthText'";

/// The shortest recording that a run takes up, in seconds.
pub const MIN_DURATION_SECONDS: u64 = 600;

/// The seconds that a running time names: one to three fields parted by
/// colons, each a nonempty run of digits, read as seconds, as minutes and
/// seconds, or as hours, minutes and seconds. Any other text names none.
pub open spec fn duration_seconds(text: Seq<char>) -> Option<nat> {
    let f = split(text, ':');
    if f.len() == 1 && is_decimal(f[0]) {
        Some(decimal_value(f[0]))
    } else if f.len() == 2 && is_decimal(f[0]) && is_decimal(f[1]) {
        Some(decimal_value(f[0]) * 60 + decimal_value(f[1]))
    } else if f.len() == 3 && is_decimal(f[0]) && is_decimal(f[1]) && is_decimal(f[2]) {
        Some(decimal_value(f[0]) * 3600 + decimal_value(f[1]) * 60 + decimal_value(f[2]))
    } else {
        None
    }
}

/// The seconds that a running time names, where they fit in 64 bits.
pub open spec fn parsed_duration(text: Seq<char>) -> Option<u64> {
    match duration_seconds(text) {
        Some(n) => if n <= u64::MAX {
            Some(n as u64)
        } else {
            None
        },
        None => None,
    }
}

/// Reads a running time as a count of seconds.
pub fn parse_duration_to_seconds(duration_str: &str) -> (r: Option<u64>)
    ensures
        r == parsed_duration(duration_str@),
{
    let chars = chars_of(duration_str);
    let fields = split_chars(&chars, ':');
    let ghost f = split(duration_str@, ':');
    assert(field_views(fields@) == f);
    assert(forall|i: int| 0 <= i < fields.len() ==> (#[trigger] fields[i])@ == f[i]);
    if fields.len() == 0 || fields.len() > 3 {
        proof {
            lemma_split_nonempty(duration_str@, ':');
        }
        return None;
    }
    let mut total: u128 = 0;
    let mut i: usize = 0;
    let n = fields.len();
    while i < n
        invariant
            i <= n,
            n == fields.len(),
            1 <= n <= 3,
            f == split(duration_str@, ':'),
            f.len() == n,
            forall|k: int| 0 <= k < n ==> (#[trigger] fields[k])@ == f[k],
            forall|k: int| 0 <= k < i ==> is_decimal(#[trigger] f[k]),
            forall|k: int| 0 <= k < i ==> decimal_value(#[trigger] f[k]) <= u64::MAX,
            i == 0 ==> total == 0,
            i == 1 ==> total == decimal_value(f[0]),
            i == 2 ==> total == decimal_value(f[0]) * 60 + decimal_value(f[1]),
            i == 3 ==> total == decimal_value(f[0]) * 3600 + decimal_value(f[1]) * 60
                + decimal_value(f[2]),
        decreases n - i,
    {
        match parse_decimal(&fields[i]) {
            Some(v) => {
                total = total * 60 + v as u128;
            },
            None => {
                assert(fields[i as int]@ == f[i as int]);
                return None;
            },
        }
        i += 1;
    }
    if total <= u64::MAX as u128 {
        Some(total as u64)
    } else {
        None
    }
}

/// The text of a field that may be absent and may be empty inside, or the
/// empty text.
pub open spec fn text_or_empty(field: Option<Option<Seq<char>>>) -> Seq<char> {
    match field {
        Some(Some(t)) => t,
        _ => Seq::empty(),
    }
}

/// The stream that an item of the grid describes. The title is the text of
/// the first run, and an item without a run has none; an item without a
/// running time has none either. The view count and the publication time are
/// the empty text where the item holds none.
pub open spec fn stream_of(r: VideoRendererView) -> Result<StreamView, Seq<char>> {
    if r.title_runs.len() == 0 {
        Err(NO_TITLE@)
    } else {
        match r.length_text {
            None => Err(NO_LENGTH_TEXT@),
            Some(duration) => Ok(
                StreamView {
                    video_id: r.video_id,
                    title: r.title_runs[0],
                    view_count: text_or_empty(r.view_count_text),
                    streamed_date: text_or_empty(r.published_time_text),
                    duration,
                    summary_md: None,
                    timestamp_md: None,
                },
            ),
        }
    }
}

/// The text of a field, or the empty text.
fn take_text_or_empty(field: Option<Option<String>>) -> (r: String)
    ensures
        r@ == text_or_empty(crate::types::text_of_nested(field)),
{
    match field {
        Some(Some(t)) => t,
        _ => String::new(),
    }
}

impl Stream {
    /// Makes a stream of an item of the grid.
    pub fn try_from(video_renderer: VideoRenderer) -> (r: Result<Stream, Error>)
        ensures
            match r {
                Ok(s) => stream_of(video_renderer@) == Ok::<_, Seq<char>>(s@),
                Err(e) => stream_of(video_renderer@) matches Err(m) && e.is_parse(m),
            },
    {
        let VideoRenderer {
            video_id,
            title_runs,
            published_time_text,
            view_count_text,
            length_text,
            upcoming: _,
        } = video_renderer;
        if title_runs.len() == 0 {
            return Err(Error::parse(NO_TITLE));
        }
        let title = title_runs[0].clone();
        let view_count = take_text_or_empty(view_count_text);
        let streamed_date = take_text_or_empty(published_time_text);
        let duration = match length_text {
            Some(d) => d,
            None => {
                return Err(Error::parse(NO_LENGTH_TEXT));
            },
        };
        Ok(
            Stream {
                video_id,
                title,
                view_count,
                streamed_date,
                duration,
                summary_md: None,
                timestamp_md: None,
            },
        )
    }
}

/// The way from the page's data down to the list of items of the grid.
pub open spec fn grid_path() -> Seq<Seq<char>> {
    seq![
        "contents"@,
        "twoColumnBrowseResultsRenderer"@,
        "tabs"@,
        "2"@,
        "tabRenderer"@,
        "content"@,
        "richGridRenderer"@,
        "contents"@,
    ]
}

/// The way from an item of the grid down to what describes its recording.
pub open spec fn renderer_path() -> Seq<Seq<char>> {
    seq!["richItemRenderer"@, "content"@, "videoRenderer"@]
}

/// The text of the failure for a segment of the way to the grid that is not
/// there: this text and the segment.
pub open spec fn missing_segment() -> Seq<char> {
    "missing path segment: "@
}

/// The text of the failure when the way to the grid ends at a value that is no
/// list: this text and the last segment.
pub open spec fn not_a_list() -> Seq<char> {
    "not a list: "@
}

/// Whether an item is left out before a stream is made of it: it is flagged
/// as upcoming, or has no view count, or has no publication time.
pub open spec fn not_yet_aired(r: VideoRendererView) -> bool {
    r.upcoming || r.view_count_text is None || r.published_time_text is None
}

/// Whether a running time is read and is long enough.
pub open spec fn long_enough(duration: Seq<char>) -> bool {
    parsed_duration(duration) matches Some(d) && d >= MIN_DURATION_SECONDS
}

/// What a node of the grid gives: a stream, nothing, or a failure with its
/// text. A node that holds no object on the way to its recording gives
/// nothing. One that does is read, and a misshapen one fails. An item that has
/// not aired yet gives nothing. Of the others a stream is made, which can fail;
/// one whose running time is not read or is too short gives nothing.
pub open spec fn node_outcome(node: JsonView) -> Result<Option<StreamView>, Seq<char>> {
    match walk(node, renderer_path(), 0) {
        Walk::Found(v) => if v is Object {
            match decoded_renderer(v) {
                Err(name) => Err(malformed_field() + name),
                Ok(r) => if not_yet_aired(r) {
                    Ok(None)
                } else {
                    match stream_of(r) {
                        Err(m) => Err(m),
                        Ok(s) => if long_enough(s.duration) {
                            Ok(Some(s))
                        } else {
                            Ok(None)
                        },
                    }
                },
            }
        } else {
            Ok(None)
        },
        Walk::Missing(_) => Ok(None),
    }
}

/// The streams that the nodes of the grid give, in their order, or the
/// failure of the first node that fails.
pub open spec fn collected(nodes: Seq<JsonView>) -> Result<Seq<StreamView>, Seq<char>>
    decreases nodes.len(),
{
    if nodes.len() == 0 {
        Ok(Seq::empty())
    } else {
        match collected(nodes.drop_last()) {
            Err(m) => Err(m),
            Ok(before) => match node_outcome(nodes.last()) {
                Err(m) => Err(m),
                Ok(None) => Ok(before),
                Ok(Some(s)) => Ok(before.push(s)),
            },
        }
    }
}

/// The streams that the page's data describes, or the text of the failure.
/// The way to the grid is followed first: the first segment that is not there
/// fails the parse, and so does a grid that is no list.
pub open spec fn parsed_streams(doc: JsonView) -> Result<Seq<StreamView>, Seq<char>> {
    match walk(doc, grid_path(), 0) {
        Walk::Missing(at) => Err(missing_segment() + grid_path()[at]),
        Walk::Found(grid) => match grid.items() {
            None => Err(not_a_list() + grid_path().last()),
            Some(nodes) => collected(nodes),
        },
    }
}

/// The way to the grid, segment by segment.
fn grid_segments() -> (r: Vec<&'static str>)
    ensures
        texts(r@) == grid_path(),
{
    let mut path: Vec<&'static str> = Vec::new();
    path.push("contents");
    path.push("twoColumnBrowseResultsRenderer");
    path.push("tabs");
    path.push("2");
    path.push("tabRenderer");
    path.push("content");
    path.push("richGridRenderer");
    path.push("contents");
    assert(texts(path@) =~= grid_path());
    path
}

/// The way from a node to its recording, segment by segment.
fn renderer_segments() -> (r: Vec<&'static str>)
    ensures
        texts(r@) == renderer_path(),
{
    let mut path: Vec<&'static str> = Vec::new();
    path.push("richItemRenderer");
    path.push("content");
    path.push("videoRenderer");
    assert(texts(path@) =~= renderer_path());
    path
}

/// Reads one node of the grid.
fn parse_node(node: &Json, path: &Vec<&'static str>) -> (r: Result<Option<Stream>, Error>)
    requires
        texts(path@) == renderer_path(),
    ensures
        match r {
            Ok(Some(s)) => node_outcome(node@) == Ok::<_, Seq<char>>(Some(s@)),
            Ok(None) => node_outcome(node@) == Ok::<Option<StreamView>, Seq<char>>(None),
            Err(e) => node_outcome(node@) matches Err(m) && e.is_parse(m),
        },
{
    let v = match node.walk(path) {
        Ok(v) => v,
        Err(_) => {
            return Ok(None);
        },
    };
    if !v.is_object() {
        return Ok(None);
    }
    let renderer = match VideoRenderer::from_json(v) {
        Ok(r) => r,
        Err(e) => {
            return Err(e);
        },
    };
    if renderer.upcoming || renderer.view_count_text.is_none()
        || renderer.published_time_text.is_none() {
        return Ok(None);
    }
    let stream = Stream::try_from(renderer)?;
    match parse_duration_to_seconds(stream.duration.as_str()) {
        Some(d) => if d >= MIN_DURATION_SECONDS {
            Ok(Some(stream))
        } else {
            Ok(None)
        },
        None => Ok(None),
    }
}

/// Reads the streams that the page's data describes: the recordings that have
/// aired and run for ten minutes or more, in the order of the page. A page
/// whose data has not the expected shape is a failure, and names what is
/// amiss; an empty list of streams is none.
pub fn parse_streams(json: &Json) -> (r: Result<Vec<Stream>, Error>)
    ensures
        match r {
            Ok(streams) => parsed_streams(json@) == Ok::<_, Seq<char>>(stream_views(streams@)),
            Err(e) => parsed_streams(json@) matches Err(m) && e.is_parse(m),
        },
{
    let path = grid_segments();
    let grid = match json.walk(&path) {
        Ok(g) => g,
        Err(at) => {
            assert(texts(path@)[at as int] == path@[at as int]@);
            return Err(Error::parse_field("missing path segment: ", path[at]));
        },
    };
    let nodes = match grid.as_array() {
        Some(n) => n,
        None => {
            assert(texts(path@)[7] == path@[7]@);
            return Err(Error::parse_field("not a list: ", path[7]));
        },
    };
    let inner = renderer_segments();
    let mut streams: Vec<Stream> = Vec::new();
    let ghost all = json_views(nodes@);
    let mut i: usize = 0;
    assert(all.take(0) == Seq::<JsonView>::empty());
    assert(stream_views(streams@) == Seq::<StreamView>::empty());
    while i < nodes.len()
        invariant
            i <= nodes.len(),
            all == json_views(nodes@),
            parsed_streams(json@) == collected(all),
            texts(inner@) == renderer_path(),
            collected(all.take(i as int)) == Ok::<_, Seq<char>>(stream_views(streams@)),
        decreases nodes.len() - i,
    {
        proof {
            let prefix = all.take(i + 1);
            assert(prefix.drop_last() == all.take(i as int));
            assert(prefix.last() == nodes@[i as int]@);
        }
        match parse_node(&nodes[i], &inner) {
            Ok(Some(s)) => {
                let ghost before = stream_views(streams@);
                streams.push(s);
                assert(stream_views(streams@) == before.push(s@));
            },
            Ok(None) => {},
            Err(e) => {
                proof {
                    lemma_collected_prefix(all, i + 1);
                }
                return Err(e);
            },
        }
        i += 1;
    }
    assert(all.take(nodes.len() as int) == all);
    Ok(streams)
}

/// A node that gives a stream holds an item that has aired: it is not flagged
/// as upcoming, it has a view count and a publication time, and its running
/// time is read and is ten minutes or more.
pub proof fn lemma_kept_node(node: JsonView)
    requires
        node_outcome(node) matches Ok(Some(_)),
    ensures
        walk(node, renderer_path(), 0) matches Walk::Found(v) && decoded_renderer(v) matches Ok(r)
            && !r.upcoming && r.view_count_text is Some && r.published_time_text is Some
            && stream_of(r) == Ok::<_, Seq<char>>(node_outcome(node)->Ok_0->0) && long_enough(
            node_outcome(node)->Ok_0->0.duration,
        ),
{
}

/// An item that is flagged as upcoming, or has no view count, or has no
/// publication time, gives no stream; nor does one whose running time is not
/// read or is under ten minutes.
pub proof fn lemma_excluded_node(node: JsonView)
    requires
        walk(node, renderer_path(), 0) matches Walk::Found(v) && decoded_renderer(v) matches Ok(r)
            && (not_yet_aired(r) || (stream_of(r) matches Ok(s) && !long_enough(s.duration))),
    ensures
        node_outcome(node) == Ok::<Option<StreamView>, Seq<char>>(None),
{
}

/// Every stream that is read is what a node of the grid gives: the index of
/// such a node is returned.
pub proof fn lemma_collected_source(nodes: Seq<JsonView>, i: int) -> (k: int)
    requires
        collected(nodes) matches Ok(streams) && 0 <= i < streams.len(),
    ensures
        0 <= k < nodes.len(),
        node_outcome(nodes[k]) == Ok::<_, Seq<char>>(Some(collected(nodes)->Ok_0[i])),
    decreases nodes.len(),
{
    let before = collected(nodes.drop_last())->Ok_0;
    if i < before.len() {
        lemma_collected_source(nodes.drop_last(), i)
    } else {
        nodes.len() - 1
    }
}

/// Every stream that is read has aired and runs for ten minutes or more.
pub proof fn lemma_parsed_streams_qualify(doc: JsonView, i: int)
    requires
        parsed_streams(doc) matches Ok(streams) && 0 <= i < streams.len(),
    ensures
        long_enough(parsed_streams(doc)->Ok_0[i].duration),
{
    let nodes = walk(doc, grid_path(), 0)->Found_0.items()->0;
    let k = lemma_collected_source(nodes, i);
    lemma_kept_node(nodes[k]);
}

/// Once a node has failed, the failure stands whatever follows.
proof fn lemma_collected_prefix(nodes: Seq<JsonView>, n: int)
    requires
        0 <= n <= nodes.len(),
        collected(nodes.take(n)) is Err,
    ensures
        collected(nodes) == collected(nodes.take(n)),
    decreases nodes.len() - n,
{
    if n < nodes.len() {
        assert(nodes.take(n + 1).drop_last() == nodes.take(n));
        lemma_collected_prefix(nodes, n + 1);
    } else {
        assert(nodes.take(n) == nodes);
    }
}

/// The text of what a pattern's first group holds in the leftmost match of the
/// pattern in a text, as the `regex` crate finds it; `None` where the pattern
/// does not match, where the group took no part in the match, and where the
/// pattern is not one that the crate accepts.
pub uninterp spec fn regex_first_group(pattern: Seq<char>, haystack: Seq<char>) -> Option<
    Seq<char>,
>;

/// `Regex::new`, `Regex::captures`, `Captures::get(1)` and `Match::as_str` of
/// the `regex` crate, in a row: the result is a function of the pattern and
/// the text alone.
#[verifier::external_body]
fn first_group(pattern: &str, haystack: &str) -> (r: Option<String>)
    ensures
        opt_text(r) == regex_first_group(pattern@, haystack@),
{
    match regex::Regex::new(pattern) {
        Ok(re) => re.captures(haystack).and_then(|c| c.get(1)).map(|m| m.as_str().to_string()),
        Err(_) => None,
    }
}

/// The data that a page holds: the JSON document that the first group of the
/// data pattern writes. `None` for a page without a match and for one whose
/// match is no JSON document.
pub open spec fn initial_data(page: Seq<char>) -> Option<JsonView> {
    match regex_first_group(YT_INITIAL_DATA_PATTERN@, page) {
        Some(blob) => json_document(blob),
        None => None,
    }
}

/// The channel page as it was fetched.
pub struct YtHtmlDocument(pub String);

impl View for YtHtmlDocument {
    type V = Seq<char>;

    open spec fn view(&self) -> Seq<char> {
        self.0@
    }
}

impl From<String> for YtHtmlDocument {
    fn from(value: String) -> (r: Self) {
        YtHtmlDocument(value)
    }
}

impl vstd::std_specs::convert::FromSpecImpl<String> for YtHtmlDocument {
    open spec fn obeys_from_spec() -> bool {
        true
    }

    open spec fn from_spec(value: String) -> Self {
        YtHtmlDocument(value)
    }
}

impl std::ops::Deref for YtHtmlDocument {
    type Target = String;

    fn deref(&self) -> (r: &String)
        ensures
            r@ == self@,
    {
        &self.0
    }
}

impl YtHtmlDocument {
    pub fn new(doc: String) -> (r: Self)
        ensures
            r@ == doc@,
    {
        YtHtmlDocument(doc)
    }

    /// The text of the page.
    pub fn as_str(&self) -> (r: &str)
        ensures
            r@ == self@,
    {
        self.0.as_str()
    }

    /// Finds the page's data and reads it as JSON.
    pub fn to_json(&self) -> (r: Result<Json, Error>)
        ensures
            match r {
                Ok(j) => initial_data(self@) == Some(j@),
                Err(e) => initial_data(self@) is None && e.is_parse(NO_INITIAL_DATA@),
            },
    {
        let blob = match first_group(YT_INITIAL_DATA_PATTERN, self.0.as_str()) {
            Some(b) => b,
            None => {
                return Err(Error::parse(NO_INITIAL_DATA));
            },
        };
        match parse_json(blob.as_str()) {
            Some(j) => Ok(j),
            None => Err(Error::parse(NO_INITIAL_DATA)),
        }
    }
}

} // verus!
