use crate::error::Error;
use crate::json::{json_views, Json, JsonView};
use vstd::prelude::*;

verus! {

/// One item of the channel page's grid, as far as a run reads it.
#[derive(Debug, PartialEq)]
pub struct VideoRenderer {
    pub video_id: String,
    /// The texts of the runs of the title, in order.
    pub title_runs: Vec<String>,
    /// The relative publication time: absent where the item has no such
    /// field, empty inside where the field holds no text.
    pub published_time_text: Option<Option<String>>,
    /// The view count, in the same way.
    pub view_count_text: Option<Option<String>>,
    /// The running time, where the item has one.
    pub length_text: Option<String>,
    /// Whether the item is flagged as an upcoming or scheduled event.
    pub upcoming: bool,
}

/// What a [`VideoRenderer`] holds, as plain text.
pub struct VideoRendererView {
    pub video_id: Seq<char>,
    pub title_runs: Seq<Seq<char>>,
    pub published_time_text: Option<Option<Seq<char>>>,
    pub view_count_text: Option<Option<Seq<char>>>,
    pub length_text: Option<Seq<char>>,
    pub upcoming: bool,
}

/// The texts of a sequence of strings.
pub open spec fn string_views(strings: Seq<String>) -> Seq<Seq<char>> {
    Seq::new(strings.len(), |i: int| strings[i]@)
}

/// The text of an optional string.
pub open spec fn text_of(s: Option<String>) -> Option<Seq<char>> {
    match s {
        Some(t) => Some(t@),
        None => None,
    }
}

/// The text of a field that may be absent, and empty inside.
pub open spec fn text_of_nested(s: Option<Option<String>>) -> Option<Option<Seq<char>>> {
    match s {
        Some(inner) => Some(text_of(inner)),
        None => None,
    }
}

impl View for VideoRenderer {
    type V = VideoRendererView;

    open spec fn view(&self) -> VideoRendererView {
        VideoRendererView {
            video_id: self.video_id@,
            title_runs: string_views(self.title_runs@),
            published_time_text: text_of_nested(self.published_time_text),
            view_count_text: text_of_nested(self.view_count_text),
            length_text: text_of(self.length_text),
            upcoming: self.upcoming,
        }
    }
}

/// The value under a key of an object, where the object has the key and the
/// value is not null.
pub open spec fn present(v: JsonView, key: Seq<char>) -> Option<JsonView> {
    match v.member(key) {
        Some(w) => if w is Null {
            None
        } else {
            Some(w)
        },
        None => None,
    }
}

/// The text under a key of an object, where the value there is a string.
pub open spec fn text_member(v: JsonView, key: Seq<char>) -> Option<Seq<char>> {
    match v.member(key) {
        Some(w) => w.text(),
        None => None,
    }
}

/// A field that wraps an optional text: absent where the object lacks the key
/// or holds null there; else an object, whose `simpleText` is a string, null or
/// absent. `Err` for any other shape.
pub open spec fn simple_text_field(v: JsonView, key: Seq<char>) -> Result<
    Option<Option<Seq<char>>>,
    (),
> {
    match present(v, key) {
        None => Ok(None),
        Some(w) => if w is Object {
            match present(w, "simpleText"@) {
                None => Ok(Some(None)),
                Some(t) => match t.text() {
                    Some(s) => Ok(Some(Some(s))),
                    None => Err(()),
                },
            }
        } else {
            Err(())
        },
    }
}

/// The running time field: absent where the object lacks the key or holds
/// null there; else an object whose `simpleText` is a string. `Err` for any
/// other shape.
pub open spec fn length_text_field(v: JsonView) -> Result<Option<Seq<char>>, ()> {
    match present(v, "lengthText"@) {
        None => Ok(None),
        Some(w) => match text_member(w, "simpleText"@) {
            Some(s) => Ok(Some(s)),
            None => Err(()),
        },
    }
}

/// The texts of the runs of a title: each run is an object with a string
/// under `text`. `None` where a run has another shape.
pub open spec fn run_texts(runs: Seq<JsonView>) -> Option<Seq<Seq<char>>>
    decreases runs.len(),
{
    if runs.len() == 0 {
        Some(Seq::empty())
    } else {
        match (run_texts(runs.drop_last()), text_member(runs.last(), "text"@)) {
            (Some(before), Some(t)) => Some(before.push(t)),
            _ => None,
        }
    }
}

/// The title field: an object with a list of runs under `runs`.
pub open spec fn title_field(v: JsonView) -> Option<Seq<Seq<char>>> {
    match v.member("title"@) {
        Some(t) => match t.member("runs"@) {
            Some(r) => match r.items() {
                Some(runs) => run_texts(runs),
                None => None,
            },
            None => None,
        },
        None => None,
    }
}

/// The text of the failure for a field of an item that has not the expected
/// shape: this text and the field's name.
pub open spec fn malformed_field() -> Seq<char> {
    "malformed field: "@
}

/// Reads an item of the grid. The item's id and title are required; the view
/// count, the publication time and the running time may be absent; the item
/// is upcoming where `upcomingEventData` holds anything but null. `Err` names
/// the first field, in this order, that has not the expected shape: `videoId`,
/// `title`, `publishedTimeText`, `viewCountText`, `lengthText`.
pub open spec fn decoded_renderer(v: JsonView) -> Result<VideoRendererView, Seq<char>> {
    match text_member(v, "videoId"@) {
        None => Err("videoId"@),
        Some(video_id) => match title_field(v) {
            None => Err("title"@),
            Some(title_runs) => match simple_text_field(v, "publishedTimeText"@) {
                Err(_) => Err("publishedTimeText"@),
                Ok(published_time_text) => match simple_text_field(v, "viewCountText"@) {
                    Err(_) => Err("viewCountText"@),
                    Ok(view_count_text) => match length_text_field(v) {
                        Err(_) => Err("lengthText"@),
                        Ok(length_text) => Ok(
                            VideoRendererView {
                                video_id,
                                title_runs,
                                published_time_text,
                                view_count_text,
                                length_text,
                                upcoming: present(v, "upcomingEventData"@) is Some,
                            },
                        ),
                    },
                },
            },
        },
    }
}

/// The value under `key`, where it is there and not null.
fn present_member<'a>(v: &'a Json, key: &str) -> (r: Option<&'a Json>)
    ensures
        match r {
            Some(w) => present(v@, key@) == Some(w@),
            None => present(v@, key@) is None,
        },
{
    match v.get(key) {
        Some(w) => if w.is_null() {
            None
        } else {
            Some(w)
        },
        None => None,
    }
}

/// The text under `key`, where a string is there.
fn text_of_member(v: &Json, key: &str) -> (r: Option<String>)
    ensures
        text_of(r) == text_member(v@, key@),
{
    match v.get(key) {
        Some(w) => match w.as_str() {
            Some(s) => Some(String::from_str(s)),
            None => None,
        },
        None => None,
    }
}

/// Reads a field that wraps an optional text.
fn read_simple_text(v: &Json, key: &str) -> (r: Result<Option<Option<String>>, ()>)
    ensures
        match r {
            Ok(f) => simple_text_field(v@, key@) == Ok::<_, ()>(text_of_nested(f)),
            Err(_) => simple_text_field(v@, key@) is Err,
        },
{
    match present_member(v, key) {
        None => Ok(None),
        Some(w) => {
            if !w.is_object() {
                return Err(());
            }
            match present_member(w, "simpleText") {
                None => Ok(Some(None)),
                Some(t) => match t.as_str() {
                    Some(s) => Ok(Some(Some(String::from_str(s)))),
                    None => Err(()),
                },
            }
        },
    }
}

/// Reads the running time field.
fn read_length_text(v: &Json) -> (r: Result<Option<String>, ()>)
    ensures
        match r {
            Ok(f) => length_text_field(v@) == Ok::<_, ()>(text_of(f)),
            Err(_) => length_text_field(v@) is Err,
        },
{
    match present_member(v, "lengthText") {
        None => Ok(None),
        Some(w) => match text_of_member(w, "simpleText") {
            Some(s) => Ok(Some(s)),
            None => Err(()),
        },
    }
}

/// Reads the texts of the runs of a title.
fn read_run_texts(runs: &Vec<Json>) -> (r: Option<Vec<String>>)
    ensures
        match r {
            Some(t) => run_texts(json_views(runs@)) == Some(string_views(t@)),
            None => run_texts(json_views(runs@)) is None,
        },
{
    let mut out: Vec<String> = Vec::new();
    let mut i: usize = 0;
    let ghost all = json_views(runs@);
    assert(all.take(0) == Seq::<JsonView>::empty());
    while i < runs.len()
        invariant
            i <= runs.len(),
            all == json_views(runs@),
            run_texts(all.take(i as int)) == Some(string_views(out@)),
        decreases runs.len() - i,
    {
        proof {
            let prefix = all.take(i + 1);
            assert(prefix.drop_last() == all.take(i as int));
            assert(prefix.last() == runs@[i as int]@);
        }
        match text_of_member(&runs[i], "text") {
            Some(t) => {
                let ghost before = string_views(out@);
                out.push(t);
                assert(string_views(out@) == before.push(t@));
            },
            None => {
                proof {
                    lemma_run_texts_prefix(all, i + 1);
                }
                return None;
            },
        }
        i += 1;
    }
    assert(all.take(runs.len() as int) == all);
    Some(out)
}

/// Once a run has another shape, no longer list of runs can be read.
proof fn lemma_run_texts_prefix(runs: Seq<JsonView>, n: int)
    requires
        0 <= n <= runs.len(),
        run_texts(runs.take(n)) is None,
    ensures
        run_texts(runs) is None,
    decreases runs.len() - n,
{
    if n < runs.len() {
        assert(runs.take(n + 1).drop_last() == runs.take(n));
        lemma_run_texts_prefix(runs, n + 1);
    } else {
        assert(runs.take(n) == runs);
    }
}

/// Reads the title field.
fn read_title(v: &Json) -> (r: Option<Vec<String>>)
    ensures
        match r {
            Some(t) => title_field(v@) == Some(string_views(t@)),
            None => title_field(v@) is None,
        },
{
    match v.get("title") {
        Some(t) => match t.get("runs") {
            Some(r) => match r.as_array() {
                Some(runs) => read_run_texts(runs),
                None => None,
            },
            None => None,
        },
        None => None,
    }
}

impl VideoRenderer {
    /// Reads an item of the grid from its JSON object. The failure names the
    /// first field that has not the expected shape.
    pub fn from_json(v: &Json) -> (r: Result<VideoRenderer, Error>)
        ensures
            match r {
                Ok(renderer) => decoded_renderer(v@) == Ok::<_, Seq<char>>(renderer@),
                Err(e) => decoded_renderer(v@) matches Err(name) && e.is_parse(
                    malformed_field() + name,
                ),
            },
    {
        let video_id = match text_of_member(v, "videoId") {
            Some(id) => id,
            None => {
                return Err(Error::parse_field("malformed field: ", "videoId"));
            },
        };
        let title_runs = match read_title(v) {
            Some(t) => t,
            None => {
                return Err(Error::parse_field("malformed field: ", "title"));
            },
        };
        let published_time_text = match read_simple_text(v, "publishedTimeText") {
            Ok(f) => f,
            Err(_) => {
                return Err(Error::parse_field("malformed field: ", "publishedTimeText"));
            },
        };
        let view_count_text = match read_simple_text(v, "viewCountText") {
            Ok(f) => f,
            Err(_) => {
                return Err(Error::parse_field("malformed field: ", "viewCountText"));
            },
        };
        let length_text = match read_length_text(v) {
            Ok(f) => f,
            Err(_) => {
                return Err(Error::parse_field("malformed field: ", "lengthText"));
            },
        };
        let upcoming = present_member(v, "upcomingEventData").is_some();
        Ok(
            VideoRenderer {
                video_id,
                title_runs,
                published_time_text,
                view_count_text,
                length_text,
                upcoming,
            },
        )
    }
}

} // verus!
