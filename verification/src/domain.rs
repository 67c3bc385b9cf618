use crate::text::{
    chars_eq, chars_of, decimal_value, field_views, is_decimal, parse_decimal, split, split_chars,
};
use vstd::prelude::*;

verus! {

/// One recording found on the channel page, with what the run has derived for
/// it so far.
#[derive(Debug, PartialEq)]
pub struct Stream {
    /// The platform's identifier of the recording: the key by which a stored
    /// item is found again.
    pub video_id: String,
    pub title: String,
    /// The view count as the page shows it.
    pub view_count: String,
    /// When the recording was published, relative to the fetch ("3 days ago").
    pub streamed_date: String,
    /// The running time as the page shows it: `HH:MM:SS`, `MM:SS` or `SS`.
    pub duration: String,
    /// The summary of the transcript, once there is one.
    pub summary_md: Option<String>,
    /// A rendered timestamp annotation, carried through for display.
    pub timestamp_md: Option<String>,
}

/// What a [`Stream`] holds, as plain text.
pub struct StreamView {
    pub video_id: Seq<char>,
    pub title: Seq<char>,
    pub view_count: Seq<char>,
    pub streamed_date: Seq<char>,
    pub duration: Seq<char>,
    pub summary_md: Option<Seq<char>>,
    pub timestamp_md: Option<Seq<char>>,
}

/// The text of an optional string.
pub open spec fn opt_text(s: Option<String>) -> Option<Seq<char>> {
    match s {
        Some(t) => Some(t@),
        None => None,
    }
}

impl View for Stream {
    type V = StreamView;

    open spec fn view(&self) -> StreamView {
        StreamView {
            video_id: self.video_id@,
            title: self.title@,
            view_count: self.view_count@,
            streamed_date: self.streamed_date@,
            duration: self.duration@,
            summary_md: opt_text(self.summary_md),
            timestamp_md: opt_text(self.timestamp_md),
        }
    }
}

/// The views of a sequence of streams, item by item.
pub open spec fn stream_views(streams: Seq<Stream>) -> Seq<StreamView> {
    Seq::new(streams.len(), |i: int| streams[i]@)
}

/// A copy of an optional string.
pub fn clone_opt(s: &Option<String>) -> (r: Option<String>)
    ensures
        r == *s,
{
    match s {
        Some(t) => Some(t.clone()),
        None => None,
    }
}

impl Clone for Stream {
    fn clone(&self) -> (r: Self)
        ensures
            r == *self,
    {
        Stream {
            video_id: self.video_id.clone(),
            title: self.title.clone(),
            view_count: self.view_count.clone(),
            streamed_date: self.streamed_date.clone(),
            duration: self.duration.clone(),
            summary_md: clone_opt(&self.summary_md),
            timestamp_md: clone_opt(&self.timestamp_md),
        }
    }
}

impl Default for Stream {
    fn default() -> (r: Self)
        ensures
            r@ == (StreamView {
                video_id: Seq::empty(),
                title: Seq::empty(),
                view_count: Seq::empty(),
                streamed_date: Seq::empty(),
                duration: Seq::empty(),
                summary_md: None,
                timestamp_md: None,
            }),
    {
        Stream {
            video_id: String::new(),
            title: String::new(),
            view_count: String::new(),
            streamed_date: String::new(),
            duration: String::new(),
            summary_md: None,
            timestamp_md: None,
        }
    }
}

/// The length in seconds of a unit of relative time, by its name in the
/// singular or the plural. A month counts 30 days and a year 365.
pub open spec fn unit_seconds(word: Seq<char>) -> Option<nat> {
    if word == "second"@ || word == "seconds"@ {
        Some(1)
    } else if word == "minute"@ || word == "minutes"@ {
        Some(60)
    } else if word == "hour"@ || word == "hours"@ {
        Some(3600)
    } else if word == "day"@ || word == "days"@ {
        Some(86400)
    } else if word == "week"@ || word == "weeks"@ {
        Some(604800)
    } else if word == "month"@ || word == "months"@ {
        Some(2592000)
    } else if word == "year"@ || word == "years"@ {
        Some(31536000)
    } else {
        None
    }
}

/// The words of a relative time that carry its meaning: the text split at
/// single spaces, without a leading `Streamed`.
pub open spec fn time_ago_words(text: Seq<char>) -> Seq<Seq<char>> {
    let words = split(text, ' ');
    if words.len() == 4 && words[0] == "Streamed"@ {
        words.skip(1)
    } else {
        words
    }
}

/// How many seconds back a relative time points. The text is a count in
/// digits, a unit and the word `ago`, each parted from the next by one space,
/// with or without `Streamed` and a space in front: `3 days ago`,
/// `Streamed 2 weeks ago`. Any other text has no meaning.
pub open spec fn relative_seconds(text: Seq<char>) -> Option<nat> {
    let w = time_ago_words(text);
    if w.len() == 3 && is_decimal(w[0]) && unit_seconds(w[1]) is Some && w[2] == "ago"@ {
        Some(decimal_value(w[0]) * unit_seconds(w[1])->0)
    } else {
        None
    }
}

/// The point in time, in seconds since the epoch, that a relative time names
/// when it is read at `now`. `None` where the text has no meaning, and where
/// the point lies before the earliest one that can be written.
pub open spec fn derived_timestamp(text: Seq<char>, now: i64) -> Option<i64> {
    match relative_seconds(text) {
        Some(ago) => if now - ago >= i64::MIN {
            Some((now - ago) as i64)
        } else {
            None
        },
        None => None,
    }
}

/// The length of a unit of relative time in seconds.
fn unit_of(word: &Vec<char>) -> (r: Option<u64>)
    ensures
        r matches Some(u) ==> unit_seconds(word@) == Some(u as nat),
        r is None ==> unit_seconds(word@) is None,
{
    if chars_eq(word, "second") || chars_eq(word, "seconds") {
        Some(1)
    } else if chars_eq(word, "minute") || chars_eq(word, "minutes") {
        Some(60)
    } else if chars_eq(word, "hour") || chars_eq(word, "hours") {
        Some(3600)
    } else if chars_eq(word, "day") || chars_eq(word, "days") {
        Some(86400)
    } else if chars_eq(word, "week") || chars_eq(word, "weeks") {
        Some(604800)
    } else if chars_eq(word, "month") || chars_eq(word, "months") {
        Some(2592000)
    } else if chars_eq(word, "year") || chars_eq(word, "years") {
        Some(31536000)
    } else {
        None
    }
}

/// Reads a relative time at `now`, a count of seconds since the epoch.
pub fn timestamp_of(text: &str, now: i64) -> (r: Option<i64>)
    ensures
        r == derived_timestamp(text@, now),
{
    let chars = chars_of(text);
    let words = split_chars(&chars, ' ');
    let ghost all = split(text@, ' ');
    assert(field_views(words@) == all);
    assert(forall|i: int| 0 <= i < words.len() ==> (#[trigger] words[i])@ == all[i]);
    let start: usize = if words.len() == 4 && chars_eq(&words[0], "Streamed") {
        1
    } else {
        0
    };
    let ghost w = time_ago_words(text@);
    assert(w.len() == words.len() - start);
    assert(forall|i: int| 0 <= i < w.len() ==> w[i] == (#[trigger] words[i + start])@);
    if words.len() - start != 3 {
        return None;
    }
    assert(w[0] == words[start as int]@);
    assert(w[1] == words[start + 1]@);
    assert(w[2] == words[start + 2]@);
    if !chars_eq(&words[start + 2], "ago") {
        return None;
    }
    let unit: u64 = match unit_of(&words[start + 1]) {
        Some(u) => u,
        None => {
            return None;
        },
    };
    assert(1 <= unit <= 31536000);
    let room: u128 = (now as i128 - i64::MIN as i128) as u128;
    match parse_decimal(&words[start]) {
        Some(n) => {
            assert(n * unit <= u64::MAX * 31536000) by (nonlinear_arith)
                requires
                    n <= u64::MAX,
                    unit <= 31536000,
            ;
            let ago: u128 = n as u128 * unit as u128;
            if ago <= room {
                Some((now as i128 - ago as i128) as i64)
            } else {
                None
            }
        },
        None => {
            proof {
                if is_decimal(w[0]) {
                    let v = decimal_value(w[0]);
                    assert(v * unit >= v) by (nonlinear_arith)
                        requires
                            unit >= 1,
                            v >= 0,
                    ;
                }
            }
            None
        },
    }
}

impl Stream {
    /// The time at which the recording was published, in seconds since the
    /// epoch, as far as its relative time read at `now` tells.
    pub open spec fn timestamp(self, now: i64) -> Option<i64> {
        derived_timestamp(self.streamed_date@, now)
    }

    /// Reads the relative time of the recording at `now`.
    pub fn timestamp_from_time_ago(&self, now: i64) -> (r: Option<i64>)
        ensures
            r == self.timestamp(now),
    {
        timestamp_of(self.streamed_date.as_str(), now)
    }
}

} // verus!
