use crate::domain::{clone_opt, Stream};
use vstd::prelude::*;

verus! {

/// Why a stream was left out of an insert.
#[derive(Debug, PartialEq)]
pub enum InsertFailReason {
    /// Its relative publication time could not be read.
    InvalidStreamedDate { malformed_date: String },
}

/// A stream that was left out of an insert, and why.
#[derive(Debug, PartialEq)]
pub struct FailedInsert {
    pub video_id: String,
    pub reason: InsertFailReason,
}

/// The outcome of an insert of many streams.
#[derive(Debug, PartialEq)]
pub struct BulkInsertResult {
    /// The number of rows that the store took.
    pub successful_inserts: usize,
    /// The streams that were never handed to the store.
    pub failed_inserts: Vec<FailedInsert>,
}

/// What is stored of one stream.
#[derive(Debug, PartialEq)]
pub struct InsertRow {
    pub video_id: String,
    pub title: String,
    pub view_count: String,
    /// The publication time in seconds since the epoch.
    pub stream_timestamp: i64,
    pub duration: String,
    pub summary_md: Option<String>,
    pub timestamp_md: Option<String>,
}

/// The rows of an insert, column by column.
#[derive(Debug, PartialEq)]
pub struct InsertColumns {
    pub video_ids: Vec<String>,
    pub titles: Vec<String>,
    pub view_counts: Vec<String>,
    pub stream_timestamps: Vec<i64>,
    pub durations: Vec<String>,
    pub summaries: Vec<Option<String>>,
    pub timestamp_mds: Vec<Option<String>>,
}

/// An insert of many streams, made ready: the rows to hand to the store and
/// the streams that are left out.
#[derive(Debug, PartialEq)]
pub struct BulkInsertPlan {
    pub rows: Vec<InsertRow>,
    pub failed_inserts: Vec<FailedInsert>,
}

/// Whether the publication time of a stream can be read at `now`.
pub open spec fn dated(now: i64) -> spec_fn(Stream) -> bool {
    |s: Stream| s.timestamp(now) is Some
}

/// Whether the publication time of a stream cannot be read at `now`.
pub open spec fn undated(now: i64) -> spec_fn(Stream) -> bool {
    |s: Stream| s.timestamp(now) is None
}

/// The row that stores a stream whose publication time can be read.
pub open spec fn row_of(now: i64) -> spec_fn(Stream) -> InsertRow {
    |s: Stream|
        InsertRow {
            video_id: s.video_id,
            title: s.title,
            view_count: s.view_count,
            stream_timestamp: s.timestamp(now)->0,
            duration: s.duration,
            summary_md: s.summary_md,
            timestamp_md: s.timestamp_md,
        }
}

/// The record of a stream that is left out for its publication time.
pub open spec fn failure_of() -> spec_fn(Stream) -> FailedInsert {
    |s: Stream|
        FailedInsert {
            video_id: s.video_id,
            reason: InsertFailReason::InvalidStreamedDate { malformed_date: s.streamed_date },
        }
}

/// Parts the streams of an insert: those whose publication time can be read at
/// `now` become rows, in their order; the others are recorded as left out, in
/// their order, each with the text that could not be read.
pub fn plan_bulk_insert(streams: &Vec<Stream>, now: i64) -> (plan: BulkInsertPlan)
    ensures
        plan.rows@ == streams@.filter(dated(now)).map_values(row_of(now)),
        plan.failed_inserts@ == streams@.filter(undated(now)).map_values(failure_of()),
{
    let mut rows: Vec<InsertRow> = Vec::new();
    let mut failed: Vec<FailedInsert> = Vec::new();
    let mut i: usize = 0;
    proof {
        assert(streams@.take(0) == Seq::<Stream>::empty());
        reveal(Seq::filter);
    }
    while i < streams.len()
        invariant
            i <= streams.len(),
            rows@ == streams@.take(i as int).filter(dated(now)).map_values(row_of(now)),
            failed@ == streams@.take(i as int).filter(undated(now)).map_values(failure_of()),
        decreases streams.len() - i,
    {
        let stream = &streams[i];
        proof {
            let before = streams@.take(i as int);
            assert(streams@.take(i + 1) == before.push(*stream));
            before.lemma_filter_push(*stream, dated(now));
            before.lemma_filter_push(*stream, undated(now));
            let kept = before.filter(dated(now));
            let left = before.filter(undated(now));
            assert(kept.push(*stream).map_values(row_of(now)) == kept.map_values(
                row_of(now),
            ).push(row_of(now)(*stream)));
            assert(left.push(*stream).map_values(failure_of()) == left.map_values(
                failure_of(),
            ).push(failure_of()(*stream)));
        }
        match stream.timestamp_from_time_ago(now) {
            Some(timestamp) => {
                rows.push(
                    InsertRow {
                        video_id: stream.video_id.clone(),
                        title: stream.title.clone(),
                        view_count: stream.view_count.clone(),
                        stream_timestamp: timestamp,
                        duration: stream.duration.clone(),
                        summary_md: clone_opt(&stream.summary_md),
                        timestamp_md: clone_opt(&stream.timestamp_md),
                    },
                );
            },
            None => {
                failed.push(
                    FailedInsert {
                        video_id: stream.video_id.clone(),
                        reason: InsertFailReason::InvalidStreamedDate {
                            malformed_date: stream.streamed_date.clone(),
                        },
                    },
                );
            },
        }
        i += 1;
    }
    assert(streams@.take(streams.len() as int) == streams@);
    BulkInsertPlan { rows, failed_inserts: failed }
}

impl BulkInsertPlan {
    /// The rows of the plan as columns: each column holds, at every index, the
    /// field of the row at that index.
    pub fn columns(&self) -> (c: InsertColumns)
        ensures
            c.video_ids@ == self.rows@.map_values(|r: InsertRow| r.video_id),
            c.titles@ == self.rows@.map_values(|r: InsertRow| r.title),
            c.view_counts@ == self.rows@.map_values(|r: InsertRow| r.view_count),
            c.stream_timestamps@ == self.rows@.map_values(|r: InsertRow| r.stream_timestamp),
            c.durations@ == self.rows@.map_values(|r: InsertRow| r.duration),
            c.summaries@ == self.rows@.map_values(|r: InsertRow| r.summary_md),
            c.timestamp_mds@ == self.rows@.map_values(|r: InsertRow| r.timestamp_md),
    {
        let mut c = InsertColumns {
            video_ids: Vec::new(),
            titles: Vec::new(),
            view_counts: Vec::new(),
            stream_timestamps: Vec::new(),
            durations: Vec::new(),
            summaries: Vec::new(),
            timestamp_mds: Vec::new(),
        };
        let mut i: usize = 0;
        while i < self.rows.len()
            invariant
                i <= self.rows.len(),
                c.video_ids@.len() == i,
                c.titles@.len() == i,
                c.view_counts@.len() == i,
                c.stream_timestamps@.len() == i,
                c.durations@.len() == i,
                c.summaries@.len() == i,
                c.timestamp_mds@.len() == i,
                forall|k: int|
                    0 <= k < i ==> {
                        &&& c.video_ids@[k] == (#[trigger] self.rows@[k]).video_id
                        &&& c.titles@[k] == self.rows@[k].title
                        &&& c.view_counts@[k] == self.rows@[k].view_count
                        &&& c.stream_timestamps@[k] == self.rows@[k].stream_timestamp
                        &&& c.durations@[k] == self.rows@[k].duration
                        &&& c.summaries@[k] == self.rows@[k].summary_md
                        &&& c.timestamp_mds@[k] == self.rows@[k].timestamp_md
                    },
            decreases self.rows.len() - i,
        {
            let row = &self.rows[i];
            c.video_ids.push(row.video_id.clone());
            c.titles.push(row.title.clone());
            c.view_counts.push(row.view_count.clone());
            c.stream_timestamps.push(row.stream_timestamp);
            c.durations.push(row.duration.clone());
            c.summaries.push(clone_opt(&row.summary_md));
            c.timestamp_mds.push(clone_opt(&row.timestamp_md));
            i += 1;
        }
        c
    }

    /// The outcome of the insert once the store has said how many rows it took.
    pub fn finish(self, rows_taken: usize) -> (r: BulkInsertResult)
        ensures
            r.successful_inserts == rows_taken,
            r.failed_inserts == self.failed_inserts,
    {
        BulkInsertResult { successful_inserts: rows_taken, failed_inserts: self.failed_inserts }
    }
}

} // verus!
