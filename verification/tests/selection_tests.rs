use stream_pulse::domain::Stream;
use stream_pulse::selection::{contains_id, sort_filter_limit_streams};

const NOW: i64 = 1_700_000_000;

fn stream(id: &str, streamed: &str) -> Stream {
    Stream {
        video_id: id.to_string(),
        title: id.to_uppercase(),
        view_count: String::new(),
        streamed_date: streamed.to_string(),
        duration: "1:00:00".to_string(),
        summary_md: None,
        timestamp_md: None,
    }
}

fn ids(batch: &[Stream]) -> Vec<&str> {
    batch.iter().map(|s| s.video_id.as_str()).collect()
}

fn candidates() -> Vec<Stream> {
    vec![
        stream("new", "1 hour ago"),
        stream("week", "1 week ago"),
        stream("day", "3 days ago"),
        stream("year", "1 year ago"),
        stream("month", "2 months ago"),
    ]
}

#[test]
fn batch_is_oldest_first() {
    let batch = sort_filter_limit_streams(&candidates(), &vec![], 10, NOW);
    assert_eq!(ids(&batch), vec!["year", "month", "week", "day", "new"]);
    assert_eq!(batch[0], stream("year", "1 year ago"));
}

#[test]
fn batch_is_capped() {
    let batch = sort_filter_limit_streams(&candidates(), &vec![], 3, NOW);
    assert_eq!(ids(&batch), vec!["year", "month", "week"]);
    assert!(sort_filter_limit_streams(&candidates(), &vec![], 0, NOW).is_empty());
    assert_eq!(sort_filter_limit_streams(&candidates(), &vec![], 5, NOW).len(), 5);
    assert_eq!(sort_filter_limit_streams(&candidates(), &vec![], usize::MAX, NOW).len(), 5);
}

#[test]
fn stored_ids_are_left_out() {
    let existing = vec!["year".to_string(), "day".to_string(), "elsewhere".to_string()];
    let batch = sort_filter_limit_streams(&candidates(), &existing, 10, NOW);
    assert_eq!(ids(&batch), vec!["month", "week", "new"]);
    let batch = sort_filter_limit_streams(&candidates(), &existing, 2, NOW);
    assert_eq!(ids(&batch), vec!["month", "week"]);
    let all: Vec<String> = candidates().into_iter().map(|s| s.video_id).collect();
    assert!(sort_filter_limit_streams(&candidates(), &all, 10, NOW).is_empty());
    assert!(sort_filter_limit_streams(&vec![], &existing, 10, NOW).is_empty());
}

#[test]
fn equal_times_keep_their_order_and_unread_times_come_first() {
    let streams = vec![
        stream("a", "2 days ago"),
        stream("x", "some time ago"),
        stream("b", "48 hours ago"),
        stream("c", "3 days ago"),
        stream("y", ""),
        stream("d", "2 days ago"),
    ];
    let batch = sort_filter_limit_streams(&streams, &vec![], 10, NOW);
    assert_eq!(ids(&batch), vec!["x", "y", "c", "a", "b", "d"]);
}

#[test]
fn id_is_found_among_ids() {
    let list = vec!["a".to_string(), "b".to_string()];
    assert!(contains_id(&list, &"b".to_string()));
    assert!(!contains_id(&list, &"c".to_string()));
    assert!(!contains_id(&vec![], &"a".to_string()));
}
