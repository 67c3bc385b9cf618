use stream_pulse::error::Error;
use stream_pulse::json::Json;
use stream_pulse::domain::Stream;
use stream_pulse::parser::{parse_duration_to_seconds, parse_streams, YtHtmlDocument};
use stream_pulse::types::VideoRenderer;

fn text(s: &str) -> Json {
    Json::Text(s.to_string())
}

fn object(members: Vec<(&str, Json)>) -> Json {
    Json::Object(members.into_iter().map(|(k, v)| (k.to_string(), v)).collect())
}

#[test]
fn test_successful_extraction() {
    let html = r#"
            <html>
                <head>
                    <script nonce="gZTn8MILMQFuWon1rDk2VA">
                        var ytInitialData = {"key": "value", "number": 42};
                    </script>
                </head>
                <body>
                    <p>Some content</p>
                </body>
            </html>
        "#;

    let doc = YtHtmlDocument::from(html.to_string());
    let result = doc.to_json();
    assert!(result.is_ok(), "Failed to extract JSON: {:?}", result.err());
    assert_eq!(
        result.unwrap(),
        object(vec![("key", text("value")), ("number", Json::Number("42".to_string()))])
    );
}

#[test]
fn test_extraction_with_special_characters() {
    let html = r#"
            <script nonce="gZTn8MILMQFuWon1rDk2VA">
                var ytInitialData = {
                    "key": "value with \"quotes\" and \n newline"
                };
            </script>
        "#;

    let doc = YtHtmlDocument::from(html.to_string());
    let json = doc.to_json().expect("Failed to extract JSON with special characters");
    assert_eq!(
        json.get("key").unwrap().as_str().unwrap().trim(),
        "value with \"quotes\" and \n newline"
    );
}

#[test]
fn test_extraction_with_multiple_occurrences() {
    let html = r#"
            <script nonce="gZTn8MILMQFuWon1rDk2VA">var ytInitialData = {"first": true};</script>
            <script nonce="gZTn8MILMQFuWon1rDk2VA">
                var ytInitialData = {"second": true};
            </script>
        "#;

    let doc = YtHtmlDocument::from(html.to_string());
    let json = doc.to_json().expect("Failed to extract first JSON");
    assert_eq!(json, object(vec![("first", Json::Bool(true))]));
}

#[test]
fn test_extraction_with_no_data() {
    let html = r#"
            <html>
                <body>
                    <p>No ytInitialData here</p>
                </body>
            </html>
        "#;

    let doc = YtHtmlDocument::from(html.to_string());
    let result = doc.to_json();
    assert!(result.is_err());
    assert!(matches!(result, Err(Error::ParseError(_))));
}

#[test]
fn test_extraction_with_invalid_json() {
    let html = r#"
            <script nonce="gZTn8MILMQFuWon1rDk2VA">
                var ytInitialData = {invalid: json};
            </script>
        "#;

    let doc = YtHtmlDocument::from(html.to_string());
    let result = doc.to_json();
    assert!(result.is_err());
    assert!(matches!(result, Err(Error::ParseError(_))));
}

#[test]
fn duration_of_each_shape() {
    assert_eq!(parse_duration_to_seconds("1:02:03"), Some(3723));
    assert_eq!(parse_duration_to_seconds("12:34"), Some(754));
    assert_eq!(parse_duration_to_seconds("45"), Some(45));
}

#[test]
fn empty_grid_gives_no_streams() {
    let page = object(vec![(
        "contents",
        object(vec![(
            "twoColumnBrowseResultsRenderer",
            object(vec![(
                "tabs",
                Json::Array(vec![
                    Json::Null,
                    Json::Null,
                    object(vec![(
                        "tabRenderer",
                        object(vec![(
                            "content",
                            object(vec![(
                                "richGridRenderer",
                                object(vec![("contents", Json::Array(vec![]))]),
                            )]),
                        )]),
                    )]),
                ]),
            )]),
        )]),
    )]);
    let streams = parse_streams(&page).expect("an empty grid is no failure");
    assert!(streams.is_empty());
}

fn item(
    id: &str,
    title: &str,
    views: Option<&str>,
    published: Option<&str>,
    length: Option<&str>,
    upcoming: bool,
) -> String {
    let mut fields = vec![
        format!("\"videoId\": \"{}\"", id),
        format!("\"title\": {{\"runs\": [{{\"text\": \"{}\"}}]}}", title),
    ];
    if let Some(v) = views {
        fields.push(format!("\"viewCountText\": {{\"simpleText\": \"{}\"}}", v));
    }
    if let Some(p) = published {
        fields.push(format!("\"publishedTimeText\": {{\"simpleText\": \"{}\"}}", p));
    }
    if let Some(l) = length {
        fields.push(format!("\"lengthText\": {{\"simpleText\": \"{}\"}}", l));
    }
    if upcoming {
        fields.push("\"upcomingEventData\": {\"startTime\": \"1700000000\"}".to_string());
    }
    format!(
        "{{\"richItemRenderer\": {{\"content\": {{\"videoRenderer\": {{{}}}}}}}}}",
        fields.join(", ")
    )
}

fn page(items: &[String]) -> String {
    format!(
        "<html><head><script nonce=\"n\">\n var ytInitialData = {{\"contents\": \
         {{\"twoColumnBrowseResultsRenderer\": {{\"tabs\": [{{}}, {{}}, {{\"tabRenderer\": \
         {{\"content\": {{\"richGridRenderer\": {{\"contents\": [{}]}}}}}}}}]}}}}}};\n\
         </script></head><body></body></html>",
        items.join(", ")
    )
}

fn channel_page() -> String {
    let mut items = Vec::new();
    for i in 0..12 {
        items.push(item(
            &format!("video{:02}", i),
            &format!("Sitting number {}", i),
            Some("1,234 views"),
            Some(&format!("Streamed {} days ago", i + 1)),
            Some(&format!("{}:0{}:00", 1 + i % 3, i % 10)),
            false,
        ));
    }
    items.push(item("short", "Short clip", Some("5 views"), Some("1 day ago"), Some("9:59"), false));
    items.push(item("upcoming", "Tomorrow", None, None, None, true));
    items.push(item("live", "Live now", None, None, Some("2:00:00"), false));
    items.push("{\"continuationItemRenderer\": {}}".to_string());
    page(&items)
}

fn parse_page(html: String) -> Result<Vec<Stream>, Error> {
    let json = YtHtmlDocument::new(html).to_json()?;
    parse_streams(&json)
}

#[test]
fn test_fixture_parses_streams() {
    let doc = YtHtmlDocument::new(channel_page());

    let json = doc.to_json().expect("Failed to extract ytInitialData");

    let streams = parse_streams(&json).expect("Failed to parse streams");

    assert!(!streams.is_empty(), "Fixture should contain parseable streams");
    assert!(streams.len() >= 10, "Expected at least 10 streams, got {}", streams.len());

    for stream in &streams {
        assert!(!stream.video_id.is_empty(), "video_id should not be empty");
        assert!(!stream.title.is_empty(), "title should not be empty");
        assert!(!stream.duration.is_empty(), "duration should not be empty for {}", stream.video_id);
        assert!(
            !stream.streamed_date.is_empty(),
            "streamed_date should not be empty for {}",
            stream.video_id
        );

        let parts: Vec<u64> = stream.duration.split(':').filter_map(|p| p.parse().ok()).collect();
        let secs = match parts.len() {
            3 => parts[0] * 3600 + parts[1] * 60 + parts[2],
            2 => parts[0] * 60 + parts[1],
            _ => 0,
        };
        assert!(secs >= 600, "Stream {} duration {}s should be >= 600s", stream.video_id, secs);
    }
}

#[test]
fn page_gives_the_aired_long_items_in_order() {
    let streams = parse_page(channel_page()).unwrap();
    let ids: Vec<&str> = streams.iter().map(|s| s.video_id.as_str()).collect();
    let expected: Vec<String> = (0..12).map(|i| format!("video{:02}", i)).collect();
    assert_eq!(ids, expected.iter().map(|s| s.as_str()).collect::<Vec<_>>());
    assert_eq!(streams[0].title, "Sitting number 0");
    assert_eq!(streams[0].view_count, "1,234 views");
    assert_eq!(streams[0].streamed_date, "Streamed 1 days ago");
    assert_eq!(streams[0].duration, "1:00:00");
    assert_eq!(streams[0].summary_md, None);
    assert_eq!(streams[0].timestamp_md, None);
}

#[test]
fn short_upcoming_and_unaired_items_are_left_out() {
    let html = page(&[
        item("a", "A", Some("1 view"), Some("1 day ago"), Some("9:59"), false),
        item("b", "B", Some("1 view"), Some("1 day ago"), Some("10:00"), true),
        item("c", "C", None, Some("1 day ago"), Some("10:00"), false),
        item("d", "D", Some("1 view"), None, Some("10:00"), false),
        item("e", "E", Some("1 view"), Some("1 day ago"), Some("ten minutes"), false),
        item("f", "F", Some("1 view"), Some("1 day ago"), Some("10:00"), false),
    ]);
    let streams = parse_page(html).unwrap();
    assert_eq!(streams.len(), 1);
    assert_eq!(streams[0].video_id, "f");
}

#[test]
fn duration_of_exactly_ten_minutes_is_kept() {
    let html = page(&[item("x", "X", Some("1"), Some("1 day ago"), Some("600"), false)]);
    assert_eq!(parse_page(html).unwrap().len(), 1);
    let html = page(&[item("x", "X", Some("1"), Some("1 day ago"), Some("599"), false)]);
    assert_eq!(parse_page(html).unwrap().len(), 0);
}

#[test]
fn duration_of_other_shapes_is_none() {
    assert_eq!(parse_duration_to_seconds(""), None);
    assert_eq!(parse_duration_to_seconds(":"), None);
    assert_eq!(parse_duration_to_seconds("1:"), None);
    assert_eq!(parse_duration_to_seconds(":30"), None);
    assert_eq!(parse_duration_to_seconds("1:xx:03"), None);
    assert_eq!(parse_duration_to_seconds("1:2:3:4"), None);
    assert_eq!(parse_duration_to_seconds("+5"), None);
    assert_eq!(parse_duration_to_seconds("-5"), None);
    assert_eq!(parse_duration_to_seconds(" 45"), None);
    assert_eq!(parse_duration_to_seconds("4 5"), None);
    assert_eq!(parse_duration_to_seconds("1.5"), None);
}

#[test]
fn duration_at_the_limit_of_64_bits() {
    assert_eq!(parse_duration_to_seconds("18446744073709551615"), Some(u64::MAX));
    assert_eq!(parse_duration_to_seconds("18446744073709551616"), None);
    assert_eq!(parse_duration_to_seconds("307445734561825860:15"), Some(u64::MAX));
    assert_eq!(parse_duration_to_seconds("307445734561825860:16"), None);
    assert_eq!(parse_duration_to_seconds("5124095576030431:00:15"), Some(u64::MAX));
    assert_eq!(parse_duration_to_seconds("5124095576030431:00:16"), None);
    assert_eq!(parse_duration_to_seconds("0000000000000000000000000000007"), Some(7));
    assert_eq!(parse_duration_to_seconds("00:00:00"), Some(0));
}

fn parse_error(r: Result<Vec<Stream>, Error>) -> String {
    match r {
        Err(Error::ParseError(m)) => m,
        other => panic!("expected a parse failure, got {:?}", other),
    }
}

#[test]
fn missing_path_segment_is_named() {
    let doc = object(vec![("contents", object(vec![]))]);
    assert_eq!(
        parse_error(parse_streams(&doc)),
        "missing path segment: twoColumnBrowseResultsRenderer"
    );
    assert_eq!(parse_error(parse_streams(&Json::Null)), "missing path segment: contents");
    let two_tabs = object(vec![(
        "contents",
        object(vec![(
            "twoColumnBrowseResultsRenderer",
            object(vec![("tabs", Json::Array(vec![Json::Null, Json::Null]))]),
        )]),
    )]);
    assert_eq!(parse_error(parse_streams(&two_tabs)), "missing path segment: 2");
}

#[test]
fn grid_that_is_no_list_is_a_failure() {
    let html = "<script>var ytInitialData = {\"contents\": {\"twoColumnBrowseResultsRenderer\": \
                {\"tabs\": [0, 1, {\"tabRenderer\": {\"content\": {\"richGridRenderer\": \
                {\"contents\": \"none\"}}}}]}}};</script>";
    assert_eq!(parse_error(parse_page(html.to_string())), "not a list: contents");
}

#[test]
fn page_without_data_fails_with_its_text() {
    let r = parse_page("<html><body>No ytInitialData here</body></html>".to_string());
    assert_eq!(parse_error(r), "Failed to extract ytInitialData from the page's script tag");
}

#[test]
fn item_without_title_run_is_a_failure() {
    let node = "{\"richItemRenderer\": {\"content\": {\"videoRenderer\": {\"videoId\": \"v\", \
                \"title\": {\"runs\": []}, \"viewCountText\": {\"simpleText\": \"1\"}, \
                \"publishedTimeText\": {\"simpleText\": \"1 day ago\"}, \
                \"lengthText\": {\"simpleText\": \"10:00\"}}}}}";
    let r = parse_page(page(&[node.to_string()]));
    assert_eq!(parse_error(r), "Failed to get video title via ['title']['runs'][0]['text']");
}

#[test]
fn aired_item_without_length_is_a_failure() {
    let html = page(&[item("v", "V", Some("1"), Some("1 day ago"), None, false)]);
    assert_eq!(parse_error(parse_page(html)), "No value found for 'lengthText'");
}

#[test]
fn misshapen_item_names_its_field() {
    let no_id = "{\"richItemRenderer\": {\"content\": {\"videoRenderer\": {\"title\": \
                 {\"runs\": [{\"text\": \"T\"}]}}}}}";
    assert_eq!(parse_error(parse_page(page(&[no_id.to_string()]))), "malformed field: videoId");
    let no_title = "{\"richItemRenderer\": {\"content\": {\"videoRenderer\": {\"videoId\": \"v\"}}}}";
    assert_eq!(parse_error(parse_page(page(&[no_title.to_string()]))), "malformed field: title");
    let bad_views = "{\"richItemRenderer\": {\"content\": {\"videoRenderer\": {\"videoId\": \"v\", \
                     \"title\": {\"runs\": [{\"text\": \"T\"}]}, \"viewCountText\": 7}}}}";
    assert_eq!(
        parse_error(parse_page(page(&[bad_views.to_string()]))),
        "malformed field: viewCountText"
    );
}

#[test]
fn view_count_without_text_is_empty() {
    let node = "{\"richItemRenderer\": {\"content\": {\"videoRenderer\": {\"videoId\": \"v\", \
                \"title\": {\"runs\": [{\"text\": \"T\"}, {\"text\": \"U\"}]}, \
                \"viewCountText\": {}, \"publishedTimeText\": {\"simpleText\": null}, \
                \"upcomingEventData\": null, \"lengthText\": {\"simpleText\": \"10:00\"}}}}}";
    let streams = parse_page(page(&[node.to_string()])).unwrap();
    assert_eq!(streams.len(), 1);
    assert_eq!(streams[0].title, "T");
    assert_eq!(streams[0].view_count, "");
    assert_eq!(streams[0].streamed_date, "");
}

#[test]
fn stream_is_made_of_a_renderer() {
    let renderer = VideoRenderer {
        video_id: "abc".to_string(),
        title_runs: vec!["First".to_string(), "Second".to_string()],
        published_time_text: Some(Some("2 weeks ago".to_string())),
        view_count_text: None,
        length_text: Some("1:00:00".to_string()),
        upcoming: false,
    };
    let stream = Stream::try_from(renderer).unwrap();
    assert_eq!(
        stream,
        Stream {
            video_id: "abc".to_string(),
            title: "First".to_string(),
            view_count: String::new(),
            streamed_date: "2 weeks ago".to_string(),
            duration: "1:00:00".to_string(),
            summary_md: None,
            timestamp_md: None,
        }
    );
}

#[test]
fn json_numbers_keep_their_text_and_keys_their_order() {
    let doc = YtHtmlDocument::new(
        "<script>var ytInitialData = {\"b\": [1, -2, 3.5, null], \"a\": {\"x\": false}};</script>"
            .to_string(),
    );
    let json = doc.to_json().unwrap();
    assert_eq!(
        json,
        object(vec![
            ("a", object(vec![("x", Json::Bool(false))])),
            (
                "b",
                Json::Array(vec![
                    Json::Number("1".to_string()),
                    Json::Number("-2".to_string()),
                    Json::Number("3.5".to_string()),
                    Json::Null,
                ])
            ),
        ])
    );
    assert_eq!(json.child("b").unwrap().child("1"), Some(&Json::Number("-2".to_string())));
    assert_eq!(json.child("b").unwrap().child("4"), None);
    assert_eq!(json.child("b").unwrap().child("x"), None);
    assert_eq!(json.get("a").unwrap().at(0), None);
    let path = vec!["a", "x"];
    assert_eq!(json.walk(&path), Ok(&Json::Bool(false)));
    let path = vec!["a", "y", "z"];
    assert_eq!(json.walk(&path), Err(1));
}

#[test]
fn document_hands_out_its_text() {
    let doc = YtHtmlDocument::from("<html></html>".to_string());
    assert_eq!(doc.as_str(), "<html></html>");
    assert_eq!(doc.len(), 13);
    assert!(doc.starts_with("<html>"));
    assert_eq!(YtHtmlDocument::new("x".to_string()).0, "x");
}
