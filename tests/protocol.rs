use file_processor::protocol::{after_metadata, content_outcome, metadata_step, MetadataReply, NextStep};

fn reply(status: u16, body: Option<&str>) -> Option<MetadataReply> {
    Some(MetadataReply { status, body: body.map(|s| s.to_string()) })
}

#[test]
fn ok_reply_with_invalid_url_fails_without_put() {
    assert_eq!(after_metadata(false, &reply(200, Some("not-a-url"))), NextStep::Complete(false));
}

#[test]
fn server_error_fails() {
    assert_eq!(after_metadata(false, &reply(500, Some("https://store.example/put/1"))), NextStep::Complete(false));
}

#[test]
fn ok_reply_with_url_goes_on_to_put() {
    let url = "https://store.example/put/1?sig=abc";
    assert_eq!(after_metadata(false, &reply(200, Some(url))), NextStep::PutContent(url.to_string()));
}

#[test]
fn missing_or_empty_body_fails() {
    assert_eq!(after_metadata(false, &reply(200, None)), NextStep::Complete(false));
    assert_eq!(after_metadata(false, &reply(200, Some(""))), NextStep::Complete(false));
}

#[test]
fn transport_failure_fails() {
    assert_eq!(after_metadata(false, &None), NextStep::Complete(false));
}

#[test]
fn relative_url_fails() {
    assert_eq!(after_metadata(false, &reply(200, Some("/upload/1"))), NextStep::Complete(false));
}

#[test]
fn directory_placeholder_always_succeeds() {
    assert_eq!(after_metadata(true, &None), NextStep::Complete(true));
    assert_eq!(after_metadata(true, &reply(500, None)), NextStep::Complete(true));
    assert_eq!(after_metadata(true, &reply(200, Some("https://x.example/"))), NextStep::Complete(true));
}

#[test]
fn metadata_step_takes_the_parse_result() {
    assert_eq!(metadata_step(false, &reply(200, Some("anything")), true), NextStep::PutContent("anything".to_string()));
    assert_eq!(metadata_step(false, &reply(200, Some("https://a.example/")), false), NextStep::Complete(false));
    assert_eq!(metadata_step(false, &reply(201, Some("https://a.example/")), true), NextStep::Complete(false));
}

#[test]
fn content_transport_decides() {
    assert!(content_outcome(true));
    assert!(!content_outcome(false));
}
