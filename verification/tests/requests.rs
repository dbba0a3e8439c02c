use update_via_github::http::{HttpCall, HttpEvent, HttpGet, HttpPayload, HttpTurn};

/// Hands the events to a request and collects the calls and the news on the way.
fn converse(
    max_size: usize,
    events: Vec<HttpEvent>,
) -> (Vec<HttpCall>, Vec<(u64, Option<u64>)>, Result<HttpPayload, String>) {
    let mut calls = vec![];
    let mut news = vec![];
    let mut get = HttpGet::new(max_size);
    for event in events {
        calls.push(get.call());
        if let Some(n) = get.progress() {
            news.push(n);
        }
        match get.next(event) {
            HttpTurn::Perform(next) => get = next,
            HttpTurn::Finished(result) => return (calls, news, result),
        }
    }
    panic!("the request is not finished");
}

fn head(status: u32, length: HttpEvent) -> Vec<HttpEvent> {
    vec![
        HttpEvent::Done,
        HttpEvent::Done,
        HttpEvent::Done,
        HttpEvent::Done,
        HttpEvent::Number(status),
        length,
    ]
}

#[test]
fn a_body_is_delivered_whole() {
    let mut events = head(200, HttpEvent::Number(5));
    events.push(HttpEvent::Number(3));
    events.push(HttpEvent::Bytes(vec![1, 2, 3]));
    events.push(HttpEvent::Number(4));
    events.push(HttpEvent::Bytes(vec![4, 5]));
    events.push(HttpEvent::Number(0));
    let (calls, news, result) = converse(8, events);
    assert_eq!(result, Ok(HttpPayload::Data(vec![1, 2, 3, 4, 5])));
    assert_eq!(news, vec![(0, Some(5)), (3, Some(5)), (5, Some(5))]);
    assert_eq!(
        calls,
        vec![
            HttpCall::OpenSession,
            HttpCall::Connect,
            HttpCall::OpenRequest,
            HttpCall::Exchange,
            HttpCall::QueryStatus,
            HttpCall::QueryLength,
            HttpCall::QueryAvailable,
            HttpCall::Read(3),
            HttpCall::QueryAvailable,
            HttpCall::Read(4),
            HttpCall::QueryAvailable,
        ]
    );
}

#[test]
fn a_server_need_not_tell_the_length() {
    for length in [HttpEvent::Failed, HttpEvent::Number(0)] {
        let mut events = head(299, length);
        events.push(HttpEvent::Number(0));
        let (_, news, result) = converse(0, events);
        assert_eq!(result, Ok(HttpPayload::Data(vec![])));
        assert_eq!(news, vec![(0, None)]);
    }
}

#[test]
fn the_status_decides() {
    let result = |status| converse(9, head(status, HttpEvent::Failed)[..5].to_vec()).2;
    assert_eq!(result(404), Ok(HttpPayload::NotFound));
    assert_eq!(result(199), Err("Update server returned HTTP 199.".to_owned()));
    assert_eq!(result(300), Err("Update server returned HTTP 300.".to_owned()));
    assert_eq!(result(500), Err("Update server returned HTTP 500.".to_owned()));
}

#[test]
fn a_told_length_must_fit() {
    let (_, _, result) = converse(100, head(200, HttpEvent::Number(101)));
    assert_eq!(
        result,
        Err("Update response is too large (101 bytes; limit is 100).".to_owned())
    );
    let mut events = head(200, HttpEvent::Number(100));
    events.push(HttpEvent::Number(0));
    assert_eq!(converse(100, events).2, Ok(HttpPayload::Data(vec![])));
}

#[test]
fn a_body_must_fit() {
    let mut events = head(200, HttpEvent::Failed);
    events.push(HttpEvent::Number(4));
    events.push(HttpEvent::Bytes(vec![0; 4]));
    events.push(HttpEvent::Number(2));
    assert_eq!(
        converse(5, events.clone()).2,
        Err("Update response exceeds the 5-byte limit.".to_owned())
    );
    events.push(HttpEvent::Bytes(vec![1; 2]));
    events.push(HttpEvent::Number(0));
    assert_eq!(converse(6, events).2, Ok(HttpPayload::Data(vec![0, 0, 0, 0, 1, 1])));
}

#[test]
fn more_bytes_than_asked_for_do_not_count() {
    let mut events = head(200, HttpEvent::Failed);
    events.push(HttpEvent::Number(2));
    events.push(HttpEvent::Bytes(vec![7, 8, 9]));
    events.push(HttpEvent::Number(0));
    assert_eq!(converse(2, events).2, Ok(HttpPayload::Data(vec![7, 8])));
}

#[test]
fn failed_calls_are_reported() {
    let mut events = head(200, HttpEvent::Failed);
    events.push(HttpEvent::Number(1));
    let expected = [
        (0, "Cannot initialize WinHTTP."),
        (1, "Cannot connect to update server."),
        (2, "Cannot create update request."),
        (3, "Update request failed."),
        (4, "Cannot read update HTTP status."),
        (6, "Cannot read update response."),
        (7, "Cannot read update response."),
    ];
    for (done, message) in expected {
        let mut failing = events[..done].to_vec();
        failing.push(HttpEvent::Failed);
        assert_eq!(converse(9, failing).2, Err(message.to_owned()));
    }
}

#[test]
fn a_read_may_bring_fewer_bytes_or_none() {
    let mut events = head(200, HttpEvent::Done);
    for chunk in [vec![1], vec![], vec![2, 3]] {
        events.push(HttpEvent::Number(4));
        events.push(HttpEvent::Bytes(chunk));
    }
    events.push(HttpEvent::Number(0));
    let (_, news, result) = converse(6, events);
    assert_eq!(result, Ok(HttpPayload::Data(vec![1, 2, 3])));
    assert_eq!(news, vec![(0, None), (1, None), (1, None), (3, None)]);
}
