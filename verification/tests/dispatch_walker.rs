//! Response interpretation and pagination against mocked transport
//! outcomes.

use rest_shim::http::{interpret_response, ApiError, ClientError};
use rest_shim::paginate::Walker;

#[test]
fn non_success_status_is_api_error_with_raw_body() {
    // e.g. a 404 on a GET and a 422 on a POST: the status and the body
    // come back verbatim, whatever the method was.
    for status in [404u16, 422, 400, 500, 199, 300] {
        let body = b"{\"error\":\"details vary per provider\"}".to_vec();
        match interpret_response(true, status, body.clone()) {
            Err(ClientError::Api(ApiError { status: s, raw_body })) => {
                assert_eq!(s, status);
                assert_eq!(raw_body, body);
            }
            _ => panic!("expected an api error for status {status}"),
        }
    }
}

#[test]
fn success_without_declared_response_ignores_body() {
    match interpret_response(false, 204, b"anything, even junk".to_vec()) {
        Ok(None) => {}
        _ => panic!("expected empty success"),
    }
}

#[test]
fn success_with_json_body_decodes() {
    match interpret_response(true, 200, b"{\"ok\":true}".to_vec()) {
        Ok(Some(v)) => {
            assert_eq!(v.get("ok"), Some(&serde_json::Value::Bool(true)));
        }
        _ => panic!("expected a decoded value"),
    }
}

#[test]
fn success_with_bad_body_is_decoding_error() {
    match interpret_response(true, 200, b"not json at all".to_vec()) {
        Err(ClientError::Decoding(_)) => {}
        _ => panic!("expected a decoding error"),
    }
}

#[test]
fn walker_yields_three_pages_in_order_then_ends() {
    // Cursors run A -> B -> C -> None; all items arrive in page order and
    // a fourth pull finds the sequence exhausted.
    let mut w: Walker<i32> = Walker::new(b"A".to_vec());
    assert_eq!(w.next_request(), Some(b"A".to_vec()));
    w.on_page(vec![1, 2], Some(b"B".to_vec()));
    assert_eq!(w.next_request(), Some(b"B".to_vec()));
    w.on_page(vec![3], Some(b"C".to_vec()));
    assert_eq!(w.next_request(), Some(b"C".to_vec()));
    w.on_page(vec![4, 5], None);
    assert_eq!(w.next_request(), None);
    match w.into_result() {
        Ok(items) => assert_eq!(items, vec![1, 2, 3, 4, 5]),
        Err(_) => panic!("walk should have succeeded"),
    }
}

#[test]
fn walker_stops_on_cursor_cycle() {
    // A -> B -> A: the repeated cursor ends the walk instead of looping.
    let mut w: Walker<i32> = Walker::new(b"A".to_vec());
    w.on_page(vec![1], Some(b"B".to_vec()));
    assert_eq!(w.next_request(), Some(b"B".to_vec()));
    w.on_page(vec![2], Some(b"A".to_vec()));
    assert_eq!(w.next_request(), None);
    match w.into_result() {
        Ok(items) => assert_eq!(items, vec![1, 2]),
        Err(_) => panic!("a cycle ends the walk without an error"),
    }
}

#[test]
fn walker_failure_discards_partial_items() {
    // Page 2 fails: the all-or-nothing drain returns the failure, not the
    // items of page 1.
    let mut w: Walker<i32> = Walker::new(b"A".to_vec());
    w.on_page(vec![1, 2, 3], Some(b"B".to_vec()));
    w.on_failure(ClientError::Api(ApiError { status: 500, raw_body: b"boom".to_vec() }));
    assert_eq!(w.next_request(), None);
    match w.into_result() {
        Err(ClientError::Api(e)) => {
            assert_eq!(e.status, 500);
            assert_eq!(e.raw_body, b"boom".to_vec());
        }
        _ => panic!("expected the recorded failure, not a partial list"),
    }
}

#[test]
fn walker_transport_failure_surfaces_unchanged() {
    let mut w: Walker<i32> = Walker::new(b"A".to_vec());
    w.on_failure(ClientError::Transport(String::from("connection refused")));
    match w.into_result() {
        Err(ClientError::Transport(msg)) => assert_eq!(msg, "connection refused"),
        _ => panic!("expected the transport error"),
    }
}

#[test]
fn lazy_consumer_sees_pages_up_to_a_failure() {
    // A consumer pulling the lazy sequence keeps each page as it arrives,
    // so it observes partial results before the terminal error, while the
    // all-or-nothing drain of the same walk would not.
    let mut w: Walker<i32> = Walker::new(b"A".to_vec());
    let mut observed: Vec<i32> = Vec::new();
    assert!(w.next_request().is_some());
    observed.extend([10, 20]);
    w.advance(Some(b"B".to_vec()));
    assert!(w.next_request().is_some());
    let failure = ClientError::Api(ApiError { status: 503, raw_body: Vec::new() });
    w.on_failure(failure);
    assert_eq!(w.next_request(), None);
    assert_eq!(observed, vec![10, 20]);
    assert!(matches!(w.into_result(), Err(ClientError::Api(_))));
}

#[test]
fn walker_treats_empty_cursor_as_exhausted() {
    // spec: an absent or empty cursor field means the sequence is done.
    let mut w: Walker<i32> = Walker::new(b"A".to_vec());
    w.on_page(vec![1], Some(Vec::new()));
    assert_eq!(w.next_request(), None);
    match w.into_result() {
        Ok(items) => assert_eq!(items, vec![1]),
        Err(_) => panic!("an empty cursor ends the walk without an error"),
    }
}
