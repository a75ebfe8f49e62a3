use balancer::forward::{reply_for, target_url, Outcome, INTERNAL_SERVER_ERROR};

#[test]
fn success_relays_status_and_body() {
    let r = reply_for(Outcome::Received { status: 200, body: Some("ok".to_string()) });
    assert_eq!(r.status, 200);
    assert_eq!(r.body, "ok");
}

#[test]
fn non_success_status_is_relayed() {
    let r = reply_for(Outcome::Received { status: 404, body: Some("missing".to_string()) });
    assert_eq!(r.status, 404);
    assert_eq!(r.body, "missing");
}

#[test]
fn unreachable_backend_gives_empty_500() {
    let r = reply_for(Outcome::Unreachable);
    assert_eq!(r.status, 500);
    assert_eq!(r.status, INTERNAL_SERVER_ERROR);
    assert_eq!(r.body, "");
}

#[test]
fn unreadable_body_gives_placeholder() {
    let r = reply_for(Outcome::Received { status: 502, body: None });
    assert_eq!(r.status, 502);
    assert_eq!(r.body, "Error reading response body");
}

#[test]
fn url_joins_address_and_path() {
    assert_eq!(target_url("localhost:8081", "/a/b?x=1"), "http://localhost:8081/a/b?x=1");
    assert_eq!(target_url("b:2", "/"), "http://b:2/");
    assert_eq!(target_url("c:3", ""), "http://c:3");
}
