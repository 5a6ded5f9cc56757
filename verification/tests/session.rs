use sure::error::SureError;
use sure::session::{get_session_id, pick_session_id};

#[test]
fn session_is_found_in_the_cookie_header() {
    let header = "PHPSESSID=4f2a9c0e1b; path=/; HttpOnly";
    assert_eq!(get_session_id(Some(header)), Ok(String::from("4f2a9c0e1b")));
}

#[test]
fn session_may_follow_other_cookies() {
    let header = "theme=dark; PHPSESSID=abc-123_x; path=/";
    assert_eq!(get_session_id(Some(header)), Ok(String::from("abc-123_x")));
}

#[test]
fn the_last_session_in_the_header_counts() {
    let header = "PHPSESSID=first; PHPSESSID=second; path=/";
    assert_eq!(get_session_id(Some(header)), Ok(String::from("second")));
}

#[test]
fn a_session_runs_to_the_last_semicolon_before_white_space() {
    let header = "PHPSESSID=a;b=c; path=/";
    assert_eq!(get_session_id(Some(header)), Ok(String::from("a;b=c")));
}

#[test]
fn header_without_a_session_ends_the_run() {
    assert_eq!(get_session_id(Some("theme=dark; path=/")), Err(SureError::NoSessionToken));
    assert_eq!(get_session_id(Some("")), Err(SureError::NoSessionToken));
    assert_eq!(get_session_id(Some("PHPSESSID=abc")), Err(SureError::NoSessionToken));
    assert_eq!(get_session_id(Some("PHPSESSID=;")), Err(SureError::NoSessionToken));
}

#[test]
fn missing_header_ends_the_run() {
    assert_eq!(get_session_id(None), Err(SureError::NoSessionHeader));
}

#[test]
fn pick_session_id_takes_the_last_capture_that_holds_a_text() {
    let found = Some(vec![Some(String::from("one")), None, Some(String::from("two")), None]);
    assert_eq!(pick_session_id(found), Ok(String::from("two")));
}

#[test]
fn pick_session_id_reports_why_there_is_no_session() {
    assert_eq!(pick_session_id(None), Err(SureError::SessionPattern));
    assert_eq!(pick_session_id(Some(Vec::new())), Err(SureError::NoSessionToken));
    assert_eq!(pick_session_id(Some(vec![None, None])), Err(SureError::NoSessionToken));
    assert_eq!(
        pick_session_id(Some(vec![Some(String::from("one")), Some(String::new())])),
        Err(SureError::NoSessionToken)
    );
}

#[test]
fn the_session_is_the_token_without_its_name() {
    assert_eq!(get_session_id(Some("PHPSESSID=abc123; path=/")), Ok(String::from("abc123")));
}

#[test]
fn a_session_is_a_piece_of_the_header() {
    let headers = [
        "PHPSESSID=abc123; path=/",
        "a=b; PHPSESSID=x; PHPSESSID=y;z; HttpOnly",
        "PHPSESSID=PHPSESSID=q;",
    ];
    for header in headers {
        let session = get_session_id(Some(header)).unwrap();
        assert!(!session.is_empty());
        assert!(header.contains(&format!("PHPSESSID={};", session)));
    }
}
