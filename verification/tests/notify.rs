use sure::notify::{get_twilio_credentials, message_sent, send_message, send_messages, TwilioAuth};

fn lines(text: &[&str]) -> Vec<String> {
    text.iter().map(|line| String::from(*line)).collect()
}

fn account() -> TwilioAuth {
    TwilioAuth {
        sid: String::from("AC123"),
        auth_token: String::from("secret"),
        number: String::from("+15550000"),
        alert_numbers: vec![String::from("+15551111"), String::from("+15552222")],
    }
}

#[test]
fn new_credentials_are_empty() {
    let auth = TwilioAuth::new();
    assert_eq!(auth.sid, "");
    assert_eq!(auth.auth_token, "");
    assert_eq!(auth.number, "");
    assert!(auth.alert_numbers.is_empty());
    let auth = TwilioAuth::default();
    assert_eq!(auth.sid, "");
    assert!(auth.alert_numbers.is_empty());
}

#[test]
fn basic_auth_is_the_base64_of_sid_and_token() {
    assert_eq!(account().basic_auth(), "QUMxMjM6c2VjcmV0");
    let other = TwilioAuth {
        sid: String::from("sid"),
        auth_token: String::from("token"),
        number: String::new(),
        alert_numbers: Vec::new(),
    };
    assert_eq!(other.basic_auth(), "c2lkOnRva2Vu");
    assert_eq!(TwilioAuth::new().basic_auth(), "Og==");
}

#[test]
fn credentials_are_read_by_key() {
    let auth = get_twilio_credentials(&lines(&[
        "AccountSID=AC123",
        "AuthToken=secret",
        "TwilioNumber=+15550000",
        "AlertNumbers=+15551111,+15552222",
    ]));
    assert_eq!(auth.sid, "AC123");
    assert_eq!(auth.auth_token, "secret");
    assert_eq!(auth.number, "+15550000");
    assert_eq!(auth.alert_numbers, vec!["+15551111", "+15552222"]);
}

#[test]
fn credentials_ignore_other_lines() {
    let auth = get_twilio_credentials(&lines(&[
        "",
        "# comment",
        "Unknown=1",
        "AccountSID",
        "accountsid=lower",
        " AccountSID=padded",
        "AuthToken=secret",
    ]));
    assert_eq!(auth.sid, "");
    assert_eq!(auth.auth_token, "secret");
    assert_eq!(auth.number, "");
    assert!(auth.alert_numbers.is_empty());
}

#[test]
fn of_two_lines_with_one_key_the_later_counts() {
    let auth = get_twilio_credentials(&lines(&["AccountSID=one", "AccountSID=two"]));
    assert_eq!(auth.sid, "two");
}

#[test]
fn a_value_ends_at_a_second_equals_sign() {
    let auth = get_twilio_credentials(&lines(&["AuthToken=abc=def", "AccountSID="]));
    assert_eq!(auth.auth_token, "abc");
    assert_eq!(auth.sid, "");
}

#[test]
fn recipients_are_split_at_commas() {
    let auth = get_twilio_credentials(&lines(&["AlertNumbers=+1"]));
    assert_eq!(auth.alert_numbers, vec!["+1"]);
    let auth = get_twilio_credentials(&lines(&["AlertNumbers="]));
    assert_eq!(auth.alert_numbers, vec![""]);
    let auth = get_twilio_credentials(&lines(&["AlertNumbers=+1,,+2,"]));
    assert_eq!(auth.alert_numbers, vec!["+1", "", "+2", ""]);
    assert!(get_twilio_credentials(&Vec::new()).alert_numbers.is_empty());
}

#[test]
fn message_request_has_url_header_and_form() {
    let request = send_message(&account(), "hello\nworld", "+15551111");
    assert_eq!(request.url, "https://api.twilio.com/2010-04-01/Accounts/AC123/Messages.json");
    assert_eq!(request.authorization, "Basic QUMxMjM6c2VjcmV0");
    assert_eq!(request.form.len(), 3);
    assert_eq!(request.form[0].name, "From");
    assert_eq!(request.form[0].value, "+15550000");
    assert_eq!(request.form[1].name, "Body");
    assert_eq!(request.form[1].value, "hello\nworld");
    assert_eq!(request.form[2].name, "To");
    assert_eq!(request.form[2].value, "+15551111");
}

#[test]
fn every_recipient_gets_a_request() {
    let requests = send_messages(&account(), "hello");
    assert_eq!(requests.len(), 2);
    assert_eq!(requests[0].form[2].value, "+15551111");
    assert_eq!(requests[1].form[2].value, "+15552222");
    for request in requests.iter() {
        assert_eq!(request.url, "https://api.twilio.com/2010-04-01/Accounts/AC123/Messages.json");
        assert_eq!(request.authorization, "Basic QUMxMjM6c2VjcmV0");
        assert_eq!(request.form[0].value, "+15550000");
        assert_eq!(request.form[1].value, "hello");
    }
    assert!(send_messages(&TwilioAuth::new(), "hello").is_empty());
}

#[test]
fn only_the_created_status_says_that_a_message_was_sent() {
    assert!(message_sent(201));
    assert!(!message_sent(200));
    assert!(!message_sent(202));
    assert!(!message_sent(400));
    assert!(!message_sent(0));
}
