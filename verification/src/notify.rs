//! What is sent to the messaging provider: the credentials as they stand in
//! their file, and the request that delivers one message to one recipient.

use vstd::prelude::*;
use vstd::string::*;
use crate::text::{same_text, split, split_at_char, texts};

verus! {

/// The root of the provider's interface.
pub const TWILIO_BASE_URL: &'static str = "https://api.twilio.com/2010-04-01";

/// The status with which the provider answers a message that it accepted.
pub const MESSAGE_ACCEPTED: u16 = 201;

/// The key of the account identifier in the credential file.
pub const SID_KEY: &'static str = "AccountSID";

/// The key of the secret in the credential file.
pub const TOKEN_KEY: &'static str = "AuthToken";

/// The key of the sending number in the credential file.
pub const NUMBER_KEY: &'static str = "TwilioNumber";

/// The key of the recipients in the credential file.
pub const RECIPIENTS_KEY: &'static str = "AlertNumbers";

/// The account with the messaging provider, and who is to be alerted.
#[derive(Debug)]
pub struct TwilioAuth {
    pub sid: String,
    pub auth_token: String,
    pub number: String,
    pub alert_numbers: Vec<String>,
}

/// The contents of a [`TwilioAuth`].
pub struct Credentials {
    pub sid: Seq<char>,
    pub auth_token: Seq<char>,
    pub number: Seq<char>,
    pub alert_numbers: Seq<Seq<char>>,
}

impl View for TwilioAuth {
    type V = Credentials;

    open spec fn view(&self) -> Credentials {
        Credentials {
            sid: self.sid@,
            auth_token: self.auth_token@,
            number: self.number@,
            alert_numbers: texts(self.alert_numbers@),
        }
    }
}

/// Credentials of which nothing is known yet.
pub open spec fn no_credentials() -> Credentials {
    Credentials {
        sid: Seq::empty(),
        auth_token: Seq::empty(),
        number: Seq::empty(),
        alert_numbers: Seq::empty(),
    }
}

/// The credentials after one more line of the file. A line is a key, `=` and
/// a value, which ends at the line's end or at a second `=`; the recipients
/// are separated by commas. A line without `=` or with another key changes
/// nothing.
pub open spec fn with_line(known: Credentials, line: Seq<char>) -> Credentials {
    let items = split_at_char(line, '=');
    if items.len() < 2 {
        known
    } else if items[0] == SID_KEY@ {
        Credentials { sid: items[1], ..known }
    } else if items[0] == TOKEN_KEY@ {
        Credentials { auth_token: items[1], ..known }
    } else if items[0] == NUMBER_KEY@ {
        Credentials { number: items[1], ..known }
    } else if items[0] == RECIPIENTS_KEY@ {
        Credentials { alert_numbers: split_at_char(items[1], ','), ..known }
    } else {
        known
    }
}

/// The credentials that the lines of a file give: each line in turn, so that
/// of two lines with one key the later one counts.
pub open spec fn credentials_of(lines: Seq<Seq<char>>) -> Credentials
    decreases lines.len(),
{
    if lines.len() == 0 {
        no_credentials()
    } else {
        with_line(credentials_of(lines.drop_last()), lines.last())
    }
}

/// The text that stands for an account in the `Authorization` header: the
/// Base64 form (standard alphabet, padded) of the UTF-8 bytes of a text, as
/// `base64::encode` writes it.
pub uninterp spec fn base64_text(text: Seq<char>) -> Seq<char>;

/// Calls `base64::encode` on the bytes of `text`. The contract claims only
/// that the outcome is fixed by the text. `encode` panics where the length
/// of its outcome, four bytes for every three of the text or part of three,
/// is more than a `usize` holds; a string is at most half of that long, so
/// no text gets there.
#[verifier::external_body]
fn base64_encode(text: &str) -> (encoded: String)
    ensures
        encoded@ == base64_text(text@),
{
    base64::encode(text.as_bytes())
}

impl TwilioAuth {
    /// Credentials of which nothing is known yet.
    pub fn new() -> (auth: TwilioAuth)
        ensures
            auth@ == no_credentials(),
    {
        let auth = TwilioAuth {
            sid: String::new(),
            auth_token: String::new(),
            number: String::new(),
            alert_numbers: Vec::new(),
        };
        assert(auth@.alert_numbers =~= Seq::<Seq<char>>::empty());
        auth
    }

    /// The account identifier and the secret, joined by a colon, in Base64.
    pub fn basic_auth(&self) -> (encoded: String)
        ensures
            encoded@ == base64_text(self@.sid + ":"@ + self@.auth_token),
    {
        let mut plain = self.sid.clone();
        plain.append(":");
        plain.append(self.auth_token.as_str());
        base64_encode(plain.as_str())
    }
}

impl Default for TwilioAuth {
    fn default() -> (auth: TwilioAuth)
        ensures
            auth@ == no_credentials(),
    {
        TwilioAuth::new()
    }
}

/// Reads the credentials off the lines of their file.
pub fn get_twilio_credentials(lines: &Vec<String>) -> (auth: TwilioAuth)
    ensures
        auth@ == credentials_of(texts(lines@)),
{
    let mut auth = TwilioAuth::new();
    let mut i: usize = 0;
    assert(texts(lines@).take(0) == Seq::<Seq<char>>::empty());
    while i < lines.len()
        invariant
            i <= lines@.len(),
            auth@ == credentials_of(texts(lines@).take(i as int)),
        decreases lines@.len() - i,
    {
        proof {
            let upto = texts(lines@).take(i + 1);
            assert(upto.drop_last() == texts(lines@).take(i as int));
            assert(upto.last() == lines@[i as int]@);
        }
        let mut items = split(lines[i].as_str(), '=');
        let ghost parts = texts(items@);
        if items.len() >= 2 {
            assert(parts[0] == items@[0]@ && parts[1] == items@[1]@);
            if same_text(items[0].as_str(), SID_KEY) {
                auth.sid = items.swap_remove(1);
            } else if same_text(items[0].as_str(), TOKEN_KEY) {
                auth.auth_token = items.swap_remove(1);
            } else if same_text(items[0].as_str(), NUMBER_KEY) {
                auth.number = items.swap_remove(1);
            } else if same_text(items[0].as_str(), RECIPIENTS_KEY) {
                auth.alert_numbers = split(items[1].as_str(), ',');
            }
        }
        i += 1;
    }
    assert(texts(lines@).take(i as int) == texts(lines@));
    auth
}

/// One field of a form.
#[derive(Debug)]
pub struct FormField {
    pub name: String,
    pub value: String,
}

/// The request that hands one message for one recipient to the provider: a
/// POST of `form` to `url` with `authorization` as its `Authorization` header.
#[derive(Debug)]
pub struct SmsRequest {
    pub url: String,
    pub authorization: String,
    pub form: Vec<FormField>,
}

/// Where the messages of the account `sid` are posted.
pub open spec fn messages_url(sid: Seq<char>) -> Seq<char> {
    TWILIO_BASE_URL@ + "/Accounts/"@ + sid + "/Messages.json"@
}

/// The `Authorization` header of the account.
pub open spec fn authorization_text(account: Credentials) -> Seq<char> {
    "Basic "@ + base64_text(account.sid + ":"@ + account.auth_token)
}

/// The request says `message` to `to` in the name of `account`.
pub open spec fn is_request_for(
    request: SmsRequest,
    account: Credentials,
    message: Seq<char>,
    to: Seq<char>,
) -> bool {
    &&& request.url@ == messages_url(account.sid)
    &&& request.authorization@ == authorization_text(account)
    &&& request.form@.len() == 3
    &&& request.form@[0].name@ == "From"@
    &&& request.form@[0].value@ == account.number
    &&& request.form@[1].name@ == "Body"@
    &&& request.form@[1].value@ == message
    &&& request.form@[2].name@ == "To"@
    &&& request.form@[2].value@ == to
}

/// The request that delivers `message` to the recipient `to`.
pub fn send_message(credentials: &TwilioAuth, message: &str, to: &str) -> (request: SmsRequest)
    ensures
        is_request_for(request, credentials@, message@, to@),
{
    let mut url = TWILIO_BASE_URL.to_owned();
    url.append("/Accounts/");
    url.append(credentials.sid.as_str());
    url.append("/Messages.json");
    let mut authorization = "Basic ".to_owned();
    authorization.append(credentials.basic_auth().as_str());
    let mut form: Vec<FormField> = Vec::new();
    form.push(FormField { name: "From".to_owned(), value: credentials.number.clone() });
    form.push(FormField { name: "Body".to_owned(), value: message.to_owned() });
    form.push(FormField { name: "To".to_owned(), value: to.to_owned() });
    SmsRequest { url, authorization, form }
}

/// One request for each recipient of the account, in their order. Each is
/// made whether or not another one fails.
pub fn send_messages(credentials: &TwilioAuth, message: &str) -> (requests: Vec<SmsRequest>)
    ensures
        requests@.len() == credentials@.alert_numbers.len(),
        forall|i: int|
            0 <= i < requests@.len() ==> is_request_for(
                #[trigger] requests@[i],
                credentials@,
                message@,
                credentials@.alert_numbers[i],
            ),
{
    let mut requests: Vec<SmsRequest> = Vec::new();
    let mut i: usize = 0;
    while i < credentials.alert_numbers.len()
        invariant
            i <= credentials.alert_numbers@.len(),
            requests@.len() == i,
            forall|j: int|
                0 <= j < i ==> is_request_for(
                    #[trigger] requests@[j],
                    credentials@,
                    message@,
                    credentials@.alert_numbers[j],
                ),
        decreases credentials.alert_numbers@.len() - i,
    {
        let request = send_message(credentials, message, credentials.alert_numbers[i].as_str());
        requests.push(request);
        i += 1;
    }
    requests
}

/// Whether the provider's answer says that it took the message.
pub fn message_sent(status: u16) -> (sent: bool)
    ensures
        sent == (status == MESSAGE_ACCEPTED),
{
    status == MESSAGE_ACCEPTED
}

} // verus!
