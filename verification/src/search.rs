//! The search for candidates: what is asked of the site, and what is done
//! with each answer until one is well formed or the attempts run out.

use vstd::prelude::*;
use vstd::string::*;
use crate::error::SureError;
use crate::text::{join, joined, texts};

verus! {

/// The browser that the requests present themselves as.
pub const SURE_USER_AGENT: &'static str =
    "Mozilla/5.0 (Macintosh; Intel Mac OS X 10_15_6) AppleWebKit/605.1.15 (KHTML, like Gecko) Version/14.0.2 Safari/605.1.15";

/// Where the search is posted: the first page of fifty results.
pub const SEARCH_URL: &'static str =
    "https://www.utahrealestate.com/search/chained.update/param_reset/county_code,o_county_code,city,o_city,zip,o_zip,geometry,o_geometry/count/false/criteria/false/pg/1/limit/50/dh/1190";

/// How the body of the search is encoded.
pub const FORM_CONTENT_TYPE: &'static str = "application/x-www-form-urlencoded";

/// The header that carries the session to the search.
pub const SESSION_HEADER_NAME: &'static str = "PHPSESSID";

/// How often the search is asked again after an answer that cannot be used.
pub const MAX_RETRIES: usize = 3;

/// A listing that the search found, not yet known to be new.
#[derive(Debug)]
pub struct Marker {
    pub price: String,
    pub id: String,
}

/// The answer of the search: its candidates in the order given.
#[derive(Debug)]
pub struct UreData {
    pub markers: Vec<Marker>,
}

/// The contents of a [`Marker`].
pub struct Candidate {
    pub id: Seq<char>,
    pub price: Seq<char>,
}

impl View for Marker {
    type V = Candidate;

    open spec fn view(&self) -> Candidate {
        Candidate { id: self.id@, price: self.price@ }
    }
}

/// The contents of a list of markers.
pub open spec fn candidates(markers: Seq<Marker>) -> Seq<Candidate> {
    Seq::new(markers.len(), |i: int| markers[i]@)
}

/// The identifiers of a list of candidates.
pub open spec fn candidate_ids(found: Seq<Candidate>) -> Seq<Seq<char>> {
    Seq::new(found.len(), |i: int| found[i].id)
}

impl View for UreData {
    type V = Seq<Candidate>;

    open spec fn view(&self) -> Seq<Candidate> {
        candidates(self.markers@)
    }
}

/// The body of the search for the lines of the parameter file: the lines
/// as they stand, joined by `&`.
pub open spec fn params_text(lines: Seq<Seq<char>>) -> Seq<char> {
    joined(lines, "&"@)
}

/// Joins the lines of the parameter file into the body of the search. The
/// lines are not looked into.
pub fn get_ure_search_params(lines: &Vec<String>) -> (params: String)
    ensures
        params@ == params_text(texts(lines@)),
{
    join(lines, "&")
}

/// One header of a request.
#[derive(Debug)]
pub struct Header {
    pub name: String,
    pub value: String,
}

/// The search as it is posted: `body` to `url` with `headers`.
#[derive(Debug)]
pub struct SearchRequest {
    pub url: String,
    pub headers: Vec<Header>,
    pub body: String,
}

/// The request is the search with the session `session_id` and the body
/// `params`.
pub open spec fn is_search_for(request: SearchRequest, session_id: Seq<char>, params: Seq<char>) -> bool {
    &&& request.url@ == SEARCH_URL@
    &&& request.body@ == params
    &&& request.headers@.len() == 3
    &&& request.headers@[0].name@ == "user-agent"@
    &&& request.headers@[0].value@ == SURE_USER_AGENT@
    &&& request.headers@[1].name@ == "content-type"@
    &&& request.headers@[1].value@ == FORM_CONTENT_TYPE@
    &&& request.headers@[2].name@ == SESSION_HEADER_NAME@
    &&& request.headers@[2].value@ == session_id
}

/// The search to post. Every attempt of a run posts the same one, with the
/// same session.
pub fn search_request(session_id: &str, params: &str) -> (request: SearchRequest)
    ensures
        is_search_for(request, session_id@, params@),
{
    let mut headers: Vec<Header> = Vec::new();
    headers.push(Header { name: "user-agent".to_owned(), value: SURE_USER_AGENT.to_owned() });
    headers.push(Header { name: "content-type".to_owned(), value: FORM_CONTENT_TYPE.to_owned() });
    headers.push(Header { name: SESSION_HEADER_NAME.to_owned(), value: session_id.to_owned() });
    SearchRequest { url: SEARCH_URL.to_owned(), headers, body: params.to_owned() }
}

/// What came of one attempt.
#[derive(Debug)]
pub enum SearchResponse {
    /// The body was the list of candidates, which may be empty.
    Parsed(UreData),
    /// The body was not of the form agreed.
    Malformed,
    /// No body came.
    TransportFailed,
}

/// What to do after an attempt.
#[derive(Debug)]
pub enum SearchStep {
    /// The search is over with these candidates.
    Found(UreData),
    /// Post the search again; this many attempts have been repeated.
    Retry { retry_count: usize },
    /// Stop the run.
    GiveUp(SureError),
}

/// Whether the attempt that `retry_count` repeats may be made: the first
/// attempt and [`MAX_RETRIES`] repeats of it, and no more.
pub open spec fn may_attempt(retry_count: usize) -> bool {
    retry_count <= MAX_RETRIES
}

/// Decides, before the search is posted, whether the attempt that
/// `retry_count` repeats may be made.
pub fn attempt_allowed(retry_count: usize) -> (allowed: bool)
    ensures
        allowed == may_attempt(retry_count),
{
    retry_count <= MAX_RETRIES
}

/// What to do after the attempt that `retry_count` repeats came to
/// `response`. An attempt beyond the cap ends the run, whatever it came to.
/// Otherwise a well-formed answer ends the search, and anything else leads
/// to another attempt until [`MAX_RETRIES`] attempts have been repeated, and
/// then to the end of the run.
pub open spec fn next_step(retry_count: usize, response: SearchResponse) -> SearchStep {
    if !may_attempt(retry_count) {
        SearchStep::GiveUp(SureError::RetriesExhausted)
    } else {
        match response {
            SearchResponse::Parsed(found) => SearchStep::Found(found),
            _ => if retry_count < MAX_RETRIES {
                SearchStep::Retry { retry_count: (retry_count + 1) as usize }
            } else {
                SearchStep::GiveUp(SureError::RetriesExhausted)
            },
        }
    }
}

/// Decides what follows the attempt that `retry_count` repeats.
pub fn get_listings(retry_count: usize, response: SearchResponse) -> (step: SearchStep)
    ensures
        step == next_step(retry_count, response),
{
    if retry_count > MAX_RETRIES {
        return SearchStep::GiveUp(SureError::RetriesExhausted);
    }
    match response {
        SearchResponse::Parsed(found) => SearchStep::Found(found),
        _ => if retry_count < MAX_RETRIES {
            SearchStep::Retry { retry_count: retry_count + 1 }
        } else {
            SearchStep::GiveUp(SureError::RetriesExhausted)
        },
    }
}

/// Where a search that is entered with `retry_count` stands before it has
/// asked: beyond the cap it is over at once.
pub open spec fn search_start(retry_count: usize) -> SearchStep {
    if may_attempt(retry_count) {
        SearchStep::Retry { retry_count }
    } else {
        SearchStep::GiveUp(SureError::RetriesExhausted)
    }
}

/// Where a search that is entered with `retry_count` stands after the
/// answers `responses`, taken in order. Answers that come after the search
/// is over change nothing.
pub open spec fn search_from(retry_count: usize, responses: Seq<SearchResponse>) -> SearchStep
    decreases responses.len(),
{
    if responses.len() == 0 {
        search_start(retry_count)
    } else {
        match search_from(retry_count, responses.drop_last()) {
            SearchStep::Retry { retry_count: reached } => next_step(reached, responses.last()),
            over => over,
        }
    }
}

/// Where a search stands after the answers `responses`, taken in order from
/// the first attempt on.
pub open spec fn search_after(responses: Seq<SearchResponse>) -> SearchStep {
    search_from(0, responses)
}

/// How many of the answers `responses` a search that is entered with
/// `retry_count` asks for: one for each that comes while the search is not
/// over.
pub open spec fn requests_made(retry_count: usize, responses: Seq<SearchResponse>) -> nat
    decreases responses.len(),
{
    if responses.len() == 0 {
        0
    } else if search_from(retry_count, responses.drop_last()) is Retry {
        requests_made(retry_count, responses.drop_last()) + 1
    } else {
        requests_made(retry_count, responses.drop_last())
    }
}

/// None of the answers is well formed.
pub open spec fn all_unusable(responses: Seq<SearchResponse>) -> bool {
    forall|i: int| 0 <= i < responses.len() ==> !(#[trigger] responses[i] is Parsed)
}

/// A search whose answers are all unusable is repeated until the cap is
/// reached and given up after the answer to the last attempt allowed. From
/// the first attempt on that is a repeat after each of the first three
/// answers and the end of the run after the fourth.
pub proof fn lemma_retry_cap(retry_count: usize, responses: Seq<SearchResponse>)
    requires
        all_unusable(responses),
    ensures
        retry_count + responses.len() <= MAX_RETRIES ==> search_from(retry_count, responses) == (
        SearchStep::Retry { retry_count: (retry_count + responses.len()) as usize }),
        retry_count + responses.len() > MAX_RETRIES ==> search_from(retry_count, responses)
            == SearchStep::GiveUp(SureError::RetriesExhausted),
    decreases responses.len(),
{
    if responses.len() > 0 {
        let before = responses.drop_last();
        assert forall|i: int| 0 <= i < before.len() implies !(#[trigger] before[i] is Parsed) by {
            assert(before[i] == responses[i]);
        }
        lemma_retry_cap(retry_count, before);
        assert(!(responses[responses.len() - 1] is Parsed));
    }
}

/// A well-formed answer to an attempt within the cap ends the search with
/// the candidates it holds, whatever came to the attempts before it.
pub proof fn lemma_first_usable_answer(
    retry_count: usize,
    responses: Seq<SearchResponse>,
    found: UreData,
)
    requires
        retry_count + responses.len() <= MAX_RETRIES,
        all_unusable(responses),
    ensures
        search_from(retry_count, responses.push(SearchResponse::Parsed(found)))
            == SearchStep::Found(found),
{
    lemma_retry_cap(retry_count, responses);
    assert(responses.push(SearchResponse::Parsed(found)).drop_last() == responses);
}

/// A search asks at most as often as the cap leaves room for: four times
/// from the first attempt on, and not at all when it is entered beyond the
/// cap, where it ends in the giving up. While it goes on, the count of
/// repeats is the one it was entered with and one more for each answer asked
/// for.
pub proof fn lemma_requests_bounded(retry_count: usize, responses: Seq<SearchResponse>)
    ensures
        may_attempt(retry_count) ==> requests_made(retry_count, responses) <= MAX_RETRIES + 1
            - retry_count,
        !may_attempt(retry_count) ==> requests_made(retry_count, responses) == 0 && search_from(
            retry_count,
            responses,
        ) == SearchStep::GiveUp(SureError::RetriesExhausted),
        search_from(retry_count, responses) matches SearchStep::Retry { retry_count: reached }
            ==> reached == retry_count + requests_made(retry_count, responses) && may_attempt(
            reached,
        ),
    decreases responses.len(),
{
    if responses.len() > 0 {
        lemma_requests_bounded(retry_count, responses.drop_last());
    }
}

} // verus!
