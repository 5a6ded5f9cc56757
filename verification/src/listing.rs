//! From downloaded pages to the text of an alert: reading the facts of a
//! page, deciding whether a listing is active and of interest, and writing
//! the message that names the listings to look at.

use vstd::prelude::*;
use vstd::string::*;
use crate::documents::{DocumentEntry, DocumentMap, ListingDocument};
use crate::fetch::FetchResult;
use crate::text::{
    decimal_at_least, decimal_value, join, joined, same_text, texts, trim, trimmed,
};

verus! {

/// Where a listing's page is found: the identifier follows.
pub const LISTING_BASE_URL: &'static str = "https://www.utahrealestate.com/";

/// The selector of the blocks of a page that hold one fact each.
pub const FACT_SELECTOR: &'static str = "div.fact-copy-wrap";

/// The label of the fact that says how long a listing has been on the site.
pub const DAYS_LABEL: &'static str = "Days on URE";

/// What the site shows instead of a number of days for a new listing.
pub const JUST_LISTED: &'static str = "Just Listed";

/// A listing that has been on the site for this many days is of interest.
pub const INTEREST_THRESHOLD_DAYS: usize = 20;

/// The label of the fact that holds a listing's status.
pub const STATUS_LABEL: &'static str = "Status";

/// The status of a listing that can still be had.
pub const ACTIVE_STATUS: &'static str = "Active";

/// What is written when a page cannot be searched for its facts.
pub const UNREADABLE_CAUSE: &'static str = "the fact selector was refused";

/// A listing together with the two flags that decide whether it is alerted on.
#[derive(Debug)]
pub struct DesiredListing {
    pub active: bool,
    pub interested: bool,
    pub mls: String,
}

impl DesiredListing {
    /// A listing with no identifier and both flags unset.
    pub fn new() -> (listing: DesiredListing)
        ensures
            !listing.active,
            !listing.interested,
            listing.mls@ == Seq::<char>::empty(),
    {
        DesiredListing { active: false, interested: false, mls: String::new() }
    }

    /// Whether the listing qualifies for an alert.
    pub open spec fn desired(&self) -> bool {
        self.active && self.interested
    }

    /// A listing qualifies exactly when it is both active and interesting.
    pub fn is_desired(&self) -> (desired: bool)
        ensures
            desired == self.desired(),
    {
        self.active && self.interested
    }
}

impl Default for DesiredListing {
    fn default() -> (listing: DesiredListing)
        ensures
            !listing.active,
            !listing.interested,
            listing.mls@ == Seq::<char>::empty(),
    {
        DesiredListing::new()
    }
}

/// The contents of the rows of a page.
pub open spec fn rows_text(rows: Seq<Vec<String>>) -> Seq<Seq<Seq<char>>> {
    Seq::new(rows.len(), |i: int| texts(rows[i]@))
}

/// What a search of an HTML document for a CSS selector finds: for each
/// element that matches, in the order in which the search comes to them, the
/// text nodes below it, in the order in which they are walked. Nothing where
/// the selector is not one that can be parsed.
///
/// The document is read by `scraper::Html::parse_document`, the selector by
/// `scraper::Selector::parse`, the elements come from `Html::select` and the
/// text of each from `ElementRef::text`.
pub uninterp spec fn selected_texts(document: Seq<char>, selector: Seq<char>) -> Option<
    Seq<Seq<Seq<char>>>,
>;

/// Parses `document` as HTML and `selector` as a CSS selector with the
/// `scraper` crate and collects the text nodes under each matching element.
/// The contract claims only that the outcome is fixed by the two texts; it is
/// `None` exactly when `Selector::parse` returns an error.
#[verifier::external_body]
fn select_texts(document: &str, selector: &str) -> (found: Option<Vec<Vec<String>>>)
    ensures
        match found {
            Some(rows) => selected_texts(document@, selector@) == Some(rows_text(rows@)),
            None => selected_texts(document@, selector@) is None,
        },
{
    match scraper::Selector::parse(selector) {
        Ok(parsed) => Some(
            scraper::Html::parse_document(document)
                .select(&parsed)
                .map(|element| element.text().map(String::from).collect())
                .collect(),
        ),
        Err(_) => None,
    }
}

/// The address of the page of the listing `id`.
pub fn listing_url(id: &str) -> (url: String)
    ensures
        url@ == LISTING_BASE_URL@ + id@,
{
    let mut url = LISTING_BASE_URL.to_owned();
    url.append(id);
    url
}

/// The outcome of a download whose body was searched for its facts: a page
/// of `byte_length` bytes with the rows found, or a failure where the search
/// could not be made.
pub fn fetched(id: String, byte_length: usize, rows: Option<Vec<Vec<String>>>) -> (result:
    FetchResult)
    ensures
        match rows {
            Some(facts) => result == (FetchResult::Success {
                id,
                document: ListingDocument { facts },
                byte_length,
            }),
            None => result matches FetchResult::Failure { id: failed, cause } && failed == id
                && cause@ == UNREADABLE_CAUSE@,
        },
{
    match rows {
        Some(facts) => FetchResult::Success { id, document: ListingDocument { facts }, byte_length },
        None => FetchResult::Failure { id, cause: UNREADABLE_CAUSE.to_owned() },
    }
}

/// The outcome of the download of the listing `id` that brought `body`: the
/// facts found in the body under [`FACT_SELECTOR`], with the length of the
/// body in bytes.
pub fn get_listing(id: String, body: &str) -> (result: FetchResult)
    ensures
        match selected_texts(body@, FACT_SELECTOR@) {
            Some(rows) => result matches FetchResult::Success { id: listed, document, byte_length }
                && listed == id && rows_text(document.facts@) == rows && byte_length
                == body.len(),
            None => result matches FetchResult::Failure { id: failed, cause } && failed == id
                && cause@ == UNREADABLE_CAUSE@,
        },
{
    let rows = select_texts(body, FACT_SELECTOR);
    fetched(id, body.len(), rows)
}

/// Whether what the site shows for the days on the market makes a listing
/// of interest: it was just listed, or it has been there for at least
/// [`INTEREST_THRESHOLD_DAYS`] days.
pub open spec fn days_interesting(value: Seq<char>) -> bool {
    value == JUST_LISTED@ || match decimal_value(value) {
        Some(days) => days >= INTEREST_THRESHOLD_DAYS,
        None => false,
    }
}

/// Decides from the days shown whether a listing is of interest.
pub fn is_interesting(days_listed: &str) -> (interesting: bool)
    ensures
        interesting == days_interesting(days_listed@),
{
    same_text(days_listed, JUST_LISTED) || decimal_at_least(days_listed, INTEREST_THRESHOLD_DAYS)
}

/// Whether the status shown is that of an active listing.
pub open spec fn status_active(value: Seq<char>) -> bool {
    value == ACTIVE_STATUS@
}

/// Decides from the status shown whether a listing is active.
pub fn is_active(status: &str) -> (active: bool)
    ensures
        active == status_active(status@),
{
    same_text(status, ACTIVE_STATUS)
}

/// A row states a fact where it has three pieces of text or more: the
/// second, trimmed, is the label and the third, trimmed, the value.
pub open spec fn row_has_fact(row: Seq<Seq<char>>) -> bool {
    row.len() >= 3
}

/// The row says that the listing is of interest.
pub open spec fn row_interesting(row: Seq<Seq<char>>) -> bool {
    row_has_fact(row) && trimmed(row[1]) == DAYS_LABEL@ && days_interesting(trimmed(row[2]))
}

/// The row says that the listing is active.
pub open spec fn row_active(row: Seq<Seq<char>>) -> bool {
    row_has_fact(row) && trimmed(row[1]) == STATUS_LABEL@ && status_active(trimmed(row[2]))
}

/// Some row of the page says that the listing is of interest.
pub open spec fn document_interesting(document: ListingDocument) -> bool {
    exists|i: int| 0 <= i < document.facts@.len() && row_interesting(#[trigger] texts(document.facts@[i]@))
}

/// Some row of the page says that the listing is active.
pub open spec fn document_active(document: ListingDocument) -> bool {
    exists|i: int| 0 <= i < document.facts@.len() && row_active(#[trigger] texts(document.facts@[i]@))
}

/// Reads the two flags of the listing `id` off its page.
pub fn qualify(id: &str, document: &ListingDocument) -> (listing: DesiredListing)
    ensures
        listing.mls@ == id@,
        listing.interested == document_interesting(*document),
        listing.active == document_active(*document),
{
    let mut interested = false;
    let mut active = false;
    let mut i: usize = 0;
    while i < document.facts.len()
        invariant
            i <= document.facts@.len(),
            interested == exists|j: int|
                0 <= j < i && row_interesting(#[trigger] texts(document.facts@[j]@)),
            active == exists|j: int| 0 <= j < i && row_active(#[trigger] texts(document.facts@[j]@)),
        decreases document.facts@.len() - i,
    {
        let row = &document.facts[i];
        let ghost row_text = texts(row@);
        if row.len() >= 3 {
            assert(row_text[1] == row@[1]@ && row_text[2] == row@[2]@);
            let label = trim(row[1].as_str());
            let value = trim(row[2].as_str());
            if same_text(label, DAYS_LABEL) && is_interesting(value) {
                interested = true;
            }
            if same_text(label, STATUS_LABEL) && is_active(value) {
                active = true;
            }
        }
        assert(interested == exists|j: int|
            0 <= j < i + 1 && row_interesting(#[trigger] texts(document.facts@[j]@))) by {
            if row_interesting(row_text) {
                assert(row_interesting(texts(document.facts@[i as int]@)));
            }
        }
        assert(active == exists|j: int|
            0 <= j < i + 1 && row_active(#[trigger] texts(document.facts@[j]@))) by {
            if row_active(row_text) {
                assert(row_active(texts(document.facts@[i as int]@)));
            }
        }
        i += 1;
    }
    DesiredListing { active, interested, mls: id.to_owned() }
}

/// The identifiers, in their order, of the entries whose pages say that the
/// listing is both active and of interest.
pub open spec fn desired_ids(entries: Seq<DocumentEntry>) -> Seq<Seq<char>>
    decreases entries.len(),
{
    if entries.len() == 0 {
        Seq::empty()
    } else if document_active(entries.last().document) && document_interesting(
        entries.last().document,
    ) {
        desired_ids(entries.drop_last()).push(entries.last().id@)
    } else {
        desired_ids(entries.drop_last())
    }
}

/// The entry's page says that the listing `id` is both active and of
/// interest.
pub open spec fn entry_desired(entry: DocumentEntry, id: Seq<char>) -> bool {
    entry.id@ == id && document_active(entry.document) && document_interesting(entry.document)
}

/// A listing is alerted on exactly when an entry holds a page for it that
/// says that it is both active and of interest.
pub proof fn lemma_desired_ids(entries: Seq<DocumentEntry>, id: Seq<char>)
    ensures
        desired_ids(entries).contains(id) <==> exists|i: int|
            0 <= i < entries.len() && entry_desired(#[trigger] entries[i], id),
    decreases entries.len(),
{
    if entries.len() > 0 {
        let before = entries.drop_last();
        let ids = desired_ids(entries);
        let earlier = desired_ids(before);
        lemma_desired_ids(before, id);
        if ids.contains(id) {
            let k = ids.index_of(id);
            if k < earlier.len() {
                assert(earlier[k] == id);
                let i = choose|i: int| 0 <= i < before.len() && entry_desired(#[trigger] before[i], id);
                assert(entry_desired(entries[i], id));
            } else {
                assert(entry_desired(entries[entries.len() - 1], id));
            }
        }
        if exists|i: int| 0 <= i < entries.len() && entry_desired(#[trigger] entries[i], id) {
            let i = choose|i: int| 0 <= i < entries.len() && entry_desired(#[trigger] entries[i], id);
            if i < before.len() {
                assert(entry_desired(before[i], id));
                let k = earlier.index_of(id);
                assert(ids[k] == id);
            } else {
                assert(ids[ids.len() - 1] == id);
            }
        }
    }
}

/// The identifiers of the listings.
pub open spec fn listing_ids(listings: Seq<DesiredListing>) -> Seq<Seq<char>> {
    Seq::new(listings.len(), |i: int| listings[i].mls@)
}

/// The listings to alert on: those whose pages say that they are both
/// active and of interest, in the order of the map.
pub fn parse_listings(listing_map: &DocumentMap) -> (desired: Vec<DesiredListing>)
    ensures
        listing_ids(desired@) == desired_ids(listing_map.entries@),
        forall|i: int| 0 <= i < desired@.len() ==> #[trigger] desired@[i].desired(),
{
    let mut desired: Vec<DesiredListing> = Vec::new();
    let mut i: usize = 0;
    assert(listing_map.entries@.take(0) == Seq::<DocumentEntry>::empty());
    while i < listing_map.entries.len()
        invariant
            i <= listing_map.entries@.len(),
            listing_ids(desired@) == desired_ids(listing_map.entries@.take(i as int)),
            forall|j: int| 0 <= j < desired@.len() ==> #[trigger] desired@[j].desired(),
        decreases listing_map.entries@.len() - i,
    {
        let entry = &listing_map.entries[i];
        let listing = qualify(entry.id.as_str(), &entry.document);
        proof {
            let upto = listing_map.entries@.take(i + 1);
            assert(upto.drop_last() == listing_map.entries@.take(i as int));
            assert(upto.last() == *entry);
            if listing.desired() {
                assert(listing_ids(desired@.push(listing)) == listing_ids(desired@).push(
                    listing.mls@,
                ));
            }
        }
        if listing.is_desired() {
            desired.push(listing);
        }
        i += 1;
    }
    assert(listing_map.entries@.take(i as int) == listing_map.entries@);
    desired
}

/// The addresses of the pages of the listings `ids`.
pub open spec fn listing_addresses(ids: Seq<Seq<char>>) -> Seq<Seq<char>> {
    Seq::new(ids.len(), |i: int| LISTING_BASE_URL@ + ids[i])
}

/// The text of an alert: the addresses of the listings' pages, joined by a
/// newline.
pub open spec fn message_text(ids: Seq<Seq<char>>) -> Seq<char> {
    joined(listing_addresses(ids), "\n"@)
}

/// Writes the alert for `listings`.
pub fn build_listing_message(listings: &Vec<DesiredListing>) -> (message: String)
    ensures
        message@ == message_text(listing_ids(listings@)),
{
    let mut addresses: Vec<String> = Vec::new();
    let mut i: usize = 0;
    while i < listings.len()
        invariant
            i <= listings@.len(),
            addresses@.len() == i,
            forall|j: int| 0 <= j < i ==> (#[trigger] addresses@[j])@ == LISTING_BASE_URL@ + listings@[j].mls@,
        decreases listings@.len() - i,
    {
        addresses.push(listing_url(listings[i].mls.as_str()));
        i += 1;
    }
    assert(texts(addresses@) == listing_addresses(listing_ids(listings@)));
    join(&addresses, "\n")
}

/// The alert for the pages of a run: the message that names the listings to
/// look at, or nothing where no listing is both active and of interest.
pub fn listing_alert(listing_map: &DocumentMap) -> (alert: Option<String>)
    ensures
        match alert {
            Some(message) => desired_ids(listing_map.entries@).len() > 0 && message@
                == message_text(desired_ids(listing_map.entries@)),
            None => desired_ids(listing_map.entries@).len() == 0,
        },
{
    let desired = parse_listings(listing_map);
    if desired.len() > 0 {
        Some(build_listing_message(&desired))
    } else {
        None
    }
}

} // verus!
