use sure::documents::{DocumentMap, ListingDocument};
use sure::fetch::FetchResult;
use sure::listing::{
    build_listing_message, fetched, get_listing, is_active, is_interesting, listing_alert,
    listing_url, parse_listings, qualify, DesiredListing, INTEREST_THRESHOLD_DAYS,
};

fn fact(label: &str, value: &str) -> Vec<String> {
    vec![String::from("\n"), String::from(label), String::from(value)]
}

fn document(days: &str, status: &str) -> ListingDocument {
    ListingDocument { facts: vec![fact("Days on URE", days), fact("Status", status)] }
}

fn listing(mls: &str, active: bool, interested: bool) -> DesiredListing {
    DesiredListing { active, interested, mls: String::from(mls) }
}

fn html(days: &str, status: &str) -> String {
    format!(
        "<!DOCTYPE html><html><head><title>Listing</title></head><body>\
         <div class=\"facts\">\
         <div class=\"fact-copy-wrap\"> <span class=\"facts-header\"> Days on URE </span>{}</div>\
         <div class=\"fact-copy-wrap\"> <span class=\"facts-header\">Status</span> {} </div>\
         <div class=\"fact-copy-wrap\"> <span class=\"facts-header\">Type</span>Single Family</div>\
         </div><div class=\"other\">Status Active</div></body></html>",
        days, status
    )
}

#[test]
fn just_listed_is_interesting() {
    assert!(is_interesting("Just Listed"));
}

#[test]
fn days_listed_are_interesting_from_the_threshold_on() {
    assert!(!is_interesting("19"));
    assert!(is_interesting("20"));
    assert!(is_interesting("21"));
    assert!(is_interesting("365"));
    assert!(!is_interesting("0"));
    assert_eq!(INTEREST_THRESHOLD_DAYS, 20);
}

#[test]
fn other_texts_for_the_days_are_not_interesting() {
    assert!(!is_interesting(""));
    assert!(!is_interesting("just listed"));
    assert!(!is_interesting("Just Listed!"));
    assert!(!is_interesting("20 days"));
    assert!(!is_interesting("-20"));
}

#[test]
fn only_the_exact_status_is_active() {
    assert!(is_active("Active"));
    assert!(!is_active("active"));
    assert!(!is_active("Active "));
    assert!(!is_active("Under Contract"));
    assert!(!is_active(""));
}

#[test]
fn listing_is_desired_when_active_and_interesting() {
    assert!(listing("A", true, true).is_desired());
    assert!(!listing("A", false, true).is_desired());
    assert!(!listing("A", true, false).is_desired());
    assert!(!listing("A", false, false).is_desired());
}

#[test]
fn new_listing_has_no_flags() {
    let empty = DesiredListing::new();
    assert!(!empty.active);
    assert!(!empty.interested);
    assert_eq!(empty.mls, "");
    assert!(!empty.is_desired());
}

#[test]
fn active_and_interesting_listing_is_in_the_message_and_inactive_one_is_not() {
    let mut documents = DocumentMap::new();
    documents.insert(String::from("1711234"), document("Just Listed", "Active"));
    documents.insert(String::from("1711235"), document("Just Listed", "Under Contract"));
    let desired = parse_listings(&documents);
    assert_eq!(desired.len(), 1);
    assert_eq!(desired[0].mls, "1711234");
    assert!(desired[0].active);
    assert!(desired[0].interested);
    assert_eq!(build_listing_message(&desired), "https://www.utahrealestate.com/1711234");
}

#[test]
fn message_is_the_addresses_joined_by_a_newline() {
    let listings = vec![listing("1", true, true), listing("22", true, true)];
    assert_eq!(
        build_listing_message(&listings),
        "https://www.utahrealestate.com/1\nhttps://www.utahrealestate.com/22"
    );
    assert_eq!(build_listing_message(&Vec::new()), "");
    let listings = vec![listing("123", true, true)];
    assert_eq!(build_listing_message(&listings), "https://www.utahrealestate.com/123");
    let listings =
        vec![listing("a", true, true), listing("b", true, true), listing("c", true, true)];
    let expected = ["a", "b", "c"]
        .iter()
        .map(|id| format!("https://www.utahrealestate.com/{}", id))
        .collect::<Vec<String>>()
        .join("\n");
    assert_eq!(build_listing_message(&listings), expected);
}

#[test]
fn listing_url_appends_the_identifier() {
    assert_eq!(listing_url("1711234"), "https://www.utahrealestate.com/1711234");
    assert_eq!(listing_url(""), "https://www.utahrealestate.com/");
}

#[test]
fn qualify_reads_both_flags() {
    let both = qualify("A", &document("25", "Active"));
    assert_eq!(both.mls, "A");
    assert!(both.active && both.interested);
    let stale = qualify("B", &document("19", "Active"));
    assert!(stale.active && !stale.interested);
    let sold = qualify("C", &document("20", "Sold"));
    assert!(!sold.active && sold.interested);
    let neither = qualify("D", &ListingDocument { facts: Vec::new() });
    assert!(!neither.active && !neither.interested);
}

#[test]
fn qualify_trims_label_and_value() {
    let facts = vec![
        vec![String::from(""), String::from(" Days on URE\n"), String::from("\t20 ")],
        vec![String::from(""), String::from("Status "), String::from(" Active")],
    ];
    let listing = qualify("A", &ListingDocument { facts });
    assert!(listing.active && listing.interested);
}

#[test]
fn qualify_passes_over_rows_that_state_no_fact() {
    let facts = vec![
        Vec::new(),
        vec![String::from("Status")],
        vec![String::from("Status"), String::from("Active")],
        vec![String::from("Days on URE"), String::from("Just Listed"), String::from("x")],
    ];
    let listing = qualify("A", &ListingDocument { facts });
    assert!(!listing.active && !listing.interested);
}

#[test]
fn qualify_reads_label_and_value_at_their_places_only() {
    let facts = vec![vec![
        String::from("Status"),
        String::from("Active"),
        String::from("Status"),
        String::from("Active"),
    ]];
    assert!(!qualify("A", &ListingDocument { facts }).active);
}

#[test]
fn parse_listings_keeps_the_order_of_the_map() {
    let mut documents = DocumentMap::new();
    documents.insert(String::from("3"), document("30", "Active"));
    documents.insert(String::from("1"), document("5", "Active"));
    documents.insert(String::from("2"), document("Just Listed", "Active"));
    let desired = parse_listings(&documents);
    let ids: Vec<&str> = desired.iter().map(|l| l.mls.as_str()).collect();
    assert_eq!(ids, vec!["3", "2"]);
    assert!(parse_listings(&DocumentMap::new()).is_empty());
}

#[test]
fn alert_is_made_only_for_desired_listings() {
    let mut documents = DocumentMap::new();
    documents.insert(String::from("1"), document("5", "Active"));
    assert_eq!(listing_alert(&documents), None);
    documents.insert(String::from("2"), document("20", "Active"));
    assert_eq!(
        listing_alert(&documents),
        Some(String::from("https://www.utahrealestate.com/2"))
    );
    assert_eq!(listing_alert(&DocumentMap::new()), None);
}

#[test]
fn get_listing_finds_the_fact_blocks_of_a_page() {
    let body = html("Just Listed", "Active");
    match get_listing(String::from("1711234"), &body) {
        FetchResult::Success { id, document, byte_length } => {
            assert_eq!(id, "1711234");
            assert_eq!(byte_length, body.len());
            assert_eq!(
                document.facts,
                vec![
                    vec![" ", " Days on URE ", "Just Listed"],
                    vec![" ", "Status", " Active "],
                    vec![" ", "Type", "Single Family"],
                ]
            );
            let listing = qualify(&id, &document);
            assert!(listing.active && listing.interested);
        }
        FetchResult::Failure { .. } => panic!("the page can be searched"),
    }
}

#[test]
fn get_listing_counts_bytes_not_characters() {
    let body = "<p>\u{20ac}</p>";
    match get_listing(String::from("A"), body) {
        FetchResult::Success { document, byte_length, .. } => {
            assert_eq!(byte_length, 10);
            assert!(document.facts.is_empty());
        }
        FetchResult::Failure { .. } => panic!("the page can be searched"),
    }
}

#[test]
fn pages_that_are_no_html_have_no_facts() {
    for body in ["", "not html at all", "{\"markers\":[]}", "<div class=fact-copy-wrap>"] {
        match get_listing(String::from("A"), body) {
            FetchResult::Success { document, .. } => {
                let listing = qualify("A", &document);
                assert!(!listing.active && !listing.interested);
            }
            FetchResult::Failure { .. } => panic!("the page can be searched"),
        }
    }
}

#[test]
fn downloaded_pages_decide_the_alert() {
    let mut documents = DocumentMap::new();
    let pages = [("1", html("19", "Active")), ("2", html("20", "Active")), ("3", html("40", "Sold"))];
    for (id, body) in pages.iter() {
        match get_listing(String::from(*id), body) {
            FetchResult::Success { id, document, .. } => documents.insert(id, document),
            FetchResult::Failure { .. } => panic!("the page can be searched"),
        }
    }
    assert_eq!(
        listing_alert(&documents),
        Some(String::from("https://www.utahrealestate.com/2"))
    );
}

#[test]
fn fetched_turns_rows_into_a_page_and_their_absence_into_a_failure() {
    match fetched(String::from("A"), 12, Some(vec![fact("Status", "Active")])) {
        FetchResult::Success { id, document, byte_length } => {
            assert_eq!(id, "A");
            assert_eq!(byte_length, 12);
            assert_eq!(document.facts, vec![fact("Status", "Active")]);
        }
        FetchResult::Failure { .. } => panic!("rows make a page"),
    }
    match fetched(String::from("B"), 12, None) {
        FetchResult::Failure { id, cause } => {
            assert_eq!(id, "B");
            assert_eq!(cause, "the fact selector was refused");
        }
        FetchResult::Success { .. } => panic!("no rows, no page"),
    }
}
