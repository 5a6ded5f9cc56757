use sure::dedup::{get_checked_listings, remove_duplicates, write_checked_listings};
use sure::search::{Marker, UreData};

fn marker(id: &str, price: &str) -> Marker {
    Marker { id: String::from(id), price: String::from(price) }
}

fn ids_of(data: &UreData) -> Vec<String> {
    data.markers.iter().map(|m| m.id.clone()).collect()
}

#[test]
fn seen_candidate_is_dropped_and_new_one_is_remembered() {
    let mut listings = UreData { markers: vec![marker("A", "$1"), marker("B", "$2")] };
    let mut existing = vec![String::from("A")];
    let grew = remove_duplicates(&mut listings, &mut existing);
    assert!(grew);
    assert_eq!(listings.markers.len(), 1);
    assert_eq!(listings.markers[0].id, "B");
    assert_eq!(listings.markers[0].price, "$2");
    assert_eq!(existing, vec!["A", "B"]);
}

#[test]
fn no_seen_identifier_survives_the_filter() {
    let mut listings = UreData {
        markers: vec![
            marker("1", "a"),
            marker("2", "b"),
            marker("3", "c"),
            marker("2", "d"),
            marker("4", "e"),
        ],
    };
    let mut existing = vec![String::from("2"), String::from("4"), String::from("9")];
    let before = existing.clone();
    remove_duplicates(&mut listings, &mut existing);
    assert_eq!(ids_of(&listings), vec!["1", "3"]);
    for m in listings.markers.iter() {
        assert!(!before.contains(&m.id));
    }
    assert_eq!(existing, vec!["2", "4", "9", "1", "3"]);
}

#[test]
fn second_run_on_the_same_answer_changes_nothing() {
    let mut existing = vec![String::from("A")];
    let mut first = UreData { markers: vec![marker("A", "$1"), marker("B", "$2")] };
    assert!(remove_duplicates(&mut first, &mut existing));
    let after_first = existing.clone();
    let mut second = UreData { markers: vec![marker("A", "$1"), marker("B", "$2")] };
    let grew = remove_duplicates(&mut second, &mut existing);
    assert!(!grew);
    assert!(second.markers.is_empty());
    assert_eq!(existing, after_first);
}

#[test]
fn empty_answer_leaves_the_state_alone() {
    let mut listings = UreData { markers: Vec::new() };
    let mut existing = vec![String::from("A")];
    assert!(!remove_duplicates(&mut listings, &mut existing));
    assert!(listings.markers.is_empty());
    assert_eq!(existing, vec!["A"]);
}

#[test]
fn nothing_seen_lets_every_candidate_through() {
    let mut listings = UreData { markers: vec![marker("A", "$1"), marker("B", "$2")] };
    let mut existing: Vec<String> = Vec::new();
    assert!(remove_duplicates(&mut listings, &mut existing));
    assert_eq!(ids_of(&listings), vec!["A", "B"]);
    assert_eq!(existing, vec!["A", "B"]);
}

#[test]
fn a_new_identifier_found_twice_is_kept_twice() {
    let mut listings = UreData { markers: vec![marker("A", "$1"), marker("A", "$3")] };
    let mut existing: Vec<String> = Vec::new();
    assert!(remove_duplicates(&mut listings, &mut existing));
    assert_eq!(ids_of(&listings), vec!["A", "A"]);
    assert_eq!(listings.markers[1].price, "$3");
    assert_eq!(existing, vec!["A", "A"]);
}

#[test]
fn checked_listings_are_the_trimmed_lines() {
    let lines = vec![String::from("1711234 "), String::from("  1711235"), String::from("")];
    assert_eq!(get_checked_listings(&lines), vec!["1711234", "1711235", ""]);
    assert!(get_checked_listings(&Vec::new()).is_empty());
}

#[test]
fn checked_listings_are_written_one_to_a_line() {
    let checked = vec![String::from("A"), String::from("B")];
    assert_eq!(write_checked_listings(&checked), "A\nB\n");
    assert_eq!(write_checked_listings(&Vec::new()), "");
}

#[test]
fn state_file_survives_a_round_trip() {
    let checked = vec![String::from("1711234"), String::from("1711235")];
    let contents = write_checked_listings(&checked);
    let lines: Vec<String> = contents.lines().map(String::from).collect();
    assert_eq!(get_checked_listings(&lines), checked);
}
