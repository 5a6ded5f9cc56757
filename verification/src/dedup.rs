//! Which candidates are new: the identifiers seen in earlier runs, and the
//! filter that drops what was seen and remembers what it lets through.

use vstd::prelude::*;
use vstd::string::*;
use crate::search::{candidate_ids, candidates, Candidate, Marker, UreData};
use crate::text::{contains_text, texts, trim, trimmed};

verus! {

/// The identifiers that the lines of the state file hold: each line without
/// the white space at its ends.
pub open spec fn checked_text(lines: Seq<Seq<char>>) -> Seq<Seq<char>> {
    Seq::new(lines.len(), |i: int| trimmed(lines[i]))
}

/// Reads the identifiers seen so far off the lines of the state file. A file
/// that is not there has no lines, and nothing was seen.
pub fn get_checked_listings(lines: &Vec<String>) -> (checked: Vec<String>)
    ensures
        texts(checked@) == checked_text(texts(lines@)),
{
    let mut checked: Vec<String> = Vec::new();
    let mut i: usize = 0;
    while i < lines.len()
        invariant
            i <= lines@.len(),
            checked@.len() == i,
            forall|j: int| 0 <= j < i ==> (#[trigger] checked@[j])@ == trimmed(lines@[j]@),
        decreases lines@.len() - i,
    {
        checked.push(trim(lines[i].as_str()).to_owned());
        i += 1;
    }
    assert(texts(checked@) =~= checked_text(texts(lines@)));
    checked
}

/// The state file for the identifiers `checked`: each on a line of its own.
pub open spec fn checked_file_text(checked: Seq<Seq<char>>) -> Seq<char>
    decreases checked.len(),
{
    if checked.len() == 0 {
        Seq::empty()
    } else {
        checked_file_text(checked.drop_last()) + checked.last() + "\n"@
    }
}

/// Writes the whole state file anew for the identifiers `checked`.
pub fn write_checked_listings(checked: &Vec<String>) -> (contents: String)
    ensures
        contents@ == checked_file_text(texts(checked@)),
{
    let mut contents = String::new();
    let mut i: usize = 0;
    assert(texts(checked@).take(0) == Seq::<Seq<char>>::empty());
    while i < checked.len()
        invariant
            i <= checked@.len(),
            contents@ == checked_file_text(texts(checked@).take(i as int)),
        decreases checked@.len() - i,
    {
        proof {
            let upto = texts(checked@).take(i + 1);
            assert(upto.drop_last() == texts(checked@).take(i as int));
            assert(upto.last() == checked@[i as int]@);
        }
        contents.append(checked[i].as_str());
        contents.append("\n");
        i += 1;
    }
    assert(texts(checked@).take(i as int) == texts(checked@));
    contents
}

/// The candidates among `found` whose identifier is not in `seen`, in their
/// order.
pub open spec fn new_candidates(found: Seq<Candidate>, seen: Seq<Seq<char>>) -> Seq<Candidate>
    decreases found.len(),
{
    if found.len() == 0 {
        Seq::empty()
    } else if seen.contains(found.last().id) {
        new_candidates(found.drop_last(), seen)
    } else {
        new_candidates(found.drop_last(), seen).push(found.last())
    }
}

/// What is remembered after a run that found `found`: what was seen before,
/// and then the identifiers of the new candidates.
pub open spec fn seen_after(found: Seq<Candidate>, seen: Seq<Seq<char>>) -> Seq<Seq<char>> {
    seen + candidate_ids(new_candidates(found, seen))
}

/// Drops from `listings` every candidate whose identifier is in `existing`
/// and adds the identifiers of those that stay to `existing`. The answer
/// says whether any candidate stays, which is when `existing` has grown and
/// is to be written back.
pub fn remove_duplicates(listings: &mut UreData, existing: &mut Vec<String>) -> (grew: bool)
    ensures
        final(listings)@ == new_candidates(old(listings)@, texts(old(existing)@)),
        texts(final(existing)@) == seen_after(old(listings)@, texts(old(existing)@)),
        grew == (final(listings)@.len() > 0),
        forall|i: int|
            0 <= i < final(listings)@.len() ==> !texts(old(existing)@).contains(
                #[trigger] final(listings)@[i].id,
            ),
{
    let ghost found = listings@;
    let ghost seen = texts(existing@);
    let mut kept: Vec<Marker> = Vec::new();
    let mut i: usize = 0;
    assert(found.take(0) == Seq::<Candidate>::empty());
    while i < listings.markers.len()
        invariant
            i <= listings.markers@.len(),
            found == listings@,
            seen == texts(existing@),
            candidates(kept@) == new_candidates(found.take(i as int), seen),
        decreases listings.markers@.len() - i,
    {
        let marker = &listings.markers[i];
        proof {
            let upto = found.take(i + 1);
            assert(upto.drop_last() == found.take(i as int));
            assert(upto.last() == marker@);
        }
        if !contains_text(existing, marker.id.as_str()) {
            let copy = Marker { price: marker.price.clone(), id: marker.id.clone() };
            assert(candidates(kept@.push(copy)) == candidates(kept@).push(marker@));
            kept.push(copy);
        }
        i += 1;
    }
    assert(found.take(i as int) == found);
    proof {
        lemma_new_candidates_unseen(found, seen);
    }
    let mut j: usize = 0;
    while j < kept.len()
        invariant
            j <= kept@.len(),
            texts(existing@) == seen + candidate_ids(candidates(kept@)).take(j as int),
        decreases kept@.len() - j,
    {
        let id = kept[j].id.clone();
        proof {
            let ids = candidate_ids(candidates(kept@));
            assert(ids[j as int] == id@);
            assert(ids.take(j + 1) == ids.take(j as int).push(id@));
            assert(texts(existing@.push(id)) == texts(existing@).push(id@));
        }
        existing.push(id);
        j += 1;
    }
    assert(candidate_ids(candidates(kept@)).take(j as int) == candidate_ids(candidates(kept@)));
    let grew = kept.len() > 0;
    listings.markers = kept;
    grew
}

/// No candidate whose identifier was seen is among the new ones, and every
/// new one is among those found.
pub proof fn lemma_new_candidates_unseen(found: Seq<Candidate>, seen: Seq<Seq<char>>)
    ensures
        forall|i: int|
            0 <= i < new_candidates(found, seen).len() ==> !seen.contains(
                #[trigger] new_candidates(found, seen)[i].id,
            ) && found.contains(new_candidates(found, seen)[i]),
    decreases found.len(),
{
    if found.len() > 0 {
        let before = found.drop_last();
        lemma_new_candidates_unseen(before, seen);
        let fresh = new_candidates(found, seen);
        assert forall|i: int| 0 <= i < fresh.len() implies !seen.contains(#[trigger] fresh[i].id)
            && found.contains(fresh[i]) by {
            if i < new_candidates(before, seen).len() {
                let earlier = new_candidates(before, seen)[i];
                assert(!seen.contains(earlier.id));
                assert(before.contains(earlier));
                let k = before.index_of(earlier);
                assert(found[k] == earlier);
            } else {
                assert(found[found.len() - 1] == fresh[i]);
            }
        }
    }
}

/// Every candidate found whose identifier was not seen is among the new
/// ones.
pub proof fn lemma_new_candidates_complete(found: Seq<Candidate>, seen: Seq<Seq<char>>, i: int)
    requires
        0 <= i < found.len(),
        !seen.contains(found[i].id),
    ensures
        new_candidates(found, seen).contains(found[i]),
    decreases found.len(),
{
    let fresh = new_candidates(found, seen);
    if i == found.len() - 1 {
        assert(fresh[fresh.len() - 1] == found[i]);
    } else {
        let before = found.drop_last();
        lemma_new_candidates_complete(before, seen, i);
        let earlier = new_candidates(before, seen);
        let k = earlier.index_of(before[i]);
        assert(fresh[k] == found[i]);
    }
}

/// What is remembered after a run is exactly what was remembered before
/// together with the identifiers of the new candidates; nothing that was
/// remembered is lost.
pub proof fn lemma_seen_grows(found: Seq<Candidate>, seen: Seq<Seq<char>>)
    ensures
        seen_after(found, seen).to_set() == seen.to_set().union(
            candidate_ids(new_candidates(found, seen)).to_set(),
        ),
        seen_after(found, seen).take(seen.len() as int) == seen,
        seen_after(found, seen).len() == seen.len() + new_candidates(found, seen).len(),
{
    let added = candidate_ids(new_candidates(found, seen));
    let after = seen_after(found, seen);
    assert forall|id: Seq<char>| after.contains(id) <==> seen.contains(id) || added.contains(
        id,
    ) by {
        if seen.contains(id) {
            let k = seen.index_of(id);
            assert(after[k] == id);
        }
        if added.contains(id) {
            let k = added.index_of(id);
            assert(after[seen.len() + k] == id);
        }
        if after.contains(id) {
            let k = after.index_of(id);
            if k < seen.len() {
                assert(seen[k] == id);
            } else {
                assert(added[k - seen.len()] == id);
            }
        }
    }
    assert(after.to_set() =~= seen.to_set().union(added.to_set()));
    assert(after.take(seen.len() as int) =~= seen);
}

/// A candidate whose identifier is remembered after a run is not new in the
/// next: the same answer of the search, filtered again, leaves no candidate,
/// and what is remembered stays as it is.
pub proof fn lemma_second_run_changes_nothing(found: Seq<Candidate>, seen: Seq<Seq<char>>)
    ensures
        new_candidates(found, seen_after(found, seen)) == Seq::<Candidate>::empty(),
        seen_after(found, seen_after(found, seen)) == seen_after(found, seen),
{
    let after = seen_after(found, seen);
    assert forall|i: int| 0 <= i < found.len() implies after.contains(#[trigger] found[i].id) by {
        if seen.contains(found[i].id) {
            let k = seen.index_of(found[i].id);
            assert(after[k] == found[i].id);
        } else {
            lemma_new_candidates_complete(found, seen, i);
            let fresh = new_candidates(found, seen);
            let k = fresh.index_of(found[i]);
            assert(candidate_ids(fresh)[k] == found[i].id);
            assert(after[seen.len() + k] == found[i].id);
        }
    }
    lemma_all_seen(found, after);
    assert(candidate_ids(Seq::<Candidate>::empty()) =~= Seq::<Seq<char>>::empty());
    assert(after + Seq::<Seq<char>>::empty() =~= after);
}

proof fn lemma_all_seen(found: Seq<Candidate>, seen: Seq<Seq<char>>)
    requires
        forall|i: int| 0 <= i < found.len() ==> seen.contains(#[trigger] found[i].id),
    ensures
        new_candidates(found, seen) == Seq::<Candidate>::empty(),
    decreases found.len(),
{
    if found.len() > 0 {
        let before = found.drop_last();
        assert forall|i: int| 0 <= i < before.len() implies seen.contains(
            #[trigger] before[i].id,
        ) by {
            assert(before[i] == found[i]);
        }
        lemma_all_seen(before, seen);
        assert(seen.contains(found[found.len() - 1].id));
    }
}

} // verus!
