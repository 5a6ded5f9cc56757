//! The pages that were downloaded, by listing identifier.

use vstd::prelude::*;

verus! {

/// What the field rules read of a downloaded page: for each fact block
/// found in the page, in the order in which the search of the page came to
/// them, its pieces of text.
#[derive(Debug)]
pub struct ListingDocument {
    pub facts: Vec<Vec<String>>,
}

/// A downloaded page under the identifier of its listing.
#[derive(Debug)]
pub struct DocumentEntry {
    pub id: String,
    pub document: ListingDocument,
}

/// A map from listing identifiers to their pages, kept in the order in which
/// the identifiers first came in.
#[derive(Debug)]
pub struct DocumentMap {
    pub entries: Vec<DocumentEntry>,
}

impl View for DocumentMap {
    type V = Map<Seq<char>, ListingDocument>;

    /// The page held for each identifier.
    open spec fn view(&self) -> Map<Seq<char>, ListingDocument> {
        Map::new(
            |id: Seq<char>| self.ids().contains(id),
            |id: Seq<char>| self.entries@[self.ids().index_of(id)].document,
        )
    }
}

impl DocumentMap {
    /// The identifiers of the entries, in their order.
    pub open spec fn ids(&self) -> Seq<Seq<char>> {
        Seq::new(self.entries@.len(), |i: int| self.entries@[i].id@)
    }

    /// No identifier has two entries.
    pub open spec fn wf(&self) -> bool {
        self.ids().no_duplicates()
    }

    /// The view has one key for each entry.
    pub proof fn lemma_len(&self)
        requires
            self.wf(),
        ensures
            self@.dom().finite(),
            self@.dom().len() == self.entries@.len(),
    {
        assert(self@.dom() =~= self.ids().to_set());
        self.ids().unique_seq_to_set();
    }

    /// Each entry is what the view holds for its identifier.
    pub proof fn lemma_entry(&self, i: int)
        requires
            self.wf(),
            0 <= i < self.entries@.len(),
        ensures
            self@.contains_key(self.entries@[i].id@),
            self@[self.entries@[i].id@] == self.entries@[i].document,
    {
        let ids = self.ids();
        assert(ids[i] == self.entries@[i].id@);
        assert(ids.contains(ids[i]));
        let j = ids.index_of(ids[i]);
        assert(ids[j] == ids[i]);
    }

    /// A map without entries.
    pub fn new() -> (map: DocumentMap)
        ensures
            map.wf(),
            map@ == Map::<Seq<char>, ListingDocument>::empty(),
            map.entries@.len() == 0,
    {
        let map = DocumentMap { entries: Vec::new() };
        assert(map@ =~= Map::<Seq<char>, ListingDocument>::empty());
        map
    }

    /// The number of identifiers that have a page.
    pub fn len(&self) -> (n: usize)
        requires
            self.wf(),
        ensures
            n == self@.dom().len(),
            n == self.entries@.len(),
    {
        proof {
            self.lemma_len();
        }
        self.entries.len()
    }

    /// Where the first entry of `id` stands, if it has one.
    pub fn position(&self, id: &str) -> (found: Option<usize>)
        ensures
            match found {
                Some(i) => i < self.entries@.len() && self.ids()[i as int] == id@ && forall|j: int|
                    0 <= j < i ==> self.ids()[j] != id@,
                None => !self.ids().contains(id@),
            },
    {
        let mut i: usize = 0;
        while i < self.entries.len()
            invariant
                i <= self.entries@.len(),
                forall|j: int| 0 <= j < i ==> self.ids()[j] != id@,
            decreases self.entries@.len() - i,
        {
            if crate::text::same_text(self.entries[i].id.as_str(), id) {
                return Some(i);
            }
            i += 1;
        }
        None
    }

    /// The page held for `id`, if there is one.
    pub fn get(&self, id: &str) -> (found: Option<&ListingDocument>)
        requires
            self.wf(),
        ensures
            match found {
                Some(document) => self@.contains_key(id@) && *document == self@[id@],
                None => !self@.contains_key(id@),
            },
    {
        match self.position(id) {
            Some(i) => {
                proof {
                    self.lemma_entry(i as int);
                }
                Some(&self.entries[i].document)
            },
            None => None,
        }
    }

    /// Files `document` under `id`. A page that was held for `id` before is
    /// replaced and keeps its place in the order.
    pub fn insert(&mut self, id: String, document: ListingDocument)
        requires
            old(self).wf(),
        ensures
            final(self).wf(),
            final(self)@ == old(self)@.insert(id@, document),
            final(self).entries@.len() == old(self).entries@.len() + if old(self)@.contains_key(
                id@,
            ) {
                0int
            } else {
                1int
            },
    {
        let found = self.position(id.as_str());
        let ghost before = *self;
        let ghost key = id@;
        match found {
            Some(i) => {
                self.entries.set(i, DocumentEntry { id, document });
                proof {
                    assert(self.ids() =~= before.ids());
                    assert forall|k: Seq<char>| self@.contains_key(k) implies #[trigger] self@[k]
                        == before@.insert(key, document)[k] by {
                        let j = self.ids().index_of(k);
                        assert(self.ids()[j] == k);
                        if k == key {
                            assert(j == i);
                        }
                    }
                    assert(self@ =~= before@.insert(key, document));
                }
            },
            None => {
                self.entries.push(DocumentEntry { id, document });
                proof {
                    let n = before.entries@.len() as int;
                    assert(self.ids() =~= before.ids().push(key));
                    assert forall|a: int, b: int|
                        0 <= a < self.ids().len() && 0 <= b < self.ids().len() && a != b implies self.ids()[a]
                        != self.ids()[b] by {
                        if a < n {
                            assert(before.ids().contains(before.ids()[a]));
                        }
                        if b < n {
                            assert(before.ids().contains(before.ids()[b]));
                        }
                    }
                    assert forall|k: Seq<char>| self.ids().contains(k) <==> (before.ids().contains(
                        k,
                    ) || k == key) by {
                        if before.ids().contains(k) {
                            let j = before.ids().index_of(k);
                            assert(self.ids()[j] == k);
                        }
                        if k == key {
                            assert(self.ids()[n] == k);
                        }
                    }
                    assert forall|k: Seq<char>| self@.contains_key(k) implies #[trigger] self@[k]
                        == before@.insert(key, document)[k] by {
                        let j = self.ids().index_of(k);
                        assert(self.ids()[j] == k);
                        if k != key {
                            let j0 = before.ids().index_of(k);
                            assert(before.ids()[j0] == k);
                            assert(self.ids()[j0] == k);
                            assert(j == j0);
                        } else {
                            assert(self.ids()[n] == k);
                            assert(j == n);
                        }
                    }
                    assert(self@ =~= before@.insert(key, document));
                }
            },
        }
    }
}

} // verus!
