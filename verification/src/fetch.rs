//! Bookkeeping for a batch of page downloads that complete in any order.
//!
//! The caller starts one download per candidate and hands each outcome to
//! [`FetchOrchestrator::record`] as it arrives. A failed download is counted
//! and dropped; it never ends the batch.

use vstd::prelude::*;
use vstd::string::*;
use vstd::seq_lib::{to_multiset_build, to_multiset_contains, to_multiset_len, to_multiset_remove};
use crate::documents::{DocumentMap, ListingDocument};
use crate::listing::{listing_url, LISTING_BASE_URL};
use crate::search::UreData;
use crate::text::{append_repeated, decimal_string, decimal_text, repeated};

verus! {

/// How many cells the progress bar has.
pub const PROGRESS_WIDTH: usize = 50;

/// The outcome of one download.
#[derive(Debug)]
pub enum FetchResult {
    Success { id: String, document: ListingDocument, byte_length: usize },
    Failure { id: String, cause: String },
}

/// The identifier of the candidate that an outcome belongs to.
pub open spec fn result_id(result: FetchResult) -> Seq<char> {
    match result {
        FetchResult::Success { id, .. } => id@,
        FetchResult::Failure { id, .. } => id@,
    }
}

/// What the caller does after an outcome was recorded.
#[derive(Debug)]
pub enum FetchAction {
    /// Show this line on the status stream.
    Progress { line: String },
    /// Log that the download of this candidate failed.
    Dropped { id: String, cause: String },
}

/// The state of a batch as a mathematical value.
pub struct Tally {
    pub total: nat,
    pub succeeded: nat,
    pub failed: nat,
    pub bytes: nat,
    pub documents: Map<Seq<char>, ListingDocument>,
}

impl Tally {
    /// Every download has reported.
    pub open spec fn complete(self) -> bool {
        self.succeeded + self.failed == self.total
    }
}

/// A batch of `total` downloads before any outcome.
pub open spec fn start(total: nat) -> Tally {
    Tally { total, succeeded: 0, failed: 0, bytes: 0, documents: Map::empty() }
}

/// The batch after one more outcome.
pub open spec fn step(tally: Tally, result: FetchResult) -> Tally {
    match result {
        FetchResult::Success { id, document, byte_length } => Tally {
            succeeded: tally.succeeded + 1,
            bytes: tally.bytes + byte_length as nat,
            documents: tally.documents.insert(id@, document),
            ..tally
        },
        FetchResult::Failure { .. } => Tally { failed: tally.failed + 1, ..tally },
    }
}

/// The batch after the outcomes `results`, in the order in which they came.
pub open spec fn run(tally: Tally, results: Seq<FetchResult>) -> Tally
    decreases results.len(),
{
    if results.len() == 0 {
        tally
    } else {
        step(run(tally, results.drop_last()), results.last())
    }
}

/// How many cells of the bar are filled when `current` of `total` pages are
/// there: the same share of the bar, rounded down.
pub open spec fn progress_cells(current: nat, total: nat) -> nat {
    if total == 0 {
        0
    } else if current >= total {
        PROGRESS_WIDTH as nat
    } else {
        current * PROGRESS_WIDTH as nat / total
    }
}

/// The status line for `current` of `total` pages.
pub open spec fn progress_text(current: nat, total: nat) -> Seq<char> {
    "\rdownloading listings "@ + decimal_text(current) + "/"@ + decimal_text(total) + ": ["@
        + repeated("="@, progress_cells(current, total)) + ">"@ + repeated(
        " "@,
        (PROGRESS_WIDTH - progress_cells(current, total)) as nat,
    ) + "]"@
}

/// The number of filled cells is never more than the bar has.
pub proof fn lemma_progress_cells(current: nat, total: nat)
    ensures
        progress_cells(current, total) <= PROGRESS_WIDTH,
{
    if total != 0 && current < total {
        assert(current * 50 / total <= 50) by (nonlinear_arith)
            requires
                current < total,
                total > 0,
        ;
    }
}

/// Writes the status line for `current` of `total` pages.
pub fn progress_line(current: usize, total: usize) -> (line: String)
    ensures
        line@ == progress_text(current as nat, total as nat),
{
    proof {
        lemma_progress_cells(current as nat, total as nat);
    }
    let filled: usize = if total == 0 {
        0
    } else if current >= total {
        PROGRESS_WIDTH
    } else {
        (current as u128 * PROGRESS_WIDTH as u128 / total as u128) as usize
    };
    let mut line = "\rdownloading listings ".to_owned();
    line.append(decimal_string(current).as_str());
    line.append("/");
    line.append(decimal_string(total).as_str());
    line.append(": [");
    append_repeated(&mut line, "=", filled);
    line.append(">");
    append_repeated(&mut line, " ", PROGRESS_WIDTH - filled);
    line.append("]");
    line
}

/// The bookkeeping of one batch.
#[derive(Debug)]
pub struct FetchOrchestrator {
    pub total: usize,
    pub succeeded: usize,
    pub failed: usize,
    pub bytes: u128,
    pub documents: DocumentMap,
}

impl View for FetchOrchestrator {
    type V = Tally;

    open spec fn view(&self) -> Tally {
        Tally {
            total: self.total as nat,
            succeeded: self.succeeded as nat,
            failed: self.failed as nat,
            bytes: self.bytes as nat,
            documents: self.documents@,
        }
    }
}

impl FetchOrchestrator {
    /// No more outcomes are counted than downloads were started, the pages
    /// are filed under distinct identifiers, and the byte total is what that
    /// many pages can hold.
    pub open spec fn wf(&self) -> bool {
        &&& self.documents.wf()
        &&& self.succeeded + self.failed <= self.total
        &&& self.bytes <= self.succeeded * usize::MAX
    }

    /// A batch of `total` downloads, none of which has reported.
    pub fn new(total: usize) -> (batch: FetchOrchestrator)
        ensures
            batch.wf(),
            batch@ == start(total as nat),
    {
        FetchOrchestrator { total, succeeded: 0, failed: 0, bytes: 0, documents: DocumentMap::new() }
    }

    /// Whether every download has reported.
    pub fn is_complete(&self) -> (complete: bool)
        requires
            self.wf(),
        ensures
            complete == self@.complete(),
    {
        self.succeeded + self.failed == self.total
    }

    /// Takes in the outcome of one download. A page is counted, its size is
    /// added to the byte total and it is filed under its identifier; the
    /// action is the status line to show. A failure is counted and handed
    /// back to be logged. Either way the batch goes on.
    pub fn record(&mut self, result: FetchResult) -> (action: FetchAction)
        requires
            old(self).wf(),
            !old(self)@.complete(),
        ensures
            final(self).wf(),
            final(self)@ == step(old(self)@, result),
            match result {
                FetchResult::Success { .. } => action matches FetchAction::Progress { line }
                    && line@ == progress_text(final(self)@.succeeded, final(self)@.total),
                FetchResult::Failure { id, cause } => action == (FetchAction::Dropped { id, cause }),
            },
    {
        match result {
            FetchResult::Success { id, document, byte_length } => {
                assert(self.bytes + byte_length <= (self.succeeded + 1) * usize::MAX
                    <= usize::MAX * usize::MAX) by (nonlinear_arith)
                    requires
                        self.bytes <= self.succeeded * usize::MAX,
                        byte_length <= usize::MAX,
                        self.succeeded + 1 <= usize::MAX,
                ;
                self.succeeded = self.succeeded + 1;
                self.bytes = self.bytes + byte_length as u128;
                self.documents.insert(id, document);
                FetchAction::Progress { line: progress_line(self.succeeded, self.total) }
            },
            FetchResult::Failure { id, cause } => {
                self.failed = self.failed + 1;
                FetchAction::Dropped { id, cause }
            },
        }
    }

    /// The pages of the downloads that succeeded, by identifier.
    pub fn into_documents(self) -> (documents: DocumentMap)
        requires
            self.wf(),
        ensures
            documents.wf(),
            documents@ == self@.documents,
    {
        self.documents
    }
}

/// One download to start: the page at `url` for the candidate `id`, which
/// stands at `index` among the candidates.
#[derive(Debug)]
pub struct FetchTask {
    pub id: String,
    pub index: usize,
    pub url: String,
}

/// The task is the download for the candidate `id` at `index`.
pub open spec fn is_task_for(task: FetchTask, id: Seq<char>, index: int) -> bool {
    &&& task.id@ == id
    &&& task.index == index
    &&& task.url@ == LISTING_BASE_URL@ + id
}

/// Opens a batch for the candidates of `data`: the bookkeeping, with nothing
/// recorded, and one download to start for each candidate. All of them may
/// run at once; their outcomes are recorded in whatever order they arrive.
pub fn scrape_listings(data: &UreData) -> (batch: (FetchOrchestrator, Vec<FetchTask>))
    ensures
        batch.0.wf(),
        batch.0@ == start(data@.len()),
        batch.1@.len() == data@.len(),
        forall|i: int|
            0 <= i < data@.len() ==> is_task_for(#[trigger] batch.1@[i], data@[i].id, i),
{
    let mut tasks: Vec<FetchTask> = Vec::new();
    let mut i: usize = 0;
    while i < data.markers.len()
        invariant
            i <= data.markers@.len(),
            tasks@.len() == i,
            forall|j: int| 0 <= j < i ==> is_task_for(#[trigger] tasks@[j], data@[j].id, j),
        decreases data.markers@.len() - i,
    {
        let id = data.markers[i].id.clone();
        let url = listing_url(id.as_str());
        tasks.push(FetchTask { id, index: i, url });
        i += 1;
    }
    (FetchOrchestrator::new(data.markers.len()), tasks)
}

/// The sum of `weight` over the outcomes.
pub open spec fn sum_over(results: Seq<FetchResult>, weight: spec_fn(FetchResult) -> nat) -> nat
    decreases results.len(),
{
    if results.len() == 0 {
        0
    } else {
        sum_over(results.drop_last(), weight) + weight(results.last())
    }
}

/// How many of the outcomes are pages.
pub open spec fn successes(results: Seq<FetchResult>) -> nat {
    sum_over(
        results,
        |r: FetchResult|
            if r is Success {
                1nat
            } else {
                0nat
            },
    )
}

/// How many of the outcomes are failures.
pub open spec fn failures(results: Seq<FetchResult>) -> nat {
    sum_over(
        results,
        |r: FetchResult|
            if r is Failure {
                1nat
            } else {
                0nat
            },
    )
}

/// The sizes of the pages among the outcomes, added up.
pub open spec fn byte_sum(results: Seq<FetchResult>) -> nat {
    sum_over(
        results,
        |r: FetchResult|
            match r {
                FetchResult::Success { byte_length, .. } => byte_length as nat,
                FetchResult::Failure { .. } => 0nat,
            },
    )
}

/// The identifiers of the pages among the outcomes, in their order.
pub open spec fn fetched_ids(results: Seq<FetchResult>) -> Seq<Seq<char>>
    decreases results.len(),
{
    if results.len() == 0 {
        Seq::empty()
    } else if results.last() is Success {
        fetched_ids(results.drop_last()).push(result_id(results.last()))
    } else {
        fetched_ids(results.drop_last())
    }
}

/// No two outcomes belong to the same candidate.
pub open spec fn distinct_candidates(results: Seq<FetchResult>) -> bool {
    forall|i: int, j: int|
        0 <= i < results.len() && 0 <= j < results.len() && i != j ==> result_id(results[i])
            != result_id(results[j])
}

/// A batch after some outcomes has counted each of them once, as a page or
/// as a failure, and has added up the sizes of the pages.
pub proof fn lemma_run_totals(tally: Tally, results: Seq<FetchResult>)
    ensures
        run(tally, results).total == tally.total,
        run(tally, results).succeeded == tally.succeeded + successes(results),
        run(tally, results).failed == tally.failed + failures(results),
        run(tally, results).bytes == tally.bytes + byte_sum(results),
        successes(results) + failures(results) == results.len(),
    decreases results.len(),
{
    if results.len() > 0 {
        lemma_run_totals(tally, results.drop_last());
    }
}

/// When every download of a batch has reported, the pages and the failures
/// together are as many as the candidates that were submitted, and the
/// batch is complete, however many failed.
pub proof fn lemma_every_outcome_counted(candidates: nat, results: Seq<FetchResult>)
    requires
        results.len() == candidates,
    ensures
        run(start(candidates), results).succeeded + run(start(candidates), results).failed
            == candidates,
        run(start(candidates), results).complete(),
{
    lemma_run_totals(start(candidates), results);
}

proof fn lemma_sum_remove(results: Seq<FetchResult>, weight: spec_fn(FetchResult) -> nat, j: int)
    requires
        0 <= j < results.len(),
    ensures
        sum_over(results, weight) == sum_over(results.remove(j), weight) + weight(results[j]),
    decreases results.len(),
{
    if j == results.len() - 1 {
        assert(results.remove(j) == results.drop_last());
    } else {
        lemma_sum_remove(results.drop_last(), weight, j);
        assert(results.remove(j).drop_last() == results.drop_last().remove(j));
        assert(results.remove(j).last() == results.last());
    }
}

proof fn lemma_sum_ignores_order(
    a: Seq<FetchResult>,
    b: Seq<FetchResult>,
    weight: spec_fn(FetchResult) -> nat,
)
    requires
        a.to_multiset() == b.to_multiset(),
    ensures
        sum_over(a, weight) == sum_over(b, weight),
    decreases a.len(),
{
    to_multiset_len(a);
    to_multiset_len(b);
    if a.len() > 0 {
        let x = a.last();
        let rest = a.drop_last();
        assert(rest.push(x) == a);
        to_multiset_build(rest, x);
        to_multiset_contains(b, x);
        assert(a.to_multiset().count(x) > 0);
        let j = choose|j: int| 0 <= j < b.len() && b[j] == x;
        to_multiset_remove(b, j);
        assert(rest.to_multiset() =~= a.to_multiset().remove(x));
        lemma_sum_ignores_order(rest, b.remove(j), weight);
        lemma_sum_remove(b, weight, j);
    }
}

/// The totals of a batch do not depend on the order in which the outcomes
/// arrive: two orders of the same outcomes give the same number of pages,
/// the same number of failures and the same byte total.
pub proof fn lemma_totals_ignore_order(
    candidates: nat,
    first: Seq<FetchResult>,
    second: Seq<FetchResult>,
)
    requires
        first.to_multiset() == second.to_multiset(),
    ensures
        run(start(candidates), first).succeeded == run(start(candidates), second).succeeded,
        run(start(candidates), first).failed == run(start(candidates), second).failed,
        run(start(candidates), first).bytes == run(start(candidates), second).bytes,
{
    lemma_run_totals(start(candidates), first);
    lemma_run_totals(start(candidates), second);
    lemma_sum_ignores_order(
        first,
        second,
        |r: FetchResult|
            if r is Success {
                1nat
            } else {
                0nat
            },
    );
    lemma_sum_ignores_order(
        first,
        second,
        |r: FetchResult|
            if r is Failure {
                1nat
            } else {
                0nat
            },
    );
    lemma_sum_ignores_order(
        first,
        second,
        |r: FetchResult|
            match r {
                FetchResult::Success { byte_length, .. } => byte_length as nat,
                FetchResult::Failure { .. } => 0nat,
            },
    );
}

/// The pages of a batch are filed under the identifiers of the outcomes that
/// are pages, and under those that were there before.
pub proof fn lemma_run_documents(tally: Tally, results: Seq<FetchResult>)
    ensures
        run(tally, results).documents.dom() == tally.documents.dom().union(
            fetched_ids(results).to_set(),
        ),
    decreases results.len(),
{
    let ids = fetched_ids(results);
    if results.len() == 0 {
        assert(tally.documents.dom().union(ids.to_set()) =~= tally.documents.dom());
    } else {
        let before = results.drop_last();
        lemma_run_documents(tally, before);
        let earlier = fetched_ids(before);
        if results.last() is Success {
            let id = result_id(results.last());
            assert forall|k: Seq<char>| ids.contains(k) <==> (earlier.contains(k) || k == id) by {
                if earlier.contains(k) {
                    let i = earlier.index_of(k);
                    assert(ids[i] == k);
                }
                if k == id {
                    assert(ids[ids.len() - 1] == k);
                }
            }
            assert(run(tally, results).documents.dom() =~= tally.documents.dom().union(
                ids.to_set(),
            ));
        }
    }
}

proof fn lemma_fetched_ids(results: Seq<FetchResult>)
    ensures
        fetched_ids(results).len() == successes(results),
        forall|k: Seq<char>| #[trigger]
            fetched_ids(results).contains(k) ==> exists|i: int|
                0 <= i < results.len() && result_id(results[i]) == k,
        distinct_candidates(results) ==> fetched_ids(results).no_duplicates(),
    decreases results.len(),
{
    let ids = fetched_ids(results);
    if results.len() > 0 {
        let before = results.drop_last();
        let earlier = fetched_ids(before);
        lemma_fetched_ids(before);
        assert forall|k: Seq<char>| #[trigger] ids.contains(k) implies exists|i: int|
            0 <= i < results.len() && result_id(results[i]) == k by {
            let p = ids.index_of(k);
            if p < earlier.len() {
                assert(earlier[p] == k);
                assert(earlier.contains(k));
                let i = choose|i: int| 0 <= i < before.len() && result_id(before[i]) == k;
                assert(result_id(results[i]) == k);
            } else {
                assert(result_id(results[results.len() - 1]) == k);
            }
        }
        if distinct_candidates(results) {
            assert(distinct_candidates(before)) by {
                assert forall|i: int, j: int|
                    0 <= i < before.len() && 0 <= j < before.len() && i != j implies result_id(
                    before[i],
                ) != result_id(before[j]) by {
                    assert(before[i] == results[i]);
                    assert(before[j] == results[j]);
                }
            }
            if results.last() is Success {
                let id = result_id(results.last());
                if earlier.contains(id) {
                    let i = choose|i: int| 0 <= i < before.len() && result_id(before[i]) == id;
                    assert(before[i] == results[i]);
                    assert(false);
                }
                assert forall|x: int, y: int|
                    0 <= x < ids.len() && 0 <= y < ids.len() && x != y implies ids[x] != ids[y] by {
                    if x < earlier.len() {
                        assert(earlier.contains(earlier[x]));
                    }
                    if y < earlier.len() {
                        assert(earlier.contains(earlier[y]));
                    }
                }
            }
        }
    }
}

/// Where no two outcomes belong to the same candidate, a finished batch
/// holds exactly one page for each download that succeeded.
pub proof fn lemma_one_document_per_success(candidates: nat, results: Seq<FetchResult>)
    requires
        distinct_candidates(results),
    ensures
        run(start(candidates), results).documents.dom().finite(),
        run(start(candidates), results).documents.dom().len() == successes(results),
        run(start(candidates), results).documents.dom() == fetched_ids(results).to_set(),
{
    lemma_run_documents(start(candidates), results);
    lemma_fetched_ids(results);
    let ids = fetched_ids(results);
    assert(Set::<Seq<char>>::empty().union(ids.to_set()) =~= ids.to_set());
    ids.unique_seq_to_set();
    vstd::seq_lib::seq_to_set_is_finite(ids);
}

/// One failed download among the candidates of a batch does not end it:
/// the batch becomes complete with one failure and a page counted for every
/// other candidate, and where no two outcomes belong to the same candidate
/// it holds that many pages.
pub proof fn lemma_single_failure(results: Seq<FetchResult>, failed: int)
    requires
        0 <= failed < results.len(),
        results[failed] is Failure,
        forall|i: int| 0 <= i < results.len() && i != failed ==> results[i] is Success,
    ensures
        run(start(results.len()), results).complete(),
        run(start(results.len()), results).failed == 1,
        run(start(results.len()), results).succeeded == results.len() - 1,
        distinct_candidates(results) ==> run(start(results.len()), results).documents.dom().finite()
            && run(start(results.len()), results).documents.dom().len() == results.len() - 1,
{
    let count_failures = |r: FetchResult|
        if r is Failure {
            1nat
        } else {
            0nat
        };
    lemma_run_totals(start(results.len()), results);
    lemma_sum_remove(results, count_failures, failed);
    lemma_no_failures(results.remove(failed));
    if distinct_candidates(results) {
        lemma_one_document_per_success(results.len(), results);
    }
}

proof fn lemma_no_failures(results: Seq<FetchResult>)
    requires
        forall|i: int| 0 <= i < results.len() ==> results[i] is Success,
    ensures
        failures(results) == 0,
    decreases results.len(),
{
    if results.len() > 0 {
        lemma_no_failures(results.drop_last());
    }
}

} // verus!
