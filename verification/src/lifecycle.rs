//! What holds of the store over any number of documents, made in one run
//! or in several: the counter of invoices counts the invoices made, no two
//! invoices share an id, and a quotation that an invoice has claimed stays
//! claimed and is not offered again.

use vstd::prelude::*;
use crate::data::{AnswersView, DatastoreView};
use crate::date::CalendarDate;
use crate::doctype::invoice::{invoice_outcome, well_numbered};
use crate::doctype::quotation::{
    asked_quotation, history_after, is_claimed, lemma_step_keeps_claim, lemma_unclaimed,
    quotation_outcome, quotes_of, unclaimed, HistoryStep,
};
use crate::doctype::DocumentType;
use crate::sorted::ascending;
use crate::value::Node;

verus! {

/// One document that is asked for: its kind, the settings and words of the
/// run, the operator's answers and the day.
pub struct Made {
    pub kind: DocumentType,
    pub cfg: Seq<(Seq<char>, Node)>,
    pub lang: Seq<(Seq<char>, Node)>,
    pub answers: AnswersView,
    pub today: CalendarDate,
}

/// Whether the document `made` is made from the store `store`, and not
/// refused.
pub open spec fn succeeds(store: DatastoreView, made: Made) -> bool {
    match made.kind {
        DocumentType::Invoice => invoice_outcome(
            made.cfg,
            made.lang,
            store,
            made.answers,
            made.today,
        ) is Ok,
        DocumentType::Quotation => quotation_outcome(
            made.cfg,
            made.lang,
            store,
            made.answers,
            made.today,
        ) is Ok,
    }
}

/// The store after the document `made` was asked for: what making it
/// leaves, and the store as it was where the document is refused.
pub open spec fn store_after(store: DatastoreView, made: Made) -> DatastoreView {
    match made.kind {
        DocumentType::Invoice => match invoice_outcome(
            made.cfg,
            made.lang,
            store,
            made.answers,
            made.today,
        ) {
            Ok((after, _)) => after,
            Err(_) => store,
        },
        DocumentType::Quotation => match quotation_outcome(
            made.cfg,
            made.lang,
            store,
            made.answers,
            made.today,
        ) {
            Ok((after, _)) => after,
            Err(_) => store,
        },
    }
}

/// The store after the documents `all` were asked for, one after the other.
pub open spec fn store_after_all(store: DatastoreView, all: Seq<Made>) -> DatastoreView
    decreases all.len(),
{
    if all.len() == 0 {
        store
    } else {
        store_after(store_after_all(store, all.drop_last()), all.last())
    }
}

/// How many invoices are made when the documents `all` are asked for, one
/// after the other.
pub open spec fn invoices_made(store: DatastoreView, all: Seq<Made>) -> nat
    decreases all.len(),
{
    if all.len() == 0 {
        0
    } else {
        let before = invoices_made(store, all.drop_last());
        if all.last().kind == DocumentType::Invoice && succeeds(
            store_after_all(store, all.drop_last()),
            all.last(),
        ) {
            before + 1
        } else {
            before
        }
    }
}

/// Asking for a document moves the counter by one and adds one invoice
/// where an invoice is made, and leaves the invoices alone otherwise; the
/// invoices stay numbered in order.
pub proof fn lemma_document_counts(store: DatastoreView, made: Made)
    requires
        well_numbered(store.invoices),
        store.invoices.id_counter < usize::MAX,
    ensures
        well_numbered(store_after(store, made).invoices),
        made.kind == DocumentType::Invoice && succeeds(store, made) ==> store_after(
            store,
            made,
        ).invoices.id_counter == store.invoices.id_counter + 1 && store_after(
            store,
            made,
        ).invoices.history.len() == store.invoices.history.len() + 1,
        !(made.kind == DocumentType::Invoice && succeeds(store, made)) ==> store_after(
            store,
            made,
        ).invoices == store.invoices,
{
    if made.kind == DocumentType::Invoice && succeeds(store, made) {
        let after = store_after(store, made).invoices;
        let before = store.invoices;
        assert forall|i: int, j: int| 0 <= i < j < after.history.len() implies (
        #[trigger] after.history[i]).id < (#[trigger] after.history[j]).id by {
            assert(after.history[i] == before.history[i]);
            if j < before.history.len() {
                assert(after.history[j] == before.history[j]);
            }
        }
        assert forall|i: int| 0 <= i < after.history.len() implies (#[trigger] after.history[i]).id
            < after.id_counter by {
            if i < before.history.len() {
                assert(after.history[i] == before.history[i]);
            }
        }
    }
}

/// After any number of documents, made in one run or in several, the
/// counter of invoices is as many further as invoices were made, the
/// history is as many longer, and no two invoices have the same id.
pub proof fn lemma_counter_counts_documents(store: DatastoreView, all: Seq<Made>)
    requires
        well_numbered(store.invoices),
        store.invoices.id_counter + all.len() <= usize::MAX,
    ensures
        invoices_made(store, all) <= all.len(),
        store_after_all(store, all).invoices.id_counter == store.invoices.id_counter
            + invoices_made(store, all),
        store_after_all(store, all).invoices.history.len() == store.invoices.history.len()
            + invoices_made(store, all),
        well_numbered(store_after_all(store, all).invoices),
        forall|i: int, j: int|
            0 <= i < store_after_all(store, all).invoices.history.len() && 0 <= j
                < store_after_all(store, all).invoices.history.len() && i != j ==> (
            #[trigger] store_after_all(store, all).invoices.history[i]).id != (
            #[trigger] store_after_all(store, all).invoices.history[j]).id,
    decreases all.len(),
{
    if all.len() > 0 {
        lemma_counter_counts_documents(store, all.drop_last());
        lemma_document_counts(store_after_all(store, all.drop_last()), all.last());
    }
    let history = store_after_all(store, all).invoices.history;
    assert forall|i: int, j: int|
        0 <= i < history.len() && 0 <= j < history.len() && i != j implies (
    #[trigger] history[i]).id != (#[trigger] history[j]).id by {
        if i < j {
            assert(history[i].id < history[j].id);
        } else {
            assert(history[j].id < history[i].id);
        }
    }
}

/// What asking for a document does to the history of quotations is one
/// step of that history, or nothing.
pub open spec fn step_of(store: DatastoreView, made: Made) -> Option<HistoryStep> {
    match made.kind {
        DocumentType::Invoice => match invoice_outcome(
            made.cfg,
            made.lang,
            store,
            made.answers,
            made.today,
        ) {
            Ok((after, _)) => match after.invoices.history.last().quote_nb {
                Some(idx) => Some(
                    HistoryStep::Claim(
                        made.answers.slug,
                        idx,
                        (store.invoices.history.len() + 1) as usize,
                    ),
                ),
                None => None,
            },
            Err(_) => None,
        },
        DocumentType::Quotation => match quotation_outcome(
            made.cfg,
            made.lang,
            store,
            made.answers,
            made.today,
        ) {
            Ok(_) => Some(
                HistoryStep::Quote(
                    asked_quotation(
                        made.answers.slug,
                        made.lang,
                        made.today,
                        made.answers.tx,
                    )->Ok_0,
                ),
            ),
            Err(_) => None,
        },
    }
}

/// The history of quotations after a document was asked for is the history
/// before, moved by the step that the document stands for.
pub proof fn lemma_document_is_a_step(store: DatastoreView, made: Made)
    ensures
        store_after(store, made).quotations == match step_of(store, made) {
            Some(step) => history_after(store.quotations, step),
            None => store.quotations,
        },
{
    if made.kind == DocumentType::Invoice {
        match invoice_outcome(made.cfg, made.lang, store, made.answers, made.today) {
            Ok((after, _)) => {
                let invoices = after.invoices;
                assert(invoices.history.last() == invoices.history[invoices.history.len() - 1]);
            },
            Err(_) => {},
        }
    }
}

/// Once an invoice has claimed a quotation, the quotation stays claimed by
/// that invoice whatever documents are asked for afterwards, in one run or
/// in several, and it is never again among the quotations offered for
/// conversion.
pub proof fn lemma_claims_outlast_documents(
    store: DatastoreView,
    all: Seq<Made>,
    slug: Seq<char>,
    idx: usize,
)
    requires
        ascending(store.quotations),
        is_claimed(store.quotations, slug, idx),
        quotes_of(store_after_all(store, all).quotations, slug).len() <= usize::MAX,
    ensures
        is_claimed(store_after_all(store, all).quotations, slug, idx),
        quotes_of(store_after_all(store, all).quotations, slug)[idx as int] == quotes_of(
            store.quotations,
            slug,
        )[idx as int],
        !unclaimed(quotes_of(store_after_all(store, all).quotations, slug)).contains(idx),
{
    lemma_claims_stay(store, all, slug, idx);
    lemma_unclaimed(quotes_of(store_after_all(store, all).quotations, slug), idx);
}

/// Documents leave a claimed quotation claimed, by the same invoice.
pub proof fn lemma_claims_stay(store: DatastoreView, all: Seq<Made>, slug: Seq<char>, idx: usize)
    requires
        ascending(store.quotations),
        is_claimed(store.quotations, slug, idx),
    ensures
        ascending(store_after_all(store, all).quotations),
        is_claimed(store_after_all(store, all).quotations, slug, idx),
        quotes_of(store_after_all(store, all).quotations, slug)[idx as int] == quotes_of(
            store.quotations,
            slug,
        )[idx as int],
    decreases all.len(),
{
    if all.len() > 0 {
        let before = store_after_all(store, all.drop_last());
        lemma_claims_stay(store, all.drop_last(), slug, idx);
        lemma_document_is_a_step(before, all.last());
        match step_of(before, all.last()) {
            Some(step) => {
                lemma_step_keeps_claim(before.quotations, step, slug, idx);
            },
            None => {},
        }
    }
}

} // verus!
