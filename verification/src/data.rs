//! The store of everything that outlives a run: the contacts, the history
//! of invoices and the history of quotations. It is read once when a run
//! starts and written once when a document has been made.

use vstd::prelude::*;
use vstd::string::*;
use crate::contact::{entries_view, Contact, ContactBook, ContactView};
use crate::decimal::{lines_of, Line, Transaction};
use crate::doctype::invoice::{
    first_misnumbered, invoices_view, recovered, recovered_counter, well_numbered, InvoiceInput,
    InvoiceSavedData, InvoiceView, InvoicesView,
};
use crate::doctype::quotation::{QuotationList, QuotationSavedData, Quotations};
use crate::errors::{Errcode, ErrcodeView};
use crate::sorted::{ascending, keyed_view, lemma_registered_ascending, registered};

verus! {

/// Everything that outlives a run.
#[derive(Debug)]
pub struct Datastore {
    pub contacts: ContactBook,
    pub invoices: InvoiceSavedData,
    pub quotations: QuotationSavedData,
}

/// The store as mathematics.
pub struct DatastoreView {
    pub contacts: Seq<(Seq<char>, ContactView)>,
    pub invoices: InvoicesView,
    pub quotations: Quotations,
}

/// What an operator answers when a document is made.
#[derive(Debug)]
pub struct Answers {
    /// The slug of the recipient.
    pub slug: String,
    /// Name and address of the recipient, asked where the slug is new.
    pub newcomer: Option<(String, String)>,
    /// For an invoice: which of the quotations offered for conversion the
    /// operator chose, counted among those offered; none for an invoice
    /// that is entered line by line.
    pub quote: Option<usize>,
    /// For an invoice: the date of the sale.
    pub date_sell: String,
    /// The lines entered; not used where a quotation is converted.
    pub tx: Vec<Transaction>,
}

/// The answers as mathematics.
pub struct AnswersView {
    pub slug: Seq<char>,
    pub newcomer: Option<(Seq<char>, Seq<char>)>,
    pub quote: Option<usize>,
    pub date_sell: Seq<char>,
    pub tx: Seq<Line>,
}

impl View for Answers {
    type V = AnswersView;

    open spec fn view(&self) -> AnswersView {
        AnswersView {
            slug: self.slug@,
            newcomer: crate::contact::pair_view(self.newcomer),
            quote: self.quote,
            date_sell: self.date_sell@,
            tx: lines_of(self.tx@),
        }
    }
}

/// What reading the kept records gives: the contacts and the quotations as
/// registers, and of the invoices what could be read, with a counter above
/// all their ids, or, where there was no file, the history before the first
/// invoice. Invoices whose ids do not ascend are an error.
pub open spec fn imported_store(
    contacts: Seq<(Seq<char>, ContactView)>,
    invoices: Option<(Seq<InvoiceView>, Option<usize>)>,
    quotations: Option<Quotations>,
) -> Result<DatastoreView, ErrcodeView> {
    let kept = match invoices {
        Some((history, counter)) => recovered(history, counter),
        None => Ok(InvoicesView { history: Seq::empty(), id_counter: 1 }),
    };
    match kept {
        Ok(invoices) => Ok(
            DatastoreView {
                contacts: registered(contacts),
                invoices,
                quotations: match quotations {
                    Some(entries) => registered(entries),
                    None => Seq::empty(),
                },
            },
        ),
        Err(e) => Err(e),
    }
}

impl Datastore {
    /// The store as mathematics.
    pub open spec fn view(&self) -> DatastoreView {
        DatastoreView {
            contacts: self.contacts@,
            invoices: self.invoices@,
            quotations: self.quotations@,
        }
    }

    /// The store that the kept records describe. `invoices` is none where
    /// there is no file of invoices, and else what could be read of it: the
    /// invoices read and the counter if it could be read. `quotations` is
    /// none where there is no file of quotations.
    pub fn import(
        contacts: Vec<(String, Contact)>,
        invoices: Option<(Vec<InvoiceInput>, Option<usize>)>,
        quotations: Option<Vec<(String, QuotationList)>>,
    ) -> (r: Result<Datastore, Errcode>)
        ensures
            match imported_store(
                entries_view(contacts@),
                match invoices {
                    Some((history, counter)) => Some((invoices_view(history@), counter)),
                    None => None,
                },
                match quotations {
                    Some(entries) => Some(keyed_view(entries@)),
                    None => None,
                },
            ) {
                Ok(store) => r matches Ok(found) && found@ == store,
                Err(e) => r matches Err(x) && x@ == e,
            },
    {
        let invoices = InvoiceSavedData::import(invoices)?;
        let contacts = ContactBook::import(contacts);
        let quotations = QuotationSavedData::import(quotations);
        Ok(Datastore { contacts, invoices, quotations })
    }

    /// The records to keep: the contacts, the invoices with their counter,
    /// and the quotations by recipient.
    pub fn export(&self) -> (r: (
        Vec<(String, Contact)>,
        (Vec<InvoiceInput>, usize),
        Vec<(String, QuotationList)>,
    ))
        ensures
            entries_view(r.0@) == self@.contacts,
            invoices_view(r.1.0@) == self@.invoices.history,
            r.1.1 == self@.invoices.id_counter,
            keyed_view(r.2@) == self@.quotations,
    {
        let contacts = self.contacts.export();
        let history = self.invoices.history();
        let mut invoices: Vec<InvoiceInput> = Vec::new();
        let mut i: usize = 0;
        while i < history.len()
            invariant
                i <= history.len(),
                invoices_view(invoices@) == invoices_view(history@).take(i as int),
            decreases history.len() - i,
        {
            let ghost before = invoices@;
            invoices.push(history[i].copy());
            proof {
                assert(invoices_view(invoices@) =~= invoices_view(before).push(history@[i as int]@));
                assert(invoices_view(history@).take(i + 1) =~= invoices_view(history@).take(
                    i as int,
                ).push(history@[i as int]@));
            }
            i = i + 1;
        }
        proof {
            assert(invoices_view(history@).take(history.len() as int) =~= invoices_view(history@));
        }
        let mut quotations: Vec<(String, QuotationList)> = Vec::new();
        let n = self.quotations.history.len();
        let mut k: usize = 0;
        while k < n
            invariant
                k <= n,
                n == self@.quotations.len(),
                keyed_view(quotations@) == self@.quotations.take(k as int),
            decreases n - k,
        {
            let ghost before = quotations@;
            quotations.push(
                (
                    self.quotations.history.key_at(k).to_owned(),
                    self.quotations.history.item_at(k).copy(),
                ),
            );
            proof {
                assert(keyed_view(quotations@) =~= keyed_view(before).push(
                    self@.quotations[k as int],
                ));
                assert(self@.quotations.take(k + 1) =~= self@.quotations.take(k as int).push(
                    self@.quotations[k as int],
                ));
            }
            k = k + 1;
        }
        proof {
            assert(self@.quotations.take(n as int) =~= self@.quotations);
        }
        (contacts, (invoices, self.invoices.id_counter()), quotations)
    }
}

/// Invoices that are numbered in order have no position out of order.
pub proof fn lemma_numbered_in_order(history: Seq<InvoiceView>, counter: usize)
    requires
        well_numbered(InvoicesView { history, id_counter: counter }),
    ensures
        first_misnumbered(history, counter) == history.len(),
    decreases history.len(),
{
    if history.len() > 0 {
        let front = history.drop_last();
        assert forall|i: int, j: int| 0 <= i < j < front.len() implies (#[trigger] front[i]).id < (
        #[trigger] front[j]).id by {
            assert(front[i] == history[i]);
            assert(front[j] == history[j]);
        }
        assert forall|i: int| 0 <= i < front.len() implies (#[trigger] front[i]).id < counter by {
            assert(front[i] == history[i]);
        }
        lemma_numbered_in_order(front, counter);
        let last = history.len() - 1;
        assert(history.last() == history[last]);
        if history.len() > 1 {
            assert(history[last - 1].id < history[last].id);
        }
    }
}

/// Writing the store as records and reading the records back gives the
/// store again: registers whose slugs ascend and invoices that are numbered
/// in order are read as they were written.
pub proof fn lemma_store_round_trip(store: DatastoreView)
    requires
        ascending(store.contacts),
        ascending(store.quotations),
        well_numbered(store.invoices),
    ensures
        imported_store(
            store.contacts,
            Some((store.invoices.history, Some(store.invoices.id_counter))),
            Some(store.quotations),
        ) == Ok::<DatastoreView, ErrcodeView>(store),
{
    lemma_registered_ascending(store.contacts);
    lemma_registered_ascending(store.quotations);
    let history = store.invoices.history;
    lemma_numbered_in_order(history, usize::MAX);
    if history.len() > 0 {
        assert(history.last() == history[history.len() - 1]);
    }
    assert(recovered_counter(history, Some(store.invoices.id_counter))
        == store.invoices.id_counter);
}

} // verus!
