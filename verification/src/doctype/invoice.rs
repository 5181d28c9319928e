//! Invoices: each gets the next id of a counter that only ever grows, and
//! keeps the tax rate of the day it was made.

use vstd::prelude::*;
use vstd::string::*;
use crate::codegen::{
    bank_block, bank_block_of, general, header_markup, header_of, page_settings, recipient_block,
    recipient_block_of, summary_markup, summary_of, table_of, tax_rule, tax_snapshot,
    transaction_table, write_page_settings, META_CLOSE, META_NUMBER, META_ROW, META_STRONG,
    PARAGRAPH_BREAK,
};
use crate::config::{text_setting, ConfigStore};
use crate::contact::{book_with_contact, book_with_invoice, Contact, ContactView};
use crate::data::{Answers, AnswersView, Datastore, DatastoreView};
use crate::date::{stamp_text, CalendarDate};
use crate::decimal::{
    copy_lines, lines_of, pretax_total, Decimal, Line, Transaction, MAX_LINES,
};
use crate::doctype::quotation::{
    copy_pair, history_after, prospective_contact, quotes_of, unclaimed, HistoryStep,
    QuotationInput, QuotationView, Quotations,
};
use crate::doctype::TypstData;
use crate::errors::{Errcode, ErrcodeView};
use crate::lang::{date_text, word_of, LangDict};
use crate::sorted::lookup;
use crate::text::{decimal_digits, push_decimal, push_zero_padded, zero_padded};
use crate::value::Node;

verus! {

/// What an operator enters for an invoice, with what the library adds: the
/// id, the date in words and the tax rate of the day.
#[derive(Debug)]
pub struct InvoiceInput {
    id: usize,
    recipient: String,
    quote_nb: Option<usize>,
    date_sell: String,
    tx: Vec<Transaction>,
    tax_rate: Option<Decimal>,
    created: String,
}

/// An invoice as mathematics.
pub struct InvoiceView {
    pub id: usize,
    pub recipient: Seq<char>,
    pub quote_nb: Option<usize>,
    pub date_sell: Seq<char>,
    pub tx: Seq<Line>,
    pub tax_rate: Option<int>,
    pub created: Seq<char>,
}

/// The history of invoices and the id that the next invoice gets.
#[derive(Debug)]
pub struct InvoiceSavedData {
    history: Vec<InvoiceInput>,
    id_counter: usize,
}

/// The history of invoices as mathematics.
pub struct InvoicesView {
    pub history: Seq<InvoiceView>,
    pub id_counter: usize,
}

/// The rate of a tax as mathematics.
pub open spec fn rate_view(rate: Option<Decimal>) -> Option<int> {
    match rate {
        Some(d) => Some(d@),
        None => None,
    }
}

/// The invoices of some inputs as mathematics.
pub open spec fn invoices_view(history: Seq<InvoiceInput>) -> Seq<InvoiceView> {
    Seq::new(history.len(), |i: int| history[i]@)
}

/// Whether the ids of `invoices` ascend in the order in which the invoices
/// were made and the counter lies beyond all of them.
pub open spec fn well_numbered(invoices: InvoicesView) -> bool {
    &&& forall|i: int, j: int|
        0 <= i < j < invoices.history.len() ==> (#[trigger] invoices.history[i]).id < (
        #[trigger] invoices.history[j]).id
    &&& forall|i: int|
        0 <= i < invoices.history.len() ==> (#[trigger] invoices.history[i]).id
            < invoices.id_counter
}

/// The position of the first invoice of `history` whose id does not lie
/// above the id before it or not below `counter`, and the length of
/// `history` where there is none.
pub open spec fn first_misnumbered(history: Seq<InvoiceView>, counter: usize) -> int
    decreases history.len(),
{
    if history.len() == 0 {
        0
    } else {
        let before = first_misnumbered(history.drop_last(), counter);
        if before < history.len() - 1 {
            before
        } else if history.last().id < counter && (history.len() == 1 || history[history.len()
            - 2].id < history.last().id) {
            history.len() as int
        } else {
            history.len() - 1
        }
    }
}

/// The counter to go on with after a history was read: the counter read,
/// raised where needed so that it lies above the id of the last invoice
/// read, and 1 where no counter could be read.
pub open spec fn recovered_counter(history: Seq<InvoiceView>, kept: Option<usize>) -> usize {
    let floor = match kept {
        Some(counter) => counter,
        None => 1usize,
    };
    if history.len() > 0 && history.last().id >= floor {
        (history.last().id + 1) as usize
    } else {
        floor
    }
}

/// What is made of a kept history of which `history` and `kept` could be
/// read: every invoice read is kept, with a counter that lies above all
/// their ids. Invoices whose ids do not ascend are an error, with the
/// position of the first that is out of order.
pub open spec fn recovered(history: Seq<InvoiceView>, kept: Option<usize>) -> Result<
    InvoicesView,
    ErrcodeView,
> {
    let bad = first_misnumbered(history, usize::MAX);
    if bad == history.len() {
        Ok(InvoicesView { history, id_counter: recovered_counter(history, kept) })
    } else {
        Err(ErrcodeView::MalformedRecord(bad as usize))
    }
}

/// `invoices` after one more invoice: `invoice` with the id of the counter
/// at the end of the history, and the counter one further.
pub open spec fn recorded(invoices: InvoicesView, invoice: InvoiceView) -> InvoicesView {
    InvoicesView {
        history: invoices.history.push(InvoiceView { id: invoices.id_counter, ..invoice }),
        id_counter: (invoices.id_counter + 1) as usize,
    }
}

/// The invoice for `recipient` that turns the quotation `quote`, the one at
/// `idx` among those kept under the recipient's slug, into a sale of
/// `date_sell`. It takes the lines of the quotation as they are, the date
/// of today in the words of `lang` and the tax rate that `cfg` asks for
/// today. Its recipient is the slug that the quotation was found under.
pub open spec fn invoice_from_quote(
    id: usize,
    recipient: Seq<char>,
    cfg: Seq<(Seq<char>, Node)>,
    lang: Seq<(Seq<char>, Node)>,
    idx: usize,
    quote: QuotationView,
    today: CalendarDate,
    date_sell: Seq<char>,
) -> Result<InvoiceView, ErrcodeView> {
    let created = date_text(lang, today);
    let rate = tax_rule(cfg);
    if created is Err {
        Err(created->Err_0)
    } else if rate is Err {
        Err(rate->Err_0)
    } else {
        Ok(
            InvoiceView {
                id,
                recipient,
                quote_nb: Some(idx),
                date_sell,
                tx: quote.tx,
                tax_rate: rate->Ok_0,
                created: created->Ok_0,
            },
        )
    }
}

/// The invoice that an operator enters today for `recipient`: a sale of
/// `date_sell` of the lines `lines`. Too many lines are an error.
pub open spec fn invoice_asked(
    id: usize,
    recipient: Seq<char>,
    cfg: Seq<(Seq<char>, Node)>,
    lang: Seq<(Seq<char>, Node)>,
    today: CalendarDate,
    date_sell: Seq<char>,
    lines: Seq<Line>,
) -> Result<InvoiceView, ErrcodeView> {
    let created = date_text(lang, today);
    let rate = tax_rule(cfg);
    if lines.len() > MAX_LINES {
        Err(ErrcodeView::TooManyTransactions(lines.len() as usize))
    } else if created is Err {
        Err(created->Err_0)
    } else if rate is Err {
        Err(rate->Err_0)
    } else {
        Ok(
            InvoiceView {
                id,
                recipient,
                quote_nb: None,
                date_sell,
                tx: lines,
                tax_rate: rate->Ok_0,
                created: created->Ok_0,
            },
        )
    }
}

impl View for InvoiceInput {
    type V = InvoiceView;

    closed spec fn view(&self) -> InvoiceView {
        InvoiceView {
            id: self.id,
            recipient: self.recipient@,
            quote_nb: self.quote_nb,
            date_sell: self.date_sell@,
            tx: lines_of(self.tx@),
            tax_rate: rate_view(self.tax_rate),
            created: self.created@,
        }
    }
}

impl InvoiceInput {
    #[verifier::type_invariant]
    spec fn fits(self) -> bool {
        self.tx@.len() <= MAX_LINES
    }

    /// The invoice for `recipient` that turns the quotation `quote`, the
    /// one at `idx` among those kept under the recipient's slug, into a
    /// sale of `date_sell`.
    pub fn from_quote(
        id: usize,
        recipient: String,
        config: &ConfigStore,
        lang: &LangDict,
        idx: usize,
        quote: &QuotationInput,
        today: &CalendarDate,
        date_sell: String,
    ) -> (r: Result<InvoiceInput, Errcode>)
        ensures
            match invoice_from_quote(
                id,
                recipient@,
                config@,
                lang@,
                idx,
                quote@,
                *today,
                date_sell@,
            ) {
                Ok(invoice) => r matches Ok(found) && found@ == invoice,
                Err(e) => r matches Err(x) && x@ == e,
            },
    {
        let created = lang.get_date_fmt(today)?;
        let tax_rate = tax_snapshot(config)?;
        Ok(
            InvoiceInput {
                id,
                recipient,
                quote_nb: Some(idx),
                date_sell,
                tx: copy_lines(quote.tx()),
                tax_rate,
                created,
            },
        )
    }

    /// The invoice that an operator enters today for `recipient`: a sale
    /// of `date_sell` of the lines `tx`.
    pub fn ask(
        id: usize,
        recipient: String,
        config: &ConfigStore,
        lang: &LangDict,
        today: &CalendarDate,
        date_sell: String,
        tx: Vec<Transaction>,
    ) -> (r: Result<InvoiceInput, Errcode>)
        ensures
            match invoice_asked(id, recipient@, config@, lang@, *today, date_sell@, lines_of(tx@)) {
                Ok(invoice) => r matches Ok(found) && found@ == invoice,
                Err(e) => r matches Err(x) && x@ == e,
            },
    {
        if tx.len() > MAX_LINES {
            return Err(Errcode::TooManyTransactions(tx.len()));
        }
        let created = lang.get_date_fmt(today)?;
        let tax_rate = tax_snapshot(config)?;
        Ok(InvoiceInput { id, recipient, quote_nb: None, date_sell, tx, tax_rate, created })
    }

    /// The invoice made of the given parts, as a file of invoices lists
    /// them, unless those are more lines than one document holds.
    pub fn from_parts(
        id: usize,
        recipient: String,
        quote_nb: Option<usize>,
        date_sell: String,
        tx: Vec<Transaction>,
        tax_rate: Option<Decimal>,
        created: String,
    ) -> (r: Option<InvoiceInput>)
        ensures
            r is Some <==> tx@.len() <= MAX_LINES,
            r matches Some(invoice) ==> invoice@ == (InvoiceView {
                id,
                recipient: recipient@,
                quote_nb,
                date_sell: date_sell@,
                tx: lines_of(tx@),
                tax_rate: rate_view(tax_rate),
                created: created@,
            }),
    {
        if tx.len() > MAX_LINES {
            None
        } else {
            Some(InvoiceInput { id, recipient, quote_nb, date_sell, tx, tax_rate, created })
        }
    }

    /// The id of this invoice.
    pub fn id(&self) -> (r: usize)
        ensures
            r == self@.id,
    {
        self.id
    }

    /// The slug of the recipient.
    pub fn recipient(&self) -> (r: &String)
        ensures
            r@ == self@.recipient,
    {
        &self.recipient
    }

    /// The position, among the quotations of the recipient, of the
    /// quotation that this invoice was made from.
    pub fn quote_nb(&self) -> (r: Option<usize>)
        ensures
            r == self@.quote_nb,
    {
        self.quote_nb
    }

    /// The date of the sale, as the operator gave it.
    pub fn date_sell(&self) -> (r: &str)
        ensures
            r@ == self@.date_sell,
    {
        self.date_sell.as_str()
    }

    /// The lines of the invoice.
    pub fn tx(&self) -> (r: &Vec<Transaction>)
        ensures
            lines_of(r@) == self@.tx,
            r@.len() <= MAX_LINES,
    {
        proof {
            use_type_invariant(self);
        }
        &self.tx
    }

    /// The tax rate of the day the invoice was made: none where no tax
    /// applied.
    pub fn tax_rate(&self) -> (r: &Option<Decimal>)
        ensures
            rate_view(*r) == self@.tax_rate,
    {
        &self.tax_rate
    }

    /// The date the invoice was made, in words.
    pub fn created(&self) -> (r: &str)
        ensures
            r@ == self@.created,
    {
        self.created.as_str()
    }

    /// A copy of this invoice.
    pub fn copy(&self) -> (r: InvoiceInput)
        ensures
            r@ == self@,
    {
        proof {
            use_type_invariant(self);
        }
        InvoiceInput {
            id: self.id,
            recipient: self.recipient.clone(),
            quote_nb: self.quote_nb,
            date_sell: self.date_sell.clone(),
            tx: copy_lines(&self.tx),
            tax_rate: self.tax_rate,
            created: self.created.clone(),
        }
    }

    /// This invoice under the id `id`.
    fn renumbered(self, id: usize) -> (r: InvoiceInput)
        ensures
            r@ == (InvoiceView { id, ..self@ }),
    {
        proof {
            use_type_invariant(&self);
        }
        InvoiceInput {
            id,
            recipient: self.recipient,
            quote_nb: self.quote_nb,
            date_sell: self.date_sell,
            tx: self.tx,
            tax_rate: self.tax_rate,
            created: self.created,
        }
    }
}

impl InvoiceSavedData {
    #[verifier::type_invariant]
    spec fn numbered(self) -> bool {
        well_numbered(self.view())
    }

    /// The history as mathematics.
    pub closed spec fn view(&self) -> InvoicesView {
        InvoicesView { history: invoices_view(self.history@), id_counter: self.id_counter }
    }

    /// The history before the first invoice: the first id is 1.
    pub fn init() -> (r: InvoiceSavedData)
        ensures
            r@ == (InvoicesView { history: Seq::empty(), id_counter: 1 }),
    {
        let r = InvoiceSavedData { history: Vec::new(), id_counter: 1 };
        assert(r@.history =~= Seq::<InvoiceView>::empty());
        r
    }

    /// The history that a file kept, or the history before the first
    /// invoice where there was no file. `stored` holds what could be read
    /// of the file: the invoices that could be read, in the order of the
    /// file, and the counter if it could be read. Every invoice read is
    /// kept, and the counter is the one read, raised where needed so that
    /// it lies above every id read; where no counter could be read it
    /// starts from 1. Invoices whose ids do not ascend are refused.
    pub fn import(stored: Option<(Vec<InvoiceInput>, Option<usize>)>) -> (r: Result<
        InvoiceSavedData,
        Errcode,
    >)
        ensures
            match stored {
                None => r matches Ok(data) && data@ == (InvoicesView {
                    history: Seq::empty(),
                    id_counter: 1,
                }),
                Some((history, kept)) => match recovered(invoices_view(history@), kept) {
                    Ok(invoices) => r matches Ok(data) && data@ == invoices,
                    Err(e) => r matches Err(x) && x@ == e,
                },
            },
            r matches Ok(data) ==> well_numbered(data@),
            r matches Ok(data) ==> (stored matches Some((_, Some(counter))) ==> data@.id_counter
                >= counter),
    {
        match stored {
            None => Ok(InvoiceSavedData::init()),
            Some((history, kept)) => {
                let ghost views = invoices_view(history@);
                let limit = usize::MAX;
                let mut i: usize = 0;
                while i < history.len()
                    invariant
                        i <= history.len(),
                        limit == usize::MAX,
                        stored == Some((history, kept)),
                        views == invoices_view(history@),
                        first_misnumbered(views.take(i as int), limit) == i,
                        well_numbered(
                            InvoicesView { history: views.take(i as int), id_counter: limit },
                        ),
                    decreases history.len() - i,
                {
                    let ghost seen = views.take(i as int);
                    let ghost next = views.take(i + 1);
                    proof {
                        assert(next.drop_last() =~= seen);
                        assert(next.last() == views[i as int]);
                        if i > 0 {
                            assert(next[i - 1] == views[i - 1]);
                        }
                    }
                    let in_order = history[i].id < limit && (i == 0 || history[i - 1].id
                        < history[i].id);
                    if !in_order {
                        proof {
                            assert(next.last().id == history@[i as int].id);
                            if i > 0 {
                                assert(next[next.len() - 2].id == history@[i - 1].id);
                            }
                            lemma_misnumbered_stays(views, limit, i as int);
                        }
                        return Err(Errcode::MalformedRecord(i));
                    }
                    proof {
                        assert forall|a: int, b: int| 0 <= a < b < next.len() implies (
                        #[trigger] next[a]).id < (#[trigger] next[b]).id by {
                            if b < i {
                                assert(next[a] == seen[a]);
                                assert(next[b] == seen[b]);
                            } else if a < i - 1 {
                                assert(next[a] == seen[a]);
                                assert(seen[i - 1] == views[i - 1]);
                                assert(seen[a].id < seen[i - 1].id);
                            }
                        }
                        assert forall|a: int| 0 <= a < next.len() implies (#[trigger] next[a]).id
                            < limit by {
                            if a < i {
                                assert(next[a] == seen[a]);
                            }
                        }
                    }
                    i = i + 1;
                }
                proof {
                    assert(views.take(history.len() as int) =~= views);
                }
                let floor: usize = match kept {
                    Some(counter) => counter,
                    None => 1,
                };
                let n = history.len();
                let id_counter = if n > 0 && history[n - 1].id >= floor {
                    history[n - 1].id + 1
                } else {
                    floor
                };
                proof {
                    assert(id_counter == recovered_counter(views, kept));
                    assert forall|a: int| 0 <= a < views.len() implies (#[trigger] views[a]).id
                        < id_counter by {
                        if a < n - 1 {
                            assert(views[a].id < views[n - 1].id);
                        }
                    }
                }
                Ok(InvoiceSavedData { history, id_counter })
            },
        }
    }

    /// The invoices in the order in which they were made.
    pub fn history(&self) -> (r: &Vec<InvoiceInput>)
        ensures
            invoices_view(r@) == self@.history,
            well_numbered(self@),
    {
        proof {
            use_type_invariant(self);
        }
        &self.history
    }

    /// The id that the next invoice gets.
    pub fn id_counter(&self) -> (r: usize)
        ensures
            r == self@.id_counter,
    {
        self.id_counter
    }

    /// Adds `invoice` to the history under the id of the counter and moves
    /// the counter one further.
    pub fn record(&mut self, invoice: InvoiceInput)
        requires
            old(self)@.id_counter < usize::MAX,
        ensures
            final(self)@ == recorded(old(self)@, invoice@),
    {
        proof {
            use_type_invariant(&*self);
        }
        let ghost before = self@;
        let id = self.id_counter;
        let numbered = invoice.renumbered(id);
        let mut taken = InvoiceSavedData::init();
        core::mem::swap(self, &mut taken);
        let mut history = taken.history;
        history.push(numbered);
        proof {
            let out = InvoiceSavedData { history, id_counter: (id + 1) as usize };
            assert(out@.history =~= before.history.push(numbered@));
            assert forall|a: int, b: int| 0 <= a < b < out@.history.len() implies (
            #[trigger] out@.history[a]).id < (#[trigger] out@.history[b]).id by {
                assert(out@.history[a] == before.history[a]);
                if b < before.history.len() {
                    assert(out@.history[b] == before.history[b]);
                }
            }
            assert forall|a: int| 0 <= a < out@.history.len() implies (
            #[trigger] out@.history[a]).id < out@.id_counter by {
                if a < before.history.len() {
                    assert(out@.history[a] == before.history[a]);
                }
            }
        }
        *self = InvoiceSavedData { history, id_counter: id + 1 };
    }
}

/// Once an invoice is out of order, the first such position stays the same
/// however the history goes on.
pub proof fn lemma_misnumbered_stays(history: Seq<InvoiceView>, counter: usize, at: int)
    requires
        0 <= at < history.len(),
        first_misnumbered(history.take(at + 1), counter) == at,
    ensures
        first_misnumbered(history, counter) == at,
    decreases history.len(),
{
    if history.len() > at + 1 {
        let front = history.drop_last();
        assert(front.take(at + 1) =~= history.take(at + 1));
        lemma_misnumbered_stays(front, counter, at);
    } else {
        assert(history.take(at + 1) =~= history);
    }
}

/// `invoices` after the invoices `more`, one after the other.
pub open spec fn recorded_all(invoices: InvoicesView, more: Seq<InvoiceView>) -> InvoicesView
    decreases more.len(),
{
    if more.len() == 0 {
        invoices
    } else {
        recorded(recorded_all(invoices, more.drop_last()), more.last())
    }
}

/// After any number of invoices, made in one run or in several, the counter
/// is as many further as invoices were made, the history is as many longer,
/// the invoices are still numbered in order, and no two invoices have the
/// same id.
pub proof fn lemma_counter_counts_invoices(invoices: InvoicesView, more: Seq<InvoiceView>)
    requires
        well_numbered(invoices),
        invoices.id_counter + more.len() <= usize::MAX,
    ensures
        recorded_all(invoices, more).id_counter == invoices.id_counter + more.len(),
        recorded_all(invoices, more).history.len() == invoices.history.len() + more.len(),
        well_numbered(recorded_all(invoices, more)),
        forall|i: int, j: int|
            0 <= i < recorded_all(invoices, more).history.len() && 0 <= j < recorded_all(
                invoices,
                more,
            ).history.len() && i != j ==> (#[trigger] recorded_all(invoices, more).history[i]).id
                != (#[trigger] recorded_all(invoices, more).history[j]).id,
    decreases more.len(),
{
    if more.len() > 0 {
        let before = recorded_all(invoices, more.drop_last());
        lemma_counter_counts_invoices(invoices, more.drop_last());
        let after = recorded(before, more.last());
        assert forall|i: int, j: int| 0 <= i < j < after.history.len() implies (
        #[trigger] after.history[i]).id < (#[trigger] after.history[j]).id by {
            assert(after.history[i] == before.history[i]);
            if j < before.history.len() {
                assert(after.history[j] == before.history[j]);
            }
        }
        assert forall|i: int| 0 <= i < after.history.len() implies (#[trigger] after.history[i]).id
            < after.id_counter by {
            if i < before.history.len() {
                assert(after.history[i] == before.history[i]);
            }
        }
    }
    let all = recorded_all(invoices, more);
    assert forall|i: int, j: int|
        0 <= i < all.history.len() && 0 <= j < all.history.len() && i != j implies (
    #[trigger] all.history[i]).id != (#[trigger] all.history[j]).id by {
        if i < j {
            assert(all.history[i].id < all.history[j].id);
        } else {
            assert(all.history[j].id < all.history[i].id);
        }
    }
}

/// Invoices that are numbered in order are no more than their counter.
pub proof fn lemma_history_below_counter(invoices: InvoicesView)
    requires
        well_numbered(invoices),
    ensures
        invoices.history.len() <= invoices.id_counter,
{
    if invoices.history.len() > 0 {
        lemma_id_above_position(invoices.history, invoices.history.len() - 1);
    }
}

/// Where ids ascend, the id at a position is at least the position.
pub proof fn lemma_id_above_position(history: Seq<InvoiceView>, at: int)
    requires
        0 <= at < history.len(),
        forall|i: int, j: int|
            0 <= i < j < history.len() ==> (#[trigger] history[i]).id < (#[trigger] history[j]).id,
    ensures
        history[at].id >= at,
    decreases at,
{
    if at > 0 {
        lemma_id_above_position(history, at - 1);
        assert(history[at - 1].id < history[at].id);
    }
}

/// Builds the markup of one invoice.
pub struct InvoiceBuilder<'a> {
    /// The business configuration.
    pub cfg: &'a ConfigStore,
    /// The words to show.
    pub lang: &'a LangDict,
    /// Whom the invoice is for.
    pub recipient: &'a Contact,
    /// The number that the invoice carries: its place in the history.
    pub number: u128,
    /// What the operator entered.
    pub inp: &'a InvoiceInput,
}

/// The remark that an invoice was made from the quotation `quote_nb`, and
/// nothing where it was made from none.
pub open spec fn quotation_reference(
    lang: Seq<(Seq<char>, Node)>,
    cfg: Seq<(Seq<char>, Node)>,
    quote_nb: Option<usize>,
) -> Result<Seq<char>, ErrcodeView> {
    match quote_nb {
        None => Ok(Seq::empty()),
        Some(nb) => {
            let word = word_of(lang, "invoice"@, "quotation_related"@);
            let prefix = text_setting(cfg, "config"@, "quotation"@, "id_prefix"@);
            if word is Err {
                Err(word->Err_0)
            } else if prefix is Err {
                Err(prefix->Err_0)
            } else {
                Ok(
                    "\\\n\t"@ + word->Ok_0 + META_NUMBER@ + prefix->Ok_0 + zero_padded(
                        decimal_digits(nb as nat),
                        5,
                    ) + "*"@,
                )
            }
        },
    }
}

/// The number of an invoice as it is shown: the prefix of the
/// configuration and five digits.
pub open spec fn invoice_label(
    lang: Seq<(Seq<char>, Node)>,
    cfg: Seq<(Seq<char>, Node)>,
    number: nat,
) -> Result<Seq<char>, ErrcodeView> {
    let label = word_of(lang, "invoice"@, "invoice_nb"@);
    let prefix = text_setting(cfg, "config"@, "invoice"@, "id_prefix"@);
    if label is Err {
        Err(label->Err_0)
    } else if prefix is Err {
        Err(prefix->Err_0)
    } else {
        Ok(
            label->Ok_0 + META_NUMBER@ + prefix->Ok_0 + zero_padded(decimal_digits(number), 5)
                + META_ROW@,
        )
    }
}

/// The dates of an invoice as they are shown: the day it is made, in
/// words, and the day of the sale.
pub open spec fn invoice_dates(
    lang: Seq<(Seq<char>, Node)>,
    invoice: InvoiceView,
    today: CalendarDate,
) -> Result<Seq<char>, ErrcodeView> {
    let date_word = general(lang, "creation_date"@);
    let date = date_text(lang, today);
    let sell_word = general(lang, "sell_date"@);
    if date_word is Err {
        Err(date_word->Err_0)
    } else if date is Err {
        Err(date->Err_0)
    } else if sell_word is Err {
        Err(sell_word->Err_0)
    } else {
        Ok(
            date_word->Ok_0 + META_STRONG@ + date->Ok_0 + META_ROW@ + sell_word->Ok_0 + ": *"@
                + invoice.date_sell + "* "@,
        )
    }
}

/// The block below the header of an invoice: whom it is for, its number,
/// its dates and the quotation it was made from.
pub open spec fn invoice_metadata(
    cfg: Seq<(Seq<char>, Node)>,
    lang: Seq<(Seq<char>, Node)>,
    contact: ContactView,
    invoice: InvoiceView,
    number: nat,
    today: CalendarDate,
) -> Result<Seq<char>, ErrcodeView> {
    let intro = word_of(lang, "invoice"@, "recipient_intro"@);
    let label = invoice_label(lang, cfg, number);
    let dates = invoice_dates(lang, invoice, today);
    let reference = quotation_reference(lang, cfg, invoice.quote_nb);
    if intro is Err {
        Err(intro->Err_0)
    } else if label is Err {
        Err(label->Err_0)
    } else if dates is Err {
        Err(dates->Err_0)
    } else if reference is Err {
        Err(reference->Err_0)
    } else {
        Ok(
            recipient_block(intro->Ok_0, contact.name, contact.address) + label->Ok_0
                + dates->Ok_0 + reference->Ok_0 + META_CLOSE@,
        )
    }
}

/// The name of the file of an invoice: its recipient, its number and the
/// day it is made.
pub open spec fn invoice_name(invoice: InvoiceView, number: nat, today: CalendarDate) -> Seq<char> {
    "invoice_"@ + invoice.recipient + "_"@ + decimal_digits(number) + "_"@ + stamp_text(today)
        + ".pdf"@
}

/// The markup of an invoice: page settings, header, recipient and number,
/// the table of lines, the summary with the tax rate that the invoice
/// keeps, and the bank details where the configuration asks for them. The
/// first part that cannot be built, in this order, is the error.
pub open spec fn invoice_code(
    cfg: Seq<(Seq<char>, Node)>,
    lang: Seq<(Seq<char>, Node)>,
    contact: ContactView,
    invoice: InvoiceView,
    number: nat,
    today: CalendarDate,
) -> Result<Seq<char>, ErrcodeView> {
    let footer = text_setting(cfg, "config"@, "invoice"@, "footer"@);
    let header = header_markup(cfg);
    let metadata = invoice_metadata(cfg, lang, contact, invoice, number, today);
    let table = transaction_table(invoice.tx, lang);
    let summary = summary_markup(pretax_total(invoice.tx), lang, invoice.tax_rate);
    let bank = bank_block(lang, cfg, "invoice"@);
    if footer is Err {
        Err(footer->Err_0)
    } else if header is Err {
        Err(header->Err_0)
    } else if metadata is Err {
        Err(metadata->Err_0)
    } else if table is Err {
        Err(table->Err_0)
    } else if summary is Err {
        Err(summary->Err_0)
    } else if bank is Err {
        Err(bank->Err_0)
    } else {
        Ok(
            page_settings(footer->Ok_0) + header->Ok_0 + PARAGRAPH_BREAK@ + metadata->Ok_0
                + PARAGRAPH_BREAK@ + table->Ok_0 + PARAGRAPH_BREAK@ + summary->Ok_0
                + PARAGRAPH_BREAK@ + bank->Ok_0 + "\n"@,
        )
    }
}

/// An invoice as it goes to the typesetter: the name of its file and its
/// markup.
pub open spec fn invoice_document(
    cfg: Seq<(Seq<char>, Node)>,
    lang: Seq<(Seq<char>, Node)>,
    contact: ContactView,
    invoice: InvoiceView,
    number: nat,
    today: CalendarDate,
) -> Result<(Seq<char>, Seq<char>), ErrcodeView> {
    match invoice_code(cfg, lang, contact, invoice, number, today) {
        Ok(code) => Ok((invoice_name(invoice, number, today), code)),
        Err(e) => Err(e),
    }
}

/// The invoice that the operator's answers describe. Where the operator
/// chose one of the quotations offered for conversion, the invoice takes
/// the lines of that quotation; a choice beyond those offered is an error.
/// Only the quotations of the recipient that no invoice has claimed are
/// offered.
pub open spec fn invoice_entered(
    cfg: Seq<(Seq<char>, Node)>,
    lang: Seq<(Seq<char>, Node)>,
    quotations: Quotations,
    answers: AnswersView,
    id: usize,
    today: CalendarDate,
) -> Result<InvoiceView, ErrcodeView> {
    match answers.quote {
        Some(choice) => {
            let quotes = quotes_of(quotations, answers.slug);
            let offered = unclaimed(quotes);
            if choice < offered.len() {
                invoice_from_quote(
                    id,
                    answers.slug,
                    cfg,
                    lang,
                    offered[choice as int],
                    quotes[offered[choice as int] as int].0,
                    today,
                    answers.date_sell,
                )
            } else {
                Err(ErrcodeView::HistoryElementNotFound(choice))
            }
        },
        None => invoice_asked(
            id,
            answers.slug,
            cfg,
            lang,
            today,
            answers.date_sell,
            answers.tx,
        ),
    }
}

/// What making an invoice comes to: the store afterwards and the document.
/// The invoice gets the id of the counter, which moves one further; the
/// recipient is added to the contacts where the slug is new, and the id is
/// added to the recipient's list; the invoice carries the number of its
/// place in the history; and the quotation it was made from, if any, is
/// claimed by that number. After an error there is no document and the
/// store is as before.
pub open spec fn invoice_outcome(
    cfg: Seq<(Seq<char>, Node)>,
    lang: Seq<(Seq<char>, Node)>,
    store: DatastoreView,
    answers: AnswersView,
    today: CalendarDate,
) -> Result<(DatastoreView, (Seq<char>, Seq<char>)), ErrcodeView> {
    let id = store.invoices.id_counter;
    let number = store.invoices.history.len() + 1;
    match book_with_contact(store.contacts, answers.slug, answers.newcomer) {
        Err(e) => Err(e),
        Ok(book) => match invoice_entered(cfg, lang, store.quotations, answers, id, today) {
            Err(e) => Err(e),
            Ok(invoice) => match invoice_document(
                cfg,
                lang,
                lookup(book, answers.slug)->Some_0,
                invoice,
                number,
                today,
            ) {
                Err(e) => Err(e),
                Ok(document) => Ok(
                    (
                        DatastoreView {
                            contacts: book_with_invoice(book, answers.slug, id),
                            invoices: recorded(store.invoices, invoice),
                            quotations: match invoice.quote_nb {
                                Some(idx) => history_after(
                                    store.quotations,
                                    HistoryStep::Claim(answers.slug, idx, number as usize),
                                ),
                                None => store.quotations,
                            },
                        },
                        document,
                    ),
                ),
            },
        },
    }
}

impl<'a> InvoiceBuilder<'a> {
    /// The remark on the quotation that the invoice was made from.
    fn generate_reference(&self) -> (r: Result<String, Errcode>)
        ensures
            crate::config::string_result(
                r,
                quotation_reference(self.lang@, self.cfg@, self.inp@.quote_nb),
            ),
    {
        let mut out = String::new();
        match self.inp.quote_nb() {
            None => {},
            Some(nb) => {
                let word = self.lang.get_doctype_word("invoice", "quotation_related")?;
                let prefix = self.cfg.get_str("quotation", "id_prefix")?;
                out.append("\\\n\t");
                out.append(word.as_str());
                out.append(META_NUMBER);
                out.append(prefix);
                push_zero_padded(&mut out, nb as u128, 5);
                out.append("*");
                assert(out@ =~= "\\\n\t"@ + word@ + META_NUMBER@ + prefix@ + zero_padded(
                    decimal_digits(nb as nat),
                    5,
                ) + "*"@);
            },
        }
        Ok(out)
    }

    /// The number of the invoice as it is shown.
    fn generate_label(&self) -> (r: Result<String, Errcode>)
        ensures
            crate::config::string_result(
                r,
                invoice_label(self.lang@, self.cfg@, self.number as nat),
            ),
    {
        let label = self.lang.get_doctype_word("invoice", "invoice_nb")?;
        let prefix = self.cfg.get_str("invoice", "id_prefix")?;
        let mut out = String::new();
        out.append(label.as_str());
        out.append(META_NUMBER);
        out.append(prefix);
        push_zero_padded(&mut out, self.number, 5);
        out.append(META_ROW);
        assert(out@ =~= label@ + META_NUMBER@ + prefix@ + zero_padded(
            decimal_digits(self.number as nat),
            5,
        ) + META_ROW@);
        Ok(out)
    }

    /// The dates of the invoice as they are shown.
    fn generate_dates(&self, current_date: &CalendarDate) -> (r: Result<String, Errcode>)
        ensures
            crate::config::string_result(r, invoice_dates(self.lang@, self.inp@, *current_date)),
    {
        let date_word = self.lang.get_doctype_word("general", "creation_date")?;
        let date = self.lang.get_date_fmt(current_date)?;
        let sell_word = self.lang.get_doctype_word("general", "sell_date")?;
        let mut out = String::new();
        out.append(date_word.as_str());
        out.append(META_STRONG);
        out.append(date.as_str());
        out.append(META_ROW);
        out.append(sell_word.as_str());
        out.append(": *");
        out.append(self.inp.date_sell());
        out.append("* ");
        assert(out@ =~= date_word@ + META_STRONG@ + date@ + META_ROW@ + sell_word@ + ": *"@
            + self.inp@.date_sell + "* "@);
        Ok(out)
    }

    /// The block below the header: whom the invoice is for, its number,
    /// its dates and the quotation it was made from.
    fn generate_metadata(&self, current_date: &CalendarDate) -> (r: Result<String, Errcode>)
        ensures
            crate::config::string_result(
                r,
                invoice_metadata(
                    self.cfg@,
                    self.lang@,
                    self.recipient@,
                    self.inp@,
                    self.number as nat,
                    *current_date,
                ),
            ),
    {
        let intro = self.lang.get_doctype_word("invoice", "recipient_intro")?;
        let label = self.generate_label()?;
        let dates = self.generate_dates(current_date)?;
        let reference = self.generate_reference()?;
        let mut out = recipient_block_of(
            intro.as_str(),
            self.recipient.name(),
            self.recipient.address(),
        );
        let ghost left = out@;
        out.append(label.as_str());
        out.append(dates.as_str());
        out.append(reference.as_str());
        out.append(META_CLOSE);
        assert(out@ =~= left + label@ + dates@ + reference@ + META_CLOSE@);
        Ok(out)
    }

    /// The name of the file and the markup of the invoice, dated `today`.
    pub fn generate_invoice(&self, today: &CalendarDate) -> (r: Result<(String, String), Errcode>)
        ensures
            match invoice_document(
                self.cfg@,
                self.lang@,
                self.recipient@,
                self.inp@,
                self.number as nat,
                *today,
            ) {
                Ok((name, code)) => r matches Ok((fname, source)) && fname@ == name && source@
                    == code,
                Err(e) => r matches Err(x) && x@ == e,
            },
    {
        let footer = self.cfg.get_str("invoice", "footer")?;
        let header = header_of(self.cfg)?;
        let metadata = self.generate_metadata(today)?;
        let (table, total) = table_of(self.inp.tx().as_slice(), self.lang)?;
        let summary = summary_of(&total, self.lang, self.inp.tax_rate())?;
        let bank = bank_block_of(self.lang, self.cfg, "invoice")?;
        let mut source = String::new();
        write_page_settings(&mut source, footer);
        source.append(header.as_str());
        source.append(PARAGRAPH_BREAK);
        source.append(metadata.as_str());
        source.append(PARAGRAPH_BREAK);
        source.append(table.as_str());
        source.append(PARAGRAPH_BREAK);
        source.append(summary.as_str());
        source.append(PARAGRAPH_BREAK);
        source.append(bank.as_str());
        source.append("\n");
        assert(source@ =~= page_settings(footer@) + header@ + PARAGRAPH_BREAK@ + metadata@
            + PARAGRAPH_BREAK@ + table@ + PARAGRAPH_BREAK@ + summary@ + PARAGRAPH_BREAK@ + bank@
            + "\n"@);
        let mut fname = String::new();
        fname.append("invoice_");
        fname.append(self.inp.recipient().as_str());
        fname.append("_");
        push_decimal(&mut fname, self.number);
        fname.append("_");
        today.push_stamp(&mut fname);
        fname.append(".pdf");
        assert(fname@ =~= invoice_name(self.inp@, self.number as nat, *today));
        Ok((fname, source))
    }
}

/// The invoice that the operator's answers describe.
pub fn enter(
    cfg: &ConfigStore,
    lang: &LangDict,
    data: &Datastore,
    answers: &Answers,
    today: &CalendarDate,
) -> (r: Result<InvoiceInput, Errcode>)
    ensures
        match invoice_entered(
            cfg@,
            lang@,
            data@.quotations,
            answers@,
            data@.invoices.id_counter,
            *today,
        ) {
            Ok(invoice) => r matches Ok(found) && found@ == invoice,
            Err(e) => r matches Err(x) && x@ == e,
        },
{
    let id = data.invoices.id_counter();
    match answers.quote {
        Some(choice) => {
            let offered = data.quotations.convertible(answers.slug.as_str());
            if choice >= offered.len() {
                return Err(Errcode::HistoryElementNotFound(choice));
            }
            let idx = offered[choice];
            match data.quotations.history.get(answers.slug.as_str()) {
                Some(list) => {
                    proof {
                        assert(list@.len() == list.items.len());
                        lemma_unclaimed_in_range(list@, choice as int);
                    }
                    InvoiceInput::from_quote(
                        id,
                        answers.slug.clone(),
                        cfg,
                        lang,
                        idx,
                        &list.items[idx].0,
                        today,
                        answers.date_sell.clone(),
                    )
                },
                None => Err(Errcode::HistoryElementNotFound(choice)),
            }
        },
        None => InvoiceInput::ask(
            id,
            answers.slug.clone(),
            cfg,
            lang,
            today,
            answers.date_sell.clone(),
            copy_lines(&answers.tx),
        ),
    }
}

/// Every position among the unclaimed ones holds a quotation that no
/// invoice has claimed.
pub proof fn lemma_unclaimed_in_range(quotes: crate::doctype::quotation::Quotes, at: int)
    requires
        0 <= at < unclaimed(quotes).len(),
        quotes.len() <= usize::MAX,
    ensures
        unclaimed(quotes)[at] < quotes.len(),
        quotes[unclaimed(quotes)[at] as int].1 is None,
    decreases quotes.len(),
{
    if quotes.len() > 0 {
        let front = quotes.drop_last();
        if at < unclaimed(front).len() {
            lemma_unclaimed_in_range(front, at);
            assert(front[unclaimed(front)[at] as int] == quotes[unclaimed(front)[at] as int]);
        }
    }
}

/// Whether the quotations of `slug` are few enough to be counted.
pub open spec fn fits_in_memory(quotations: Quotations, slug: Seq<char>) -> bool {
    quotes_of(quotations, slug).len() <= usize::MAX
}

/// The number of quotations that `slug` has.
pub fn count_quotes(data: &Datastore, slug: &str) -> (n: usize)
    ensures
        n == quotes_of(data@.quotations, slug@).len(),
        fits_in_memory(data@.quotations, slug@),
{
    match data.quotations.history.get(slug) {
        Some(list) => list.items.len(),
        None => 0,
    }
}

/// Makes an invoice from the operator's answers: the invoice gets the next
/// id, the recipient is added to the contacts where the slug is new, the
/// invoice is added to the history, the quotation it was made from is
/// claimed, and the document is built. After an error the store is as
/// before.
pub fn generate(
    cfg: &ConfigStore,
    lang: &LangDict,
    data: &mut Datastore,
    answers: &Answers,
    today: &CalendarDate,
) -> (r: Result<TypstData, Errcode>)
    requires
        old(data)@.invoices.id_counter < usize::MAX,
    ensures
        match invoice_outcome(cfg@, lang@, old(data)@, answers@, *today) {
            Ok((store, (name, code))) => r matches Ok(document) && document.fname@ == name
                && document.code@ == code && final(data)@ == store,
            Err(e) => r matches Err(x) && x@ == e && final(data)@ == old(data)@,
        },
{
    let recipient = prospective_contact(&data.contacts, &answers.slug, &answers.newcomer)?;
    let inp = enter(cfg, lang, data, answers, today)?;
    let _ = count_quotes(data, answers.slug.as_str());
    let id = data.invoices.id_counter();
    let made = data.invoices.history().len();
    proof {
        lemma_history_below_counter(data@.invoices);
    }
    let number: u128 = made as u128 + 1;
    let builder = InvoiceBuilder { cfg, lang, recipient: &recipient, number, inp: &inp };
    let (fname, code) = builder.generate_invoice(today)?;
    let quote_nb = inp.quote_nb();
    proof {
        if answers@.quote is Some {
            let quotes = quotes_of(data@.quotations, answers@.slug);
            assert(quotes.len() <= usize::MAX) by {
                if lookup(data@.quotations, answers@.slug) is Some {
                    assert(fits_in_memory(data@.quotations, answers@.slug));
                }
            }
            lemma_unclaimed_in_range(quotes, answers@.quote->Some_0 as int);
        }
    }
    let _ = data.contacts.get_or_add(&answers.slug, copy_pair(&answers.newcomer));
    data.contacts.record_invoice(answers.slug.as_str(), id);
    data.invoices.record(inp);
    match quote_nb {
        Some(idx) => {
            let _ = data.quotations.mark_quotation_finished(&answers.slug, idx, made + 1);
        },
        None => {},
    }
    Ok(TypstData::new(fname, code))
}

} // verus!
