//! Quotations: offers made to a contact. A quotation can be turned into an
//! invoice once; from then on it carries the number of that invoice and is
//! no longer offered for conversion.

use vstd::prelude::*;
use vstd::string::*;
use crate::codegen::{
    bank_block, bank_block_of, general, header_markup, header_of, page_settings, recipient_block,
    recipient_block_of, summary_of, summary_table, table_of, tax_snapshot, transaction_table,
    write_page_settings, META_CLOSE, META_NUMBER, META_ROW, META_STRONG, PARAGRAPH_BREAK,
};
use crate::config::{text_setting, ConfigStore};
use crate::contact::{book_with_contact, Contact, ContactView};
use crate::data::{Answers, AnswersView, Datastore, DatastoreView};
use crate::date::{stamp_text, CalendarDate};
use crate::decimal::{
    copy_lines, fixed2_text, lines_of, pretax_total, push_fixed2, Line, Total, Transaction,
    MAX_LINES,
};
use crate::doctype::TypstData;
use crate::errors::{Errcode, ErrcodeView};
use crate::lang::{date_text, word_of, LangDict};
use crate::sorted::{
    ascending, keyed_view, lemma_with_entry, lemma_with_entry_len, lookup, registered,
    with_entry, SlugMap,
};
use crate::text::{decimal_digits, push_decimal, push_zero_padded, shorten, shortened, zero_padded};
use crate::value::Node;

verus! {

/// What an operator enters for a quotation.
#[derive(Debug)]
pub struct QuotationInput {
    recipient: String,
    created: String,
    tx: Vec<Transaction>,
}

/// A quotation as mathematics.
pub struct QuotationView {
    pub recipient: Seq<char>,
    pub created: Seq<char>,
    pub tx: Seq<Line>,
}

/// The quotations of one recipient in the order in which they were made,
/// each with the number of the invoice that claimed it, if one did.
#[derive(Debug)]
pub struct QuotationList {
    pub items: Vec<(QuotationInput, Option<usize>)>,
}

/// The quotations of one recipient as mathematics.
pub type Quotes = Seq<(QuotationView, Option<usize>)>;

/// The history of quotations as mathematics: by recipient, in the order of
/// the slugs.
pub type Quotations = Seq<(Seq<char>, Quotes)>;

/// The history of quotations, by recipient.
#[derive(Debug)]
pub struct QuotationSavedData {
    pub history: SlugMap<QuotationList>,
}

/// The quotations of `slug` in `history`: none where the slug has no entry.
pub open spec fn quotes_of(history: Quotations, slug: Seq<char>) -> Quotes {
    match lookup(history, slug) {
        Some(quotes) => quotes,
        None => Seq::empty(),
    }
}

/// `history` with `quote` added, unclaimed, at the end of the quotations of
/// its recipient.
pub open spec fn with_quote(history: Quotations, quote: QuotationView) -> Quotations {
    with_entry(history, quote.recipient, quotes_of(history, quote.recipient).push((quote, None)))
}

/// `history` with the quotation `idx` of `slug` claimed by the invoice
/// `invoice_nb`. A slug without quotations, an index beyond them and a
/// quotation that is claimed already are errors.
pub open spec fn with_claim(history: Quotations, slug: Seq<char>, idx: usize, invoice_nb: usize)
    -> Result<Quotations, ErrcodeView> {
    match lookup(history, slug) {
        None => Err(ErrcodeView::ContactNotFound(slug)),
        Some(quotes) => if idx < quotes.len() && quotes[idx as int].1 is None {
            Ok(
                with_entry(
                    history,
                    slug,
                    quotes.update(idx as int, (quotes[idx as int].0, Some(invoice_nb))),
                ),
            )
        } else {
            Err(ErrcodeView::HistoryElementNotFound(idx))
        },
    }
}

/// The positions of the quotations of `quotes` that no invoice has claimed,
/// ascending.
pub open spec fn unclaimed(quotes: Quotes) -> Seq<usize>
    decreases quotes.len(),
{
    if quotes.len() == 0 {
        Seq::empty()
    } else if quotes.last().1 is None {
        unclaimed(quotes.drop_last()).push((quotes.len() - 1) as usize)
    } else {
        unclaimed(quotes.drop_last())
    }
}

/// The descriptions of `lines`, with a comma and a space between them.
pub open spec fn descriptions(lines: Seq<Line>) -> Seq<char>
    decreases lines.len(),
{
    if lines.len() == 0 {
        Seq::empty()
    } else if lines.len() == 1 {
        lines[0].0
    } else {
        descriptions(lines.drop_last()) + ", "@ + lines.last().0
    }
}

/// One line that tells a quotation from the others: recipient, date, total
/// before tax and what is offered, cut after eighty characters.
pub open spec fn display_line(quote: QuotationView) -> Seq<char> {
    shortened(
        quote.recipient + " "@ + quote.created + " "@ + fixed2_text(
            pretax_total(quote.tx),
            1_000_000,
        ) + "\u{20ac} : "@ + descriptions(quote.tx),
        80,
    )
}

/// A position is among the unclaimed ones exactly when it holds a quotation
/// that no invoice has claimed.
pub proof fn lemma_unclaimed(quotes: Quotes, idx: usize)
    requires
        quotes.len() <= usize::MAX,
    ensures
        unclaimed(quotes).contains(idx) <==> (idx < quotes.len() && quotes[idx as int].1 is None),
    decreases quotes.len(),
{
    if quotes.len() > 0 {
        let front = quotes.drop_last();
        lemma_unclaimed(front, idx);
        let last = (quotes.len() - 1) as usize;
        if quotes.last().1 is None {
            let found = unclaimed(front).push(last);
            if idx == last {
                assert(found[found.len() - 1] == idx);
            } else if unclaimed(front).contains(idx) {
                let k = choose|k: int| 0 <= k < unclaimed(front).len() && unclaimed(front)[k] == idx;
                assert(found[k] == idx);
            } else if found.contains(idx) {
                let k = choose|k: int| 0 <= k < found.len() && found[k] == idx;
                assert(unclaimed(front)[k] == idx);
            }
        }
        if idx < front.len() {
            assert(front[idx as int] == quotes[idx as int]);
        }
    }
}

/// Something that happens to the history of quotations: a quotation is
/// made, or an invoice claims one.
pub enum HistoryStep {
    /// This quotation is made.
    Quote(QuotationView),
    /// The invoice with the given number claims the quotation at the given
    /// position among those of the given slug.
    Claim(Seq<char>, usize, usize),
}

/// The history after `step`. A claim that is refused leaves the history as
/// it is.
pub open spec fn history_after(history: Quotations, step: HistoryStep) -> Quotations {
    match step {
        HistoryStep::Quote(quote) => with_quote(history, quote),
        HistoryStep::Claim(slug, idx, invoice_nb) => match with_claim(
            history,
            slug,
            idx,
            invoice_nb,
        ) {
            Ok(after) => after,
            Err(_) => history,
        },
    }
}

/// The history after the steps `steps`, one after the other.
pub open spec fn history_after_all(history: Quotations, steps: Seq<HistoryStep>) -> Quotations
    decreases steps.len(),
{
    if steps.len() == 0 {
        history
    } else {
        history_after(history_after_all(history, steps.drop_last()), steps.last())
    }
}

/// Whether an invoice has claimed the quotation at `idx` among those of
/// `slug`.
pub open spec fn is_claimed(history: Quotations, slug: Seq<char>, idx: usize) -> bool {
    idx < quotes_of(history, slug).len() && quotes_of(history, slug)[idx as int].1 is Some
}

/// A step leaves a claimed quotation claimed, by the same invoice.
pub proof fn lemma_step_keeps_claim(
    history: Quotations,
    step: HistoryStep,
    slug: Seq<char>,
    idx: usize,
)
    requires
        ascending(history),
        is_claimed(history, slug, idx),
    ensures
        ascending(history_after(history, step)),
        is_claimed(history_after(history, step), slug, idx),
        quotes_of(history_after(history, step), slug)[idx as int] == quotes_of(history, slug)[idx as int],
{
    match step {
        HistoryStep::Quote(quote) => {
            lemma_with_entry(
                history,
                quote.recipient,
                quotes_of(history, quote.recipient).push((quote, None)),
                slug,
            );
        },
        HistoryStep::Claim(other, at, invoice_nb) => {
            if with_claim(history, other, at, invoice_nb) is Ok {
                let quotes = lookup(history, other)->Some_0;
                lemma_with_entry(
                    history,
                    other,
                    quotes.update(at as int, (quotes[at as int].0, Some(invoice_nb))),
                    slug,
                );
            }
        },
    }
}

/// Once an invoice has claimed a quotation, the quotation stays claimed by
/// that invoice whatever quotations are made and whatever claims follow,
/// and it is never again among the quotations offered for conversion.
pub proof fn lemma_claim_is_permanent(
    history: Quotations,
    steps: Seq<HistoryStep>,
    slug: Seq<char>,
    idx: usize,
)
    requires
        ascending(history),
        is_claimed(history, slug, idx),
        quotes_of(history_after_all(history, steps), slug).len() <= usize::MAX,
    ensures
        ascending(history_after_all(history, steps)),
        is_claimed(history_after_all(history, steps), slug, idx),
        quotes_of(history_after_all(history, steps), slug)[idx as int] == quotes_of(
            history,
            slug,
        )[idx as int],
        !unclaimed(quotes_of(history_after_all(history, steps), slug)).contains(idx),
{
    lemma_steps_keep_claim(history, steps, slug, idx);
    lemma_unclaimed(quotes_of(history_after_all(history, steps), slug), idx);
}

/// Steps leave a claimed quotation claimed, by the same invoice.
pub proof fn lemma_steps_keep_claim(
    history: Quotations,
    steps: Seq<HistoryStep>,
    slug: Seq<char>,
    idx: usize,
)
    requires
        ascending(history),
        is_claimed(history, slug, idx),
    ensures
        ascending(history_after_all(history, steps)),
        is_claimed(history_after_all(history, steps), slug, idx),
        quotes_of(history_after_all(history, steps), slug)[idx as int] == quotes_of(
            history,
            slug,
        )[idx as int],
    decreases steps.len(),
{
    if steps.len() > 0 {
        lemma_steps_keep_claim(history, steps.drop_last(), slug, idx);
        lemma_step_keeps_claim(
            history_after_all(history, steps.drop_last()),
            steps.last(),
            slug,
            idx,
        );
    }
}

impl View for QuotationInput {
    type V = QuotationView;

    closed spec fn view(&self) -> QuotationView {
        QuotationView {
            recipient: self.recipient@,
            created: self.created@,
            tx: lines_of(self.tx@),
        }
    }
}

impl View for QuotationList {
    type V = Quotes;

    open spec fn view(&self) -> Quotes {
        Seq::new(self.items@.len(), |i: int| (self.items@[i].0@, self.items@[i].1))
    }
}

impl QuotationInput {
    #[verifier::type_invariant]
    spec fn fits(self) -> bool {
        self.tx@.len() <= MAX_LINES
    }

    /// The quotation for `recipient`, dated `created`, of the lines `tx`,
    /// unless those are more lines than one document holds.
    pub fn new(recipient: String, created: String, tx: Vec<Transaction>) -> (r: Result<
        QuotationInput,
        Errcode,
    >)
        ensures
            match r {
                Ok(quote) => tx@.len() <= MAX_LINES && quote@ == (QuotationView {
                    recipient: recipient@,
                    created: created@,
                    tx: lines_of(tx@),
                }),
                Err(e) => tx@.len() > MAX_LINES && e@ == ErrcodeView::TooManyTransactions(
                    tx@.len() as usize,
                ),
            },
    {
        if tx.len() > MAX_LINES {
            Err(Errcode::TooManyTransactions(tx.len()))
        } else {
            Ok(QuotationInput { recipient, created, tx })
        }
    }

    /// The quotation that an operator enters today for `recipient`: dated
    /// in the words of `lang`, of the lines `tx`.
    pub fn ask(recipient: String, lang: &LangDict, today: &CalendarDate, tx: Vec<Transaction>) -> (r:
        Result<QuotationInput, Errcode>)
        ensures
            match asked_quotation(recipient@, lang@, *today, lines_of(tx@)) {
                Ok(quote) => r matches Ok(found) && found@ == quote,
                Err(e) => r matches Err(x) && x@ == e,
            },
    {
        if tx.len() > MAX_LINES {
            return Err(Errcode::TooManyTransactions(tx.len()));
        }
        let created = lang.get_date_fmt(today)?;
        QuotationInput::new(recipient, created, tx)
    }

    /// The slug of the recipient.
    pub fn recipient(&self) -> (r: &String)
        ensures
            r@ == self@.recipient,
    {
        &self.recipient
    }

    /// The date of the quotation, in words.
    pub fn created(&self) -> (r: &str)
        ensures
            r@ == self@.created,
    {
        self.created.as_str()
    }

    /// The lines of the quotation.
    pub fn tx(&self) -> (r: &Vec<Transaction>)
        ensures
            lines_of(r@) == self@.tx,
            r@.len() <= MAX_LINES,
    {
        proof {
            use_type_invariant(self);
        }
        &self.tx
    }

    /// A copy of this quotation.
    pub fn copy(&self) -> (r: QuotationInput)
        ensures
            r@ == self@,
    {
        proof {
            use_type_invariant(self);
        }
        QuotationInput {
            recipient: self.recipient.clone(),
            created: self.created.clone(),
            tx: copy_lines(&self.tx),
        }
    }

    /// One line that tells this quotation from the others in a list.
    pub fn single_line_display(&self) -> (r: String)
        ensures
            r@ == display_line(self@),
    {
        let lines = self.tx();
        let total = match Total::of_lines(lines.as_slice()) {
            Some(total) => total.raw(),
            None => 0,
        };
        let mut line = String::new();
        line.append(self.recipient.as_str());
        line.append(" ");
        line.append(self.created.as_str());
        line.append(" ");
        push_fixed2(&mut line, total, 1_000_000);
        line.append("\u{20ac} : ");
        let ghost head = line@;
        let ghost all = lines_of(lines@);
        let mut i: usize = 0;
        while i < lines.len()
            invariant
                i <= lines@.len(),
                all == lines_of(lines@),
                line@ == head + descriptions(all.take(i as int)),
            decreases lines.len() - i,
        {
            proof {
                assert(all.take(i + 1).drop_last() =~= all.take(i as int));
                assert(all.take(i + 1).last() == all[i as int]);
                if i == 1 {
                    assert(all.take(1)[0] == all[0]);
                }
            }
            if i > 0 {
                line.append(", ");
            }
            line.append(lines[i].0.as_str());
            proof {
                if i == 0 {
                    assert(descriptions(all.take(0)) =~= Seq::<char>::empty());
                    assert(all.take(1)[0] == all[0]);
                }
                assert(line@ =~= head + descriptions(all.take(i + 1)));
            }
            i = i + 1;
        }
        proof {
            assert(all.take(lines@.len() as int) =~= all);
            assert(line@ =~= self@.recipient + " "@ + self@.created + " "@ + fixed2_text(
                pretax_total(self@.tx),
                1_000_000,
            ) + "\u{20ac} : "@ + descriptions(self@.tx));
        }
        shorten(line, 80)
    }
}

/// The quotation that an operator enters on `today` for `recipient`, of the
/// lines `lines`: too many lines are an error, and so is a dictionary that
/// cannot put the date in words.
pub open spec fn asked_quotation(
    recipient: Seq<char>,
    lang: Seq<(Seq<char>, crate::value::Node)>,
    today: CalendarDate,
    lines: Seq<Line>,
) -> Result<QuotationView, ErrcodeView> {
    if lines.len() > MAX_LINES {
        Err(ErrcodeView::TooManyTransactions(lines.len() as usize))
    } else {
        match date_text(lang, today) {
            Ok(created) => Ok(QuotationView { recipient, created, tx: lines }),
            Err(e) => Err(e),
        }
    }
}

impl QuotationList {
    /// A copy of these quotations.
    pub fn copy(&self) -> (r: QuotationList)
        ensures
            r@ == self@,
    {
        let mut items: Vec<(QuotationInput, Option<usize>)> = Vec::new();
        let mut i: usize = 0;
        while i < self.items.len()
            invariant
                i <= self.items.len(),
                items@.len() == i,
                forall|k: int|
                    0 <= k < i ==> (#[trigger] items@[k]).0@ == self.items@[k].0@ && items@[k].1
                        == self.items@[k].1,
            decreases self.items.len() - i,
        {
            items.push((self.items[i].0.copy(), self.items[i].1));
            i = i + 1;
        }
        let out = QuotationList { items };
        assert(out@ =~= self@);
        out
    }
}

impl QuotationSavedData {
    /// The history as mathematics.
    pub open spec fn view(&self) -> Quotations {
        self.history@
    }

    /// The history before the first quotation.
    pub fn init() -> (r: QuotationSavedData)
        ensures
            r@ == Seq::<(Seq<char>, Quotes)>::empty(),
    {
        QuotationSavedData { history: SlugMap::new() }
    }

    /// The history that a file kept, by recipient, or the history before
    /// the first quotation where there was no file or none that could be
    /// read. A later entry takes the place of an earlier one of the same
    /// slug.
    pub fn import(stored: Option<Vec<(String, QuotationList)>>) -> (r: QuotationSavedData)
        ensures
            r@ == match stored {
                Some(entries) => registered(keyed_view(entries@)),
                None => Seq::<(Seq<char>, Quotes)>::empty(),
            },
    {
        match stored {
            Some(entries) => QuotationSavedData { history: SlugMap::from_entries(entries) },
            None => QuotationSavedData::init(),
        }
    }

    /// Marks the quotation `idx` of `slug` as claimed by the invoice
    /// `invoice_nb`. A quotation is claimed once: where it is claimed
    /// already, where the index is beyond the quotations of the slug, and
    /// where the slug has none, the history stays as it is.
    pub fn mark_quotation_finished(&mut self, slug: &String, idx: usize, invoice_nb: usize) -> (r:
        Result<(), Errcode>)
        ensures
            match with_claim(old(self)@, slug@, idx, invoice_nb) {
                Ok(history) => r is Ok && final(self)@ == history,
                Err(e) => r matches Err(x) && x@ == e && final(self)@ == old(self)@,
            },
    {
        let mut list = match self.history.get(slug.as_str()) {
            Some(list) => list.copy(),
            None => {
                return Err(Errcode::ContactNotFound(slug.clone()));
            },
        };
        if idx >= list.items.len() {
            return Err(Errcode::HistoryElementNotFound(idx));
        }
        if list.items[idx].1.is_some() {
            return Err(Errcode::HistoryElementNotFound(idx));
        }
        let ghost before = list@;
        let quote = list.items[idx].0.copy();
        list.items.set(idx, (quote, Some(invoice_nb)));
        proof {
            assert(list@ =~= before.update(idx as int, (before[idx as int].0, Some(invoice_nb))));
        }
        self.history.insert(slug.clone(), list);
        Ok(())
    }

    /// Adds `quote`, unclaimed, at the end of the quotations of its
    /// recipient.
    pub fn add_quote(&mut self, quote: &QuotationInput)
        ensures
            final(self)@ == with_quote(old(self)@, quote@),
    {
        let mut list = match self.history.get(quote.recipient().as_str()) {
            Some(list) => list.copy(),
            None => QuotationList { items: Vec::new() },
        };
        let ghost before = list@;
        proof {
            assert(before =~= quotes_of(self@, quote@.recipient));
        }
        list.items.push((quote.copy(), None));
        proof {
            assert(list@ =~= before.push((quote@, None)));
        }
        self.history.insert(quote.recipient().clone(), list);
    }

    /// The quotations of `slug` that can still be turned into an invoice:
    /// the positions of those that no invoice has claimed.
    pub fn convertible(&self, slug: &str) -> (r: Vec<usize>)
        ensures
            r@ == unclaimed(quotes_of(self@, slug@)),
    {
        let mut out: Vec<usize> = Vec::new();
        match self.history.get(slug) {
            Some(list) => {
                let ghost quotes = list@;
                let mut i: usize = 0;
                while i < list.items.len()
                    invariant
                        i <= list.items.len(),
                        quotes == list@,
                        out@ == unclaimed(quotes.take(i as int)),
                    decreases list.items.len() - i,
                {
                    proof {
                        assert(quotes.take(i + 1).drop_last() =~= quotes.take(i as int));
                        assert(quotes.take(i + 1).last() == quotes[i as int]);
                    }
                    if list.items[i].1.is_none() {
                        out.push(i);
                    }
                    i = i + 1;
                }
                proof {
                    assert(quotes.take(list.items.len() as int) =~= quotes);
                }
            },
            None => {},
        }
        out
    }
}

/// Builds the markup of one quotation.
pub struct QuotationBuilder<'a> {
    /// The business configuration.
    pub cfg: &'a ConfigStore,
    /// The words to show.
    pub lang: &'a LangDict,
    /// Whom the quotation is for.
    pub recipient: &'a Contact,
    /// The number that the quotation carries.
    pub number: u128,
    /// What the operator entered.
    pub inp: &'a QuotationInput,
}

/// The right half of the block below the header of a quotation: its number
/// in five digits and its date.
pub open spec fn quotation_metadata(
    lang: Seq<(Seq<char>, Node)>,
    contact: ContactView,
    quote: QuotationView,
    number: nat,
) -> Result<Seq<char>, ErrcodeView> {
    let intro = word_of(lang, "quotation"@, "recipient_intro"@);
    let label = word_of(lang, "quotation"@, "quotation_nb"@);
    let date = general(lang, "creation_date"@);
    if intro is Err {
        Err(intro->Err_0)
    } else if label is Err {
        Err(label->Err_0)
    } else if date is Err {
        Err(date->Err_0)
    } else {
        Ok(
            recipient_block(intro->Ok_0, contact.name, contact.address) + label->Ok_0
                + META_NUMBER@ + zero_padded(decimal_digits(number), 5) + META_ROW@ + date->Ok_0
                + META_STRONG@ + quote.created + "* \\"@ + META_CLOSE@,
        )
    }
}

/// The name of the file of a quotation: its recipient, its number and the
/// day it is made.
pub open spec fn quotation_name(quote: QuotationView, number: nat, today: CalendarDate) -> Seq<
    char,
> {
    "quotation_"@ + quote.recipient + "_"@ + decimal_digits(number) + "_"@ + stamp_text(today)
        + ".pdf"@
}

/// The closing part of a quotation: the terms of payment and, where the
/// configuration asks for them, the bank details.
pub open spec fn quotation_terms(lang: Seq<(Seq<char>, Node)>, cfg: Seq<(Seq<char>, Node)>)
    -> Result<Seq<char>, ErrcodeView> {
    let title = word_of(lang, "quotation"@, "payment_conditions"@);
    let terms = text_setting(cfg, "config"@, "quotation"@, "payment_conditions"@);
    let bank = bank_block(lang, cfg, "quotation"@);
    if title is Err {
        Err(title->Err_0)
    } else if terms is Err {
        Err(terms->Err_0)
    } else if bank is Err {
        Err(bank->Err_0)
    } else {
        Ok("=== "@ + title->Ok_0 + "\n"@ + terms->Ok_0 + "\n"@ + bank->Ok_0 + "\n"@)
    }
}

/// The markup of a quotation: page settings, header, recipient and number,
/// the table of lines, the summary with the tax that the configuration asks
/// for, and the terms. The first part that cannot be built, in this order,
/// is the error.
pub open spec fn quotation_code(
    cfg: Seq<(Seq<char>, Node)>,
    lang: Seq<(Seq<char>, Node)>,
    contact: ContactView,
    quote: QuotationView,
    number: nat,
) -> Result<Seq<char>, ErrcodeView> {
    let footer = text_setting(cfg, "config"@, "quotation"@, "footer"@);
    let header = header_markup(cfg);
    let metadata = quotation_metadata(lang, contact, quote, number);
    let table = transaction_table(quote.tx, lang);
    let summary = summary_table(pretax_total(quote.tx), lang, cfg);
    let terms = quotation_terms(lang, cfg);
    if footer is Err {
        Err(footer->Err_0)
    } else if header is Err {
        Err(header->Err_0)
    } else if metadata is Err {
        Err(metadata->Err_0)
    } else if table is Err {
        Err(table->Err_0)
    } else if summary is Err {
        Err(summary->Err_0)
    } else if terms is Err {
        Err(terms->Err_0)
    } else {
        Ok(
            page_settings(footer->Ok_0) + header->Ok_0 + PARAGRAPH_BREAK@ + metadata->Ok_0
                + PARAGRAPH_BREAK@ + table->Ok_0 + PARAGRAPH_BREAK@ + summary->Ok_0
                + PARAGRAPH_BREAK@ + terms->Ok_0,
        )
    }
}

/// A quotation as it goes to the typesetter: the name of its file and its
/// markup.
pub open spec fn quotation_document(
    cfg: Seq<(Seq<char>, Node)>,
    lang: Seq<(Seq<char>, Node)>,
    contact: ContactView,
    quote: QuotationView,
    number: nat,
    today: CalendarDate,
) -> Result<(Seq<char>, Seq<char>), ErrcodeView> {
    match quotation_code(cfg, lang, contact, quote, number) {
        Ok(code) => Ok((quotation_name(quote, number, today), code)),
        Err(e) => Err(e),
    }
}

/// What making a quotation comes to: the store afterwards and the document.
/// The recipient is added to the contacts where the slug is new, the
/// quotation is added, unclaimed, to those of the recipient, and the
/// quotation carries the number of recipients that then have quotations.
/// After an error there is no document and the store is as before.
pub open spec fn quotation_outcome(
    cfg: Seq<(Seq<char>, Node)>,
    lang: Seq<(Seq<char>, Node)>,
    store: DatastoreView,
    answers: AnswersView,
    today: CalendarDate,
) -> Result<(DatastoreView, (Seq<char>, Seq<char>)), ErrcodeView> {
    match book_with_contact(store.contacts, answers.slug, answers.newcomer) {
        Err(e) => Err(e),
        Ok(book) => match asked_quotation(answers.slug, lang, today, answers.tx) {
            Err(e) => Err(e),
            Ok(quote) => {
                let history = with_quote(store.quotations, quote);
                match quotation_document(
                    cfg,
                    lang,
                    lookup(book, answers.slug)->Some_0,
                    quote,
                    history.len(),
                    today,
                ) {
                    Err(e) => Err(e),
                    Ok(document) => Ok(
                        (
                            DatastoreView {
                                contacts: book,
                                invoices: store.invoices,
                                quotations: history,
                            },
                            document,
                        ),
                    ),
                }
            },
        },
    }
}

impl<'a> QuotationBuilder<'a> {
    /// The block below the header: whom the quotation is for, its number
    /// and its date.
    fn generate_metadata(&self) -> (r: Result<String, Errcode>)
        ensures
            crate::config::string_result(
                r,
                quotation_metadata(self.lang@, self.recipient@, self.inp@, self.number as nat),
            ),
    {
        let intro = self.lang.get_doctype_word("quotation", "recipient_intro")?;
        let label = self.lang.get_doctype_word("quotation", "quotation_nb")?;
        let date = self.lang.get_doctype_word("general", "creation_date")?;
        let mut out = recipient_block_of(
            intro.as_str(),
            self.recipient.name(),
            self.recipient.address(),
        );
        let ghost left = out@;
        out.append(label.as_str());
        out.append(META_NUMBER);
        push_zero_padded(&mut out, self.number, 5);
        out.append(META_ROW);
        out.append(date.as_str());
        out.append(META_STRONG);
        out.append(self.inp.created());
        out.append("* \\");
        out.append(META_CLOSE);
        assert(out@ =~= left + label@ + META_NUMBER@ + zero_padded(
            decimal_digits(self.number as nat),
            5,
        ) + META_ROW@ + date@ + META_STRONG@ + self.inp@.created + "* \\"@ + META_CLOSE@);
        Ok(out)
    }

    /// The closing part: the terms of payment and the bank details.
    fn generate_terms(&self) -> (r: Result<String, Errcode>)
        ensures
            crate::config::string_result(r, quotation_terms(self.lang@, self.cfg@)),
    {
        let title = self.lang.get_doctype_word("quotation", "payment_conditions")?;
        let terms = self.cfg.get_str("quotation", "payment_conditions")?;
        let bank = bank_block_of(self.lang, self.cfg, "quotation")?;
        let mut out = String::new();
        out.append("=== ");
        out.append(title.as_str());
        out.append("\n");
        out.append(terms);
        out.append("\n");
        out.append(bank.as_str());
        out.append("\n");
        assert(out@ =~= "=== "@ + title@ + "\n"@ + terms@ + "\n"@ + bank@ + "\n"@);
        Ok(out)
    }

    /// The name of the file and the markup of the quotation, dated `today`.
    pub fn generate_quotation(&self, today: &CalendarDate) -> (r: Result<(String, String), Errcode>)
        ensures
            match quotation_document(
                self.cfg@,
                self.lang@,
                self.recipient@,
                self.inp@,
                self.number as nat,
                *today,
            ) {
                Ok((name, code)) => r matches Ok((fname, source)) && fname@ == name && source@
                    == code,
                Err(e) => r matches Err(x) && x@ == e,
            },
    {
        let footer = self.cfg.get_str("quotation", "footer")?;
        let header = header_of(self.cfg)?;
        let metadata = self.generate_metadata()?;
        let (table, total) = table_of(self.inp.tx().as_slice(), self.lang)?;
        let rate = tax_snapshot(self.cfg)?;
        let summary = summary_of(&total, self.lang, &rate)?;
        let terms = self.generate_terms()?;
        let mut source = String::new();
        write_page_settings(&mut source, footer);
        source.append(header.as_str());
        source.append(PARAGRAPH_BREAK);
        source.append(metadata.as_str());
        source.append(PARAGRAPH_BREAK);
        source.append(table.as_str());
        source.append(PARAGRAPH_BREAK);
        source.append(summary.as_str());
        source.append(PARAGRAPH_BREAK);
        source.append(terms.as_str());
        assert(source@ =~= page_settings(footer@) + header@ + PARAGRAPH_BREAK@ + metadata@
            + PARAGRAPH_BREAK@ + table@ + PARAGRAPH_BREAK@ + summary@ + PARAGRAPH_BREAK@
            + terms@);
        let mut fname = String::new();
        fname.append("quotation_");
        fname.append(self.inp.recipient().as_str());
        fname.append("_");
        push_decimal(&mut fname, self.number);
        fname.append("_");
        today.push_stamp(&mut fname);
        fname.append(".pdf");
        assert(fname@ =~= quotation_name(self.inp@, self.number as nat, *today));
        Ok((fname, source))
    }
}

/// A copy of a pair of texts.
pub fn copy_pair(pair: &Option<(String, String)>) -> (r: Option<(String, String)>)
    ensures
        crate::contact::pair_view(r) == crate::contact::pair_view(*pair),
{
    match pair {
        Some((a, b)) => Some((a.clone(), b.clone())),
        None => None,
    }
}

/// The contact that `slug` has once `newcomer` has been taken into
/// account, without touching the register.
pub fn prospective_contact(book: &crate::contact::ContactBook, slug: &String, newcomer: &Option<
    (String, String),
>) -> (r: Result<Contact, Errcode>)
    ensures
        match book_with_contact(book@, slug@, crate::contact::pair_view(*newcomer)) {
            Ok(after) => r matches Ok(contact) && lookup(after, slug@) == Some(contact@),
            Err(e) => r matches Err(x) && x@ == e,
        },
{
    let _ = book.len();
    match book.get(slug) {
        Ok(contact) => Ok(contact.copy()),
        Err(e) => match newcomer {
            Some((name, address)) => {
                let contact = Contact::ask(Some(slug.clone()), "", name.as_str(), address.as_str());
                proof {
                    lemma_with_entry(book@, slug@, contact@, slug@);
                }
                Ok(contact)
            },
            None => Err(e),
        },
    }
}

/// Makes a quotation from the operator's answers: the recipient is added to
/// the contacts where the slug is new, the quotation is added to the
/// history, and the document is built. After an error the store is as
/// before.
pub fn generate(
    cfg: &ConfigStore,
    lang: &LangDict,
    data: &mut Datastore,
    answers: &Answers,
    today: &CalendarDate,
) -> (r: Result<TypstData, Errcode>)
    ensures
        match quotation_outcome(cfg@, lang@, old(data)@, answers@, *today) {
            Ok((store, (name, code))) => r matches Ok(document) && document.fname@ == name
                && document.code@ == code && final(data)@ == store,
            Err(e) => r matches Err(x) && x@ == e && final(data)@ == old(data)@,
        },
{
    let recipient = prospective_contact(&data.contacts, &answers.slug, &answers.newcomer)?;
    let inp = QuotationInput::ask(answers.slug.clone(), lang, today, copy_lines(&answers.tx))?;
    let known = data.quotations.history.len();
    let number: u128 = if data.quotations.history.contains_key(answers.slug.as_str()) {
        known as u128
    } else {
        known as u128 + 1
    };
    proof {
        lemma_with_entry_len(
            data@.quotations,
            inp@.recipient,
            quotes_of(data@.quotations, inp@.recipient).push((inp@, None)),
        );
    }
    let builder = QuotationBuilder { cfg, lang, recipient: &recipient, number, inp: &inp };
    let (fname, code) = builder.generate_quotation(today)?;
    let _ = data.contacts.get_or_add(&answers.slug, copy_pair(&answers.newcomer));
    data.quotations.add_quote(&inp);
    Ok(TypstData::new(fname, code))
}

} // verus!
