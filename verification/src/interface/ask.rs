//! Questions and replies. The lines of a document are entered one after
//! the other: a description, a number of units, a price per unit. An empty
//! description, and nothing else, ends the entry.

use vstd::prelude::*;
use vstd::string::*;
use crate::codegen::general;
use crate::decimal::{decimal_value, lines_of, Decimal, Line, Transaction};
use crate::errors::{Errcode, ErrcodeView};
use crate::lang::LangDict;
use crate::text::{decimal_digits, push_decimal};
use crate::value::Node;

verus! {

/// A text without the white space at its two ends.
pub uninterp spec fn trimmed_text(s: Seq<char>) -> Seq<char>;

/// `str::trim` of the standard library gives a string slice without the
/// white space at its two ends. The contract names what is left and says no
/// more of it.
pub assume_specification<'a>[ str::trim ](s: &'a str) -> (r: &'a str)
    ensures
        r@ == trimmed_text(s@),
;

/// What a reply to a question for a number comes to.
#[derive(Debug)]
pub enum Parsed {
    /// The operator gave no number.
    Nothing,
    /// The operator gave this number.
    Number(Decimal),
    /// The reply is no number: the question is asked again.
    Again,
}

/// Where a field of a kept record comes from when the record is put
/// together again.
#[derive(Debug)]
pub enum Recovered {
    /// The record holds the field: it is kept as it is.
    Kept(String),
    /// The record lacks the field: the operator is asked for it.
    Ask,
    /// The record lacks the field: the operator is asked for it until the
    /// reply is not empty.
    AskNonEmpty,
}

/// What is asked next while lines are entered.
#[derive(Debug)]
pub enum EntryStage {
    /// The description of the next line.
    Description,
    /// The units of the line with this description.
    Units(String),
    /// The price per unit of the line with this description and these
    /// units.
    Price(String, Decimal),
}

/// The entry of the lines of a document, somewhere between its first
/// question and its end.
#[derive(Debug)]
pub struct TransactionEntry {
    lines: Vec<Transaction>,
    stage: EntryStage,
    done: bool,
}

/// A stage of the entry as mathematics.
pub enum StageView {
    Description,
    Units(Seq<char>),
    Price(Seq<char>, int),
}

/// The entry as mathematics.
pub struct EntryView {
    pub lines: Seq<Line>,
    pub stage: StageView,
    pub done: bool,
}

/// The entry before the first question.
pub open spec fn entry_start() -> EntryView {
    EntryView { lines: Seq::empty(), stage: StageView::Description, done: false }
}

/// The entry after the reply `reply`. An empty description ends the entry;
/// any other description opens a line. A reply that is a number gives the
/// units or completes the line with the price; a reply that is none, an
/// empty one too, changes nothing, so that the question is asked again.
pub open spec fn entry_step(entry: EntryView, reply: Seq<char>) -> EntryView {
    if entry.done {
        entry
    } else {
        match entry.stage {
            StageView::Description => if reply.len() == 0 {
                EntryView { done: true, ..entry }
            } else {
                EntryView { stage: StageView::Units(reply), ..entry }
            },
            StageView::Units(description) => match decimal_value(reply) {
                Some(units) => EntryView { stage: StageView::Price(description, units), ..entry },
                None => entry,
            },
            StageView::Price(description, units) => match decimal_value(reply) {
                Some(price) => EntryView {
                    lines: entry.lines.push((description, units, price)),
                    stage: StageView::Description,
                    done: false,
                },
                None => entry,
            },
        }
    }
}

/// The entry after the replies `replies`, from its start.
pub open spec fn entered(replies: Seq<Seq<char>>) -> EntryView
    decreases replies.len(),
{
    if replies.len() == 0 {
        entry_start()
    } else {
        entry_step(entered(replies.drop_last()), replies.last())
    }
}

/// The replies as mathematics.
pub open spec fn replies_view(replies: Seq<String>) -> Seq<Seq<char>> {
    Seq::new(replies.len(), |i: int| replies[i]@)
}

/// What the reply `reply` to a question for a number comes to.
pub open spec fn parsed_reply(reply: Seq<char>) -> Option<Option<int>> {
    if reply.len() == 0 {
        Some(None)
    } else {
        match decimal_value(reply) {
            Some(raw) => Some(Some(raw)),
            None => None,
        }
    }
}

/// The question that the entry asks next, in the words of `lang`: for a
/// description, with the number of the line on a line of its own before
/// it. Nothing is asked once the entry has ended.
pub open spec fn entry_question(entry: EntryView, lang: Seq<(Seq<char>, Node)>) -> Result<
    Option<Seq<char>>,
    ErrcodeView,
> {
    if entry.done {
        Ok(None)
    } else {
        match entry.stage {
            StageView::Description => match general(lang, "tx_item_description"@) {
                Ok(word) => Ok(
                    Some(
                        "\nEnter data about transaction "@ + decimal_digits(
                            entry.lines.len() + 1,
                        ) + ": \n"@ + word + ": "@,
                    ),
                ),
                Err(e) => Err(e),
            },
            StageView::Units(_) => match general(lang, "tx_units"@) {
                Ok(word) => Ok(Some(word + ": "@)),
                Err(e) => Err(e),
            },
            StageView::Price(_, _) => match general(lang, "tx_price_per_unit"@) {
                Ok(word) => Ok(Some(word + ": "@)),
                Err(e) => Err(e),
            },
        }
    }
}

/// The reply that a line read from the operator holds: the line without
/// the white space at its two ends.
pub fn ask_user(line: &str) -> (r: String)
    ensures
        r@ == trimmed_text(line@),
{
    line.trim().to_owned()
}

/// What a reply to a question for a number comes to: no number where the
/// reply is empty, the number where it is one, and else the question again.
pub fn ask_user_parse(reply: &str) -> (r: Parsed)
    ensures
        match parsed_reply(reply@) {
            Some(Some(raw)) => r matches Parsed::Number(d) && d@ == raw,
            Some(None) => r is Nothing,
            None => r is Again,
        },
{
    if reply.is_empty() {
        Parsed::Nothing
    } else {
        match Decimal::parse(reply) {
            Some(d) => Parsed::Number(d),
            None => Parsed::Again,
        }
    }
}

/// The reply to a question that needs one: the reply where it is not
/// empty, and nothing, so that the question is asked again, where it is.
pub fn ask_user_nonempty(reply: &str) -> (r: Option<String>)
    ensures
        match r {
            Some(text) => reply@.len() > 0 && text@ == reply@,
            None => reply@.len() == 0,
        },
{
    if reply.is_empty() {
        None
    } else {
        Some(reply.to_owned())
    }
}

/// Where a field of a kept record comes from: what the record holds is
/// kept, and the operator is asked only for a field that could not be read.
pub fn map_get_str_or_ask(field: Option<String>, non_empty: bool) -> (r: Recovered)
    ensures
        match field {
            Some(text) => r matches Recovered::Kept(kept) && kept == text,
            None => if non_empty {
                r is AskNonEmpty
            } else {
                r is Ask
            },
        },
{
    match field {
        Some(text) => Recovered::Kept(text),
        None => if non_empty {
            Recovered::AskNonEmpty
        } else {
            Recovered::Ask
        },
    }
}

impl View for TransactionEntry {
    type V = EntryView;

    closed spec fn view(&self) -> EntryView {
        EntryView {
            lines: lines_of(self.lines@),
            stage: match self.stage {
                EntryStage::Description => StageView::Description,
                EntryStage::Units(description) => StageView::Units(description@),
                EntryStage::Price(description, units) => StageView::Price(description@, units@),
            },
            done: self.done,
        }
    }
}

impl TransactionEntry {
    /// The entry before the first question.
    pub fn new() -> (r: TransactionEntry)
        ensures
            r@ == entry_start(),
    {
        let r = TransactionEntry { lines: Vec::new(), stage: EntryStage::Description, done: false };
        assert(r@.lines =~= Seq::<Line>::empty());
        r
    }

    /// Whether the entry has ended.
    pub fn finished(&self) -> (r: bool)
        ensures
            r == self@.done,
    {
        self.done
    }

    /// The question to ask next, and nothing once the entry has ended.
    pub fn question(&self, lang: &LangDict) -> (r: Result<Option<String>, Errcode>)
        ensures
            match entry_question(self@, lang@) {
                Ok(Some(text)) => r matches Ok(Some(found)) && found@ == text,
                Ok(None) => r matches Ok(None),
                Err(e) => r matches Err(x) && x@ == e,
            },
    {
        if self.done {
            return Ok(None);
        }
        let mut out = String::new();
        match &self.stage {
            EntryStage::Description => {
                let word = lang.get_doctype_word("general", "tx_item_description")?;
                out.append("\nEnter data about transaction ");
                push_decimal(&mut out, self.lines.len() as u128 + 1);
                out.append(": \n");
                out.append(word.as_str());
                out.append(": ");
                assert(out@ =~= "\nEnter data about transaction "@ + decimal_digits(
                    self@.lines.len() + 1,
                ) + ": \n"@ + word@ + ": "@);
            },
            EntryStage::Units(_) => {
                let word = lang.get_doctype_word("general", "tx_units")?;
                out.append(word.as_str());
                out.append(": ");
            },
            EntryStage::Price(_, _) => {
                let word = lang.get_doctype_word("general", "tx_price_per_unit")?;
                out.append(word.as_str());
                out.append(": ");
            },
        }
        Ok(Some(out))
    }

    /// Takes the operator's reply to the question asked last.
    pub fn answer(&mut self, reply: &str)
        ensures
            final(self)@ == entry_step(old(self)@, reply@),
    {
        if self.done {
            return ;
        }
        let mut stage = EntryStage::Description;
        core::mem::swap(&mut self.stage, &mut stage);
        match stage {
            EntryStage::Description => {
                if reply.is_empty() {
                    self.done = true;
                } else {
                    self.stage = EntryStage::Units(reply.to_owned());
                }
            },
            EntryStage::Units(description) => {
                match Decimal::parse(reply) {
                    Some(units) => {
                        self.stage = EntryStage::Price(description, units);
                    },
                    None => {
                        self.stage = EntryStage::Units(description);
                    },
                }
            },
            EntryStage::Price(description, units) => {
                match Decimal::parse(reply) {
                    Some(price) => {
                        let ghost before = lines_of(self.lines@);
                        let ghost line = (description@, units@, price@);
                        self.lines.push((description, units, price));
                        proof {
                            assert(lines_of(self.lines@) =~= before.push(line));
                        }
                    },
                    None => {
                        self.stage = EntryStage::Price(description, units);
                    },
                }
            },
        }
    }

    /// The lines entered so far.
    pub fn lines(self) -> (r: Vec<Transaction>)
        ensures
            lines_of(r@) == self@.lines,
    {
        self.lines
    }
}

/// The lines that the replies `replies` enter, one reply for each question
/// asked. Replies after the end of the entry are not read, and a line that
/// the replies leave unfinished is not counted.
pub fn ask_for_transactions(replies: &[String]) -> (r: Vec<Transaction>)
    ensures
        lines_of(r@) == entered(replies_view(replies@)).lines,
{
    let mut entry = TransactionEntry::new();
    let ghost all = replies_view(replies@);
    let mut i: usize = 0;
    while i < replies.len()
        invariant
            i <= replies@.len(),
            all == replies_view(replies@),
            entry@ == entered(all.take(i as int)),
        decreases replies.len() - i,
    {
        proof {
            assert(all.take(i + 1).drop_last() =~= all.take(i as int));
            assert(all.take(i + 1).last() == all[i as int]);
        }
        entry.answer(replies[i].as_str());
        i = i + 1;
    }
    proof {
        assert(all.take(replies@.len() as int) =~= all);
    }
    entry.lines()
}

} // verus!
