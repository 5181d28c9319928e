//! The word dictionary: the words that a document shows, by topic, and the
//! names of the months.

use vstd::prelude::*;
use vstd::string::*;
use crate::config::{find_text, string_result, text_setting};
use crate::date::{signed_digits, CalendarDate};
use crate::errors::{Errcode, ErrcodeView};
use crate::text::{decimal_digits, push_decimal};
use crate::sorted::lookup;
use crate::value::{parsed_document, Node, Table};

verus! {

/// The words that a fresh installation starts with.
pub const DEFAULT_LANG: &'static str = "months = [\"\", \"January\", \"February\", \"March\", \"April\", \"May\", \"June\", \"July\", \"August\", \"September\", \"October\", \"November\", \"December\"]

[general]
tx_item_description = \"Description\"
tx_units = \"Units\"
tx_price_per_unit = \"Price per unit\"
total_price_no_tax = \"Total before tax\"
total_price_with_tax = \"Total with tax\"
currency_symbol = \"EUR\"
tax_name = \"VAT\"
tax_not_applicable = \"VAT not applicable\"
iban_title = \"Payment\"
iban_bank = \"Bank\"
creation_date = \"Issued on\"
sell_date = \"Date of sale\"

[invoice]
recipient_intro = \"Invoice to\"
invoice_nb = \"Invoice\"
quotation_related = \"Quotation\"

[quotation]
recipient_intro = \"Quotation for\"
quotation_nb = \"Quotation\"
payment_conditions = \"Terms of payment\"
";

/// The error for a dictionary whose months cannot name the month asked for.
pub open spec fn bad_months() -> ErrcodeView {
    ErrcodeView::InvalidConfig("lang"@, "months"@)
}

/// The name of the month `month` in `lang`: the entry of that position in
/// the list of months.
pub open spec fn month_name(lang: Seq<(Seq<char>, Node)>, month: u32) -> Result<
    Seq<char>,
    ErrcodeView,
> {
    match lookup(lang, "months"@) {
        Some(Node::List(names)) => if month < names.len() && names[month as int] is Text {
            Ok(names[month as int]->Text_0)
        } else {
            Err(bad_months())
        },
        _ => Err(bad_months()),
    }
}

/// A date in words: the day, the name of the month, the year.
pub open spec fn date_text(lang: Seq<(Seq<char>, Node)>, date: CalendarDate) -> Result<
    Seq<char>,
    ErrcodeView,
> {
    match month_name(lang, date.month) {
        Ok(name) => Ok(
            decimal_digits(date.day as nat) + " "@ + name + " "@ + signed_digits(date.year as int),
        ),
        Err(e) => Err(e),
    }
}

/// The word `word` of the topic `subtable` in `lang`.
pub open spec fn word_of(lang: Seq<(Seq<char>, Node)>, subtable: Seq<char>, word: Seq<char>)
    -> Result<Seq<char>, ErrcodeView> {
    text_setting(lang, "lang"@, subtable, word)
}

/// What loading the dictionary gives: the words in use and, where there
/// was no dictionary file, the text to store in it.
pub open spec fn imported_lang(stored: Option<Seq<char>>) -> Result<
    (Seq<(Seq<char>, Node)>, Option<Seq<char>>),
    ErrcodeView,
> {
    let text = match stored {
        Some(text) => text,
        None => DEFAULT_LANG@,
    };
    match parsed_document(text) {
        None => Err(ErrcodeView::TomlDecode),
        Some(words) => Ok(
            (
                words,
                if stored is None {
                    Some(DEFAULT_LANG@)
                } else {
                    None
                },
            ),
        ),
    }
}

/// The word dictionary.
#[derive(Debug)]
pub struct LangDict {
    data: Table,
}

impl LangDict {
    /// The dictionary, as the entries of its top table.
    pub closed spec fn view(&self) -> Seq<(Seq<char>, Node)> {
        self.data@
    }

    /// The dictionary that holds the words of `data`.
    pub fn new(data: Table) -> (r: LangDict)
        ensures
            r@ == data@,
    {
        LangDict { data }
    }

    /// The name of the month `month`.
    fn month(&self, month: u32) -> (r: Result<&str, Errcode>)
        ensures
            match month_name(self@, month) {
                Ok(name) => r matches Ok(s) && s@ == name,
                Err(e) => r matches Err(x) && x@ == e,
            },
    {
        match self.data.get("months") {
            Some(item) => match item.as_list() {
                Some(names) => {
                    if (month as usize) < names.len() {
                        match names[month as usize].as_str() {
                            Some(name) => Ok(name),
                            None => Err(Errcode::InvalidConfig("lang", "months".to_owned())),
                        }
                    } else {
                        Err(Errcode::InvalidConfig("lang", "months".to_owned()))
                    }
                },
                None => Err(Errcode::InvalidConfig("lang", "months".to_owned())),
            },
            None => Err(Errcode::InvalidConfig("lang", "months".to_owned())),
        }
    }

    /// The date in words: the day, the name of the month, the year.
    pub fn get_date_fmt(&self, date: &CalendarDate) -> (r: Result<String, Errcode>)
        ensures
            string_result(r, date_text(self@, *date)),
    {
        let name = match self.month(date.month) {
            Ok(name) => name,
            Err(e) => {
                return Err(e);
            },
        };
        let mut out = String::new();
        push_decimal(&mut out, date.day as u128);
        out.append(" ");
        out.append(name);
        out.append(" ");
        date.push_year(&mut out);
        assert(out@ =~= decimal_digits(date.day as nat) + " "@ + name@ + " "@ + signed_digits(
            date.year as int,
        ));
        Ok(out)
    }

    /// The word `word` of the topic `subtable`.
    pub fn get_doctype_word(&self, subtable: &str, word: &str) -> (r: Result<String, Errcode>)
        ensures
            string_result(r, word_of(self@, subtable@, word@)),
    {
        match find_text(&self.data, "lang", subtable, word) {
            Ok(s) => Ok(s.to_owned()),
            Err(e) => Err(e),
        }
    }
}

/// Loads the dictionary from what the dictionary file holds, if it exists,
/// and else from the words that an installation starts with, which are then
/// also the text to store in the file.
pub fn import_lang_profile(stored: Option<&str>) -> (r: Result<(LangDict, Option<String>), Errcode>)
    ensures
        match imported_lang(
            match stored {
                Some(text) => Some(text@),
                None => None,
            },
        ) {
            Ok((words, text)) => r matches Ok((dict, out)) && dict@ == words && match text {
                Some(t) => out matches Some(o) && o@ == t,
                None => out is None,
            },
            Err(e) => r matches Err(x) && x@ == e,
        },
{
    let text = match stored {
        Some(text) => text,
        None => DEFAULT_LANG,
    };
    match Table::parse(text) {
        Ok(data) => {
            let persist = if stored.is_none() {
                Some(DEFAULT_LANG.to_owned())
            } else {
                None
            };
            Ok((LangDict { data }, persist))
        },
        Err(e) => Err(Errcode::TomlDecode(e)),
    }
}

} // verus!
