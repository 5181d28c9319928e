//! What can go wrong while a document is put together.

use vstd::prelude::*;
use vstd::string::*;
use crate::text::{decimal_digits, push_decimal};

verus! {

/// The causes for which a document is not produced.
#[derive(Debug)]
pub enum Errcode {
    /// The document type asked for is none that the library builds.
    DocTypeUnsupported(String),
    /// A file of settings lacks an entry or holds one of the wrong kind: the
    /// file, then the entry.
    InvalidConfig(&'static str, String),
    /// No contact has this slug.
    ContactNotFound(String),
    /// The history holds no element of this index that can be taken.
    HistoryElementNotFound(usize),
    /// The markup refers to a file that the assets do not hold.
    ResourceNotFound(String),
    /// A document has more lines than one document can hold: the number
    /// of lines.
    TooManyTransactions(usize),
    /// The kept history of invoices is not numbered in order: the position
    /// of the first invoice whose id is out of order.
    MalformedRecord(usize),
    /// A file of settings is no valid document.
    TomlDecode(toml::de::Error),
    /// Settings cannot be written as a document.
    TomlEncode(toml::ser::Error),
}

/// An error as mathematics: texts as sequences of characters.
pub enum ErrcodeView {
    DocTypeUnsupported(Seq<char>),
    InvalidConfig(Seq<char>, Seq<char>),
    ContactNotFound(Seq<char>),
    HistoryElementNotFound(usize),
    ResourceNotFound(Seq<char>),
    TooManyTransactions(usize),
    MalformedRecord(usize),
    TomlDecode,
    TomlEncode,
}

/// The sentence that tells an operator what went wrong.
pub open spec fn message(e: ErrcodeView) -> Seq<char> {
    match e {
        ErrcodeView::DocTypeUnsupported(name) => "unsupported document type: "@ + name,
        ErrcodeView::InvalidConfig(file, entry) => "invalid entry in "@ + file + ": "@ + entry,
        ErrcodeView::ContactNotFound(slug) => "no contact with slug: "@ + slug,
        ErrcodeView::HistoryElementNotFound(index) => "no such element in the history: "@
            + decimal_digits(index as nat),
        ErrcodeView::ResourceNotFound(path) => "resource not found: "@ + path,
        ErrcodeView::TooManyTransactions(count) => "too many lines for one document: "@
            + decimal_digits(count as nat),
        ErrcodeView::MalformedRecord(index) => "the history is out of order at: "@
            + decimal_digits(index as nat),
        ErrcodeView::TomlDecode => "a settings file is not a valid document"@,
        ErrcodeView::TomlEncode => "the settings cannot be written as a document"@,
    }
}

impl Errcode {
    pub open spec fn view(&self) -> ErrcodeView {
        match self {
            Errcode::DocTypeUnsupported(name) => ErrcodeView::DocTypeUnsupported(name@),
            Errcode::InvalidConfig(file, entry) => ErrcodeView::InvalidConfig(file@, entry@),
            Errcode::ContactNotFound(slug) => ErrcodeView::ContactNotFound(slug@),
            Errcode::HistoryElementNotFound(index) => ErrcodeView::HistoryElementNotFound(*index),
            Errcode::ResourceNotFound(path) => ErrcodeView::ResourceNotFound(path@),
            Errcode::TooManyTransactions(count) => ErrcodeView::TooManyTransactions(*count),
            Errcode::MalformedRecord(index) => ErrcodeView::MalformedRecord(*index),
            Errcode::TomlDecode(_) => ErrcodeView::TomlDecode,
            Errcode::TomlEncode(_) => ErrcodeView::TomlEncode,
        }
    }

    /// The sentence that tells an operator what went wrong.
    pub fn to_string(&self) -> (r: String)
        ensures
            r@ == message(self@),
    {
        let mut out = String::new();
        match self {
            Errcode::DocTypeUnsupported(name) => {
                out.append("unsupported document type: ");
                out.append(name.as_str());
            },
            Errcode::InvalidConfig(file, entry) => {
                out.append("invalid entry in ");
                out.append(file);
                out.append(": ");
                out.append(entry.as_str());
            },
            Errcode::ContactNotFound(slug) => {
                out.append("no contact with slug: ");
                out.append(slug.as_str());
            },
            Errcode::HistoryElementNotFound(index) => {
                out.append("no such element in the history: ");
                push_decimal(&mut out, *index as u128);
            },
            Errcode::ResourceNotFound(path) => {
                out.append("resource not found: ");
                out.append(path.as_str());
            },
            Errcode::TooManyTransactions(count) => {
                out.append("too many lines for one document: ");
                push_decimal(&mut out, *count as u128);
            },
            Errcode::MalformedRecord(index) => {
                out.append("the history is out of order at: ");
                push_decimal(&mut out, *index as u128);
            },
            Errcode::TomlDecode(_) => {
                out.append("a settings file is not a valid document");
            },
            Errcode::TomlEncode(_) => {
                out.append("the settings cannot be written as a document");
            },
        }
        assert(out@ =~= message(self@));
        out
    }
}

} // verus!
