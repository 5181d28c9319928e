//! The kinds of document that the library builds, and what building one
//! gives: a file name and markup.

use vstd::prelude::*;
use vstd::string::*;
use crate::config::ConfigStore;
use crate::data::{Answers, Datastore};
use crate::date::CalendarDate;
use crate::errors::{Errcode, ErrcodeView};
use crate::lang::LangDict;
use crate::lifecycle::{store_after, Made};
use crate::text::lowercase_text;

pub mod invoice;
pub mod quotation;

verus! {

/// A document as it goes to the typesetter: the name of the file to write
/// and the markup.
#[derive(Debug)]
pub struct TypstData {
    pub fname: String,
    pub code: String,
}

impl TypstData {
    /// The document with the file name `fname` and the markup `code`.
    pub fn new(fname: String, code: String) -> (r: TypstData)
        ensures
            r.fname == fname,
            r.code == code,
    {
        TypstData { fname, code }
    }
}

/// The kinds of document.
#[derive(Hash, Debug, Clone, Copy, PartialEq, Eq, Structural)]
pub enum DocumentType {
    Invoice,
    Quotation,
}

/// The kind of document that the lower-case name `name` stands for.
pub open spec fn document_type_named(name: Seq<char>) -> Option<DocumentType> {
    if name == "invoice"@ {
        Some(DocumentType::Invoice)
    } else if name == "quotation"@ {
        Some(DocumentType::Quotation)
    } else {
        None
    }
}

impl DocumentType {
    /// The name of this kind, in lower case.
    pub open spec fn name(self) -> Seq<char> {
        match self {
            DocumentType::Invoice => "invoice"@,
            DocumentType::Quotation => "quotation"@,
        }
    }

    /// The name of this kind, in lower case.
    pub fn to_string(&self) -> (r: String)
        ensures
            r@ == self.name(),
    {
        match self {
            DocumentType::Invoice => "invoice".to_owned(),
            DocumentType::Quotation => "quotation".to_owned(),
        }
    }

    /// The name of the file that keeps the history of this kind of
    /// document: the name of the kind with the extension `json`.
    pub fn fname(&self) -> (r: String)
        ensures
            r@ == self.name() + ".json"@,
    {
        let mut out = self.to_string();
        out.append(".json");
        out
    }

    /// Makes a document of this kind from the operator's answers, dated
    /// `today`, and brings the store up to date. After an error the store
    /// is as before.
    pub fn generate_typst(
        &self,
        cfg: &ConfigStore,
        lang: &LangDict,
        data: &mut Datastore,
        answers: &Answers,
        today: &CalendarDate,
    ) -> (r: Result<TypstData, Errcode>)
        requires
            *self == DocumentType::Invoice ==> old(data)@.invoices.id_counter < usize::MAX,
        ensures
            match (
                match self {
                    DocumentType::Invoice => invoice::invoice_outcome(
                        cfg@,
                        lang@,
                        old(data)@,
                        answers@,
                        *today,
                    ),
                    DocumentType::Quotation => quotation::quotation_outcome(
                        cfg@,
                        lang@,
                        old(data)@,
                        answers@,
                        *today,
                    ),
                }
            ) {
                Ok((store, (name, code))) => r matches Ok(document) && document.fname@ == name
                    && document.code@ == code && final(data)@ == store,
                Err(e) => r matches Err(x) && x@ == e && final(data)@ == old(data)@,
            },
            final(data)@ == store_after(
                old(data)@,
                (Made { kind: *self, cfg: cfg@, lang: lang@, answers: answers@, today: *today }),
            ),
    {
        match self {
            DocumentType::Invoice => invoice::generate(cfg, lang, data, answers, today),
            DocumentType::Quotation => quotation::generate(cfg, lang, data, answers, today),
        }
    }

    /// The kind of document that the lower-case name `name` stands for.
    pub fn named(name: &str) -> (r: Option<DocumentType>)
        ensures
            r == document_type_named(name@),
    {
        if *name == *"invoice" {
            Some(DocumentType::Invoice)
        } else if *name == *"quotation" {
            Some(DocumentType::Quotation)
        } else {
            None
        }
    }

    /// The kind of document that `value` names, whatever the case of its
    /// letters; any other name is refused as unsupported, before anything
    /// else is touched.
    pub fn try_from(value: &String) -> (r: Result<DocumentType, Errcode>)
        ensures
            match document_type_named(lowercase_text(value@)) {
                Some(kind) => r matches Ok(found) && found == kind,
                None => r matches Err(e) && e@ == ErrcodeView::DocTypeUnsupported(value@),
            },
    {
        let lowered = value.as_str().to_lowercase();
        match DocumentType::named(lowered.as_str()) {
            Some(kind) => Ok(kind),
            None => Err(Errcode::DocTypeUnsupported(value.clone())),
        }
    }
}

} // verus!
