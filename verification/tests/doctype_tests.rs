use docgen::doctype::{DocumentType, TypstData};
use docgen::errors::Errcode;

#[test]
fn document_types_are_named_in_any_case() {
    assert_eq!(DocumentType::try_from(&"invoice".to_string()).unwrap(), DocumentType::Invoice);
    assert_eq!(DocumentType::try_from(&"Invoice".to_string()).unwrap(), DocumentType::Invoice);
    assert_eq!(DocumentType::try_from(&"QUOTATION".to_string()).unwrap(), DocumentType::Quotation);
    assert_eq!(DocumentType::named("quotation"), Some(DocumentType::Quotation));
    assert_eq!(DocumentType::named("Quotation"), None);
}

#[test]
fn other_document_types_are_refused_by_name() {
    let err = DocumentType::try_from(&"Letter".to_string()).unwrap_err();
    assert!(matches!(err, Errcode::DocTypeUnsupported(ref name) if name == "Letter"));
    assert_eq!(err.to_string(), "unsupported document type: Letter");
    assert!(DocumentType::try_from(&"".to_string()).is_err());
    assert!(DocumentType::try_from(&"invoice ".to_string()).is_err());
}

#[test]
fn histories_are_kept_in_files_named_after_the_kind() {
    assert_eq!(DocumentType::Invoice.fname(), "invoice.json");
    assert_eq!(DocumentType::Quotation.fname(), "quotation.json");
    assert_eq!(DocumentType::Invoice.to_string(), "invoice");
    assert_eq!(DocumentType::Quotation.to_string(), "quotation");
}

#[test]
fn a_document_is_a_file_name_and_markup() {
    let doc = TypstData::new("a.pdf".to_string(), "= Title".to_string());
    assert_eq!(doc.fname, "a.pdf");
    assert_eq!(doc.code, "= Title");
}

#[test]
fn every_error_tells_what_went_wrong() {
    assert_eq!(Errcode::ContactNotFound("bob".to_string()).to_string(), "no contact with slug: bob");
    assert_eq!(Errcode::HistoryElementNotFound(3).to_string(), "no such element in the history: 3");
    assert_eq!(Errcode::ResourceNotFound("img/a.png".to_string()).to_string(), "resource not found: img/a.png");
    assert_eq!(Errcode::TooManyTransactions(10_001).to_string(), "too many lines for one document: 10001");
    assert_eq!(Errcode::MalformedRecord(0).to_string(), "the history is out of order at: 0");
    assert_eq!(Errcode::InvalidConfig("style", "font_name".to_string()).to_string(), "invalid entry in style: font_name");
}
