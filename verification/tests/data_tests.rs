use docgen::config::{import_config, ConfigStore};
use docgen::contact::{Contact, ContactBook};
use docgen::data::{Answers, Datastore};
use docgen::date::CalendarDate;
use docgen::decimal::{Decimal, Transaction};
use docgen::doctype::invoice::{InvoiceInput, InvoiceSavedData};
use docgen::doctype::quotation::{QuotationInput, QuotationList, QuotationSavedData};
use docgen::doctype::{invoice, quotation, DocumentType};
use docgen::errors::Errcode;
use docgen::lang::{import_lang_profile, LangDict};
use docgen::value::Table;

fn dec(text: &str) -> Decimal {
    Decimal::parse(text).expect("a decimal numeral")
}

fn lines() -> Vec<Transaction> {
    vec![
        ("Design".to_string(), dec("2"), dec("10.00")),
        ("Hosting".to_string(), dec("1"), dec("5.00")),
    ]
}

fn today() -> CalendarDate {
    CalendarDate { year: 2024, month: 3, day: 7 }
}

fn words() -> LangDict {
    import_lang_profile(None).unwrap().0
}

fn taxed() -> ConfigStore {
    let (_, text) = import_config(None).unwrap();
    let text = text
        .replace("tax_applicable = false", "tax_applicable = true")
        .replace("name = \"My Company\"", "name = \"ACME\"");
    ConfigStore::new(Table::parse(&text).unwrap())
}

fn empty_store() -> Datastore {
    Datastore::import(vec![], None, None).unwrap()
}

fn quote(recipient: &str) -> QuotationInput {
    QuotationInput::new(recipient.to_string(), "1 March 2024".to_string(), lines()).unwrap()
}

fn answers(slug: &str) -> Answers {
    Answers {
        slug: slug.to_string(),
        newcomer: Some(("Bob Ltd".to_string(), "2 Side Street".to_string())),
        quote: None,
        date_sell: "5 March 2024".to_string(),
        tx: lines(),
    }
}

#[test]
fn slugs_are_lower_case_with_underscores() {
    assert_eq!(Contact::ask_slug("Bob Ltd"), "bob_ltd");
    assert_eq!(Contact::ask_slug("already_fine"), "already_fine");
    assert_eq!(Contact::ask_slug("A  B"), "a__b");
    assert_eq!(Contact::ask_slug("ÉCOLE Z"), "École_z");
    assert_eq!(Contact::ask_slug(""), "");
}

#[test]
fn a_new_contact_has_received_nothing() {
    let c = Contact::ask(None, "Bob Ltd", "Bob", "2 Side Street");
    assert_eq!(c.slug(), "bob_ltd");
    assert_eq!(c.name(), "Bob");
    assert_eq!(c.address(), "2 Side Street");
    assert!(c.invoices().is_empty());
    assert!(c.quotations().is_empty());
    let c = Contact::ask(Some("given".to_string()), "Ignored Reply", "Bob", "x");
    assert_eq!(c.slug, "given");
    let c = c.with_invoice(4).with_invoice(9);
    assert_eq!(c.invoices(), &vec![4, 9]);
    assert_eq!(c.copy().invoices(), &vec![4, 9]);
}

#[test]
fn contacts_are_added_on_first_reference() {
    let mut book = ContactBook::new();
    let slug = "bob".to_string();
    assert!(matches!(book.get(&slug), Err(Errcode::ContactNotFound(ref s)) if s == "bob"));
    assert!(matches!(book.get_or_add(&slug, None), Err(Errcode::ContactNotFound(ref s)) if s == "bob"));
    assert_eq!(book.len(), 0);
    let added = book.get_or_add(&slug, Some(("Bob".to_string(), "Street".to_string()))).unwrap();
    assert_eq!(added.name(), "Bob");
    assert_eq!(book.len(), 1);
    // a known contact is not replaced
    let same = book.get_or_add(&slug, Some(("Robert".to_string(), "Road".to_string()))).unwrap();
    assert_eq!(same.name(), "Bob");
    assert_eq!(book.get(&slug).unwrap().address(), "Street");
    book.record_invoice("bob", 3);
    book.record_invoice("nobody", 4);
    assert_eq!(book.get(&slug).unwrap().invoices(), &vec![3]);
    assert_eq!(book.len(), 1);
    assert_eq!(ContactBook::fname(), "contacts.json");
}

#[test]
fn a_register_is_read_as_it_was_written() {
    let mut book = ContactBook::new();
    for slug in ["zed", "amy", "bob"] {
        book.get_or_add(&slug.to_string(), Some((slug.to_uppercase(), "x".to_string()))).unwrap();
    }
    book.record_invoice("amy", 1);
    let entries = book.export();
    let slugs: Vec<&str> = entries.iter().map(|(k, _)| k.as_str()).collect();
    assert_eq!(slugs, vec!["amy", "bob", "zed"]);
    let again = ContactBook::import(entries);
    assert_eq!(again.len(), 3);
    assert_eq!(again.get(&"amy".to_string()).unwrap().invoices(), &vec![1]);
    assert_eq!(again.get(&"zed".to_string()).unwrap().name(), "ZED");
    // a later entry takes the place of an earlier one of the same slug
    let twice = ContactBook::import(vec![
        ("a".to_string(), Contact::ask(Some("a".to_string()), "", "first", "")),
        ("a".to_string(), Contact::ask(Some("a".to_string()), "", "second", "")),
    ]);
    assert_eq!(twice.len(), 1);
    assert_eq!(twice.get(&"a".to_string()).unwrap().name(), "second");
}

#[test]
fn a_claimed_quotation_is_no_longer_offered() {
    let mut history = QuotationSavedData::init();
    assert!(history.convertible("bob").is_empty());
    history.add_quote(&quote("bob"));
    history.add_quote(&quote("amy"));
    history.add_quote(&quote("bob"));
    history.add_quote(&quote("bob"));
    assert_eq!(history.convertible("bob"), vec![0, 1, 2]);
    history.mark_quotation_finished(&"bob".to_string(), 1, 7).unwrap();
    assert_eq!(history.convertible("bob"), vec![0, 2]);
    // whatever happens afterwards, it stays claimed by the same invoice
    history.add_quote(&quote("bob"));
    history.mark_quotation_finished(&"bob".to_string(), 0, 8).unwrap();
    history.add_quote(&quote("amy"));
    assert_eq!(history.convertible("bob"), vec![2, 3]);
    assert_eq!(history.convertible("amy"), vec![0, 1]);
    assert_eq!(history.history.get("bob").unwrap().items[1].1, Some(7));
    assert_eq!(history.history.get("bob").unwrap().items[0].1, Some(8));
}

#[test]
fn a_quotation_is_claimed_once() {
    let mut history = QuotationSavedData::init();
    history.add_quote(&quote("bob"));
    let bob = "bob".to_string();
    history.mark_quotation_finished(&bob, 0, 1).unwrap();
    let err = history.mark_quotation_finished(&bob, 0, 2).unwrap_err();
    assert!(matches!(err, Errcode::HistoryElementNotFound(0)));
    assert_eq!(history.history.get("bob").unwrap().items[0].1, Some(1));
    let err = history.mark_quotation_finished(&bob, 5, 2).unwrap_err();
    assert!(matches!(err, Errcode::HistoryElementNotFound(5)));
    let err = history.mark_quotation_finished(&"nobody".to_string(), 0, 2).unwrap_err();
    assert!(matches!(err, Errcode::ContactNotFound(ref s) if s == "nobody"));
}

#[test]
fn a_quotation_shows_in_one_line() {
    assert_eq!(quote("bob").single_line_display(), "bob 1 March 2024 25.00\u{20ac} : Design, Hosting");
    let empty = QuotationInput::new("bob".to_string(), "d".to_string(), vec![]).unwrap();
    assert_eq!(empty.single_line_display(), "bob d 0.00\u{20ac} : ");
    let long = QuotationInput::new(
        "bob".to_string(),
        "1 March 2024".to_string(),
        vec![("x".repeat(100), dec("1"), dec("1"))],
    )
    .unwrap();
    let shown = long.single_line_display();
    assert_eq!(shown.chars().count(), 83);
    assert!(shown.starts_with("bob 1 March 2024 1.00\u{20ac} : xxx"));
    assert!(shown.ends_with("x..."));
}

#[test]
fn quotations_hold_no_more_lines_than_a_document() {
    let line = ("x".to_string(), dec("1"), dec("1"));
    let err = QuotationInput::new("bob".to_string(), "d".to_string(), vec![line.clone(); 10_001]).unwrap_err();
    assert!(matches!(err, Errcode::TooManyTransactions(10_001)));
    assert!(QuotationInput::ask("bob".to_string(), &words(), &today(), vec![line.clone(); 10_001]).is_err());
    let q = QuotationInput::ask("bob".to_string(), &words(), &today(), vec![line]).unwrap();
    assert_eq!(q.created(), "7 March 2024");
    assert_eq!(q.recipient(), "bob");
    assert_eq!(q.tx().len(), 1);
    assert!(InvoiceInput::from_parts(1, "bob".to_string(), None, "d".to_string(), vec![("x".to_string(), dec("1"), dec("1")); 10_001], None, "c".to_string()).is_none());
}

#[test]
fn the_first_invoice_gets_the_id_one() {
    let data = InvoiceSavedData::init();
    assert_eq!(data.id_counter(), 1);
    assert!(data.history().is_empty());
    let data = InvoiceSavedData::import(None).unwrap();
    assert_eq!(data.id_counter(), 1);
}

fn kept_invoice(id: usize) -> InvoiceInput {
    InvoiceInput::from_parts(id, "bob".to_string(), None, "d".to_string(), lines(), Some(dec("0.2")), "c".to_string()).unwrap()
}

#[test]
fn a_history_out_of_order_is_refused() {
    let ok = InvoiceSavedData::import(Some((vec![kept_invoice(1), kept_invoice(2), kept_invoice(5)], Some(6)))).unwrap();
    assert_eq!(ok.id_counter(), 6);
    assert_eq!(ok.history().len(), 3);
    let err = InvoiceSavedData::import(Some((vec![kept_invoice(1), kept_invoice(1), kept_invoice(0)], Some(9)))).unwrap_err();
    assert!(matches!(err, Errcode::MalformedRecord(1)));
    let err = InvoiceSavedData::import(Some((vec![kept_invoice(3), kept_invoice(2)], Some(9)))).unwrap_err();
    assert!(matches!(err, Errcode::MalformedRecord(1)));
    let err = InvoiceSavedData::import(Some((vec![kept_invoice(1), kept_invoice(usize::MAX)], None))).unwrap_err();
    assert!(matches!(err, Errcode::MalformedRecord(1)));
    assert!(matches!(Datastore::import(vec![], Some((vec![kept_invoice(4), kept_invoice(4)], Some(9))), None), Err(Errcode::MalformedRecord(1))));
}

#[test]
fn what_can_be_read_of_a_history_is_kept() {
    // the counter could not be read: it goes on above the ids read
    let data = InvoiceSavedData::import(Some((vec![kept_invoice(3), kept_invoice(7)], None))).unwrap();
    assert_eq!(data.id_counter(), 8);
    assert_eq!(data.history().len(), 2);
    // a record could not be read: the counter read still lies above its id
    let data = InvoiceSavedData::import(Some((vec![kept_invoice(1), kept_invoice(3)], Some(5)))).unwrap();
    assert_eq!(data.id_counter(), 5);
    let ids: Vec<usize> = data.history().iter().map(|i| i.id()).collect();
    assert_eq!(ids, vec![1, 3]);
    // a counter that lies too low is raised, never lowered to 1
    let data = InvoiceSavedData::import(Some((vec![kept_invoice(1), kept_invoice(2)], Some(2)))).unwrap();
    assert_eq!(data.id_counter(), 3);
    let data = InvoiceSavedData::import(Some((vec![kept_invoice(0)], Some(0)))).unwrap();
    assert_eq!(data.id_counter(), 1);
    // nothing but the counter could be read
    let data = InvoiceSavedData::import(Some((vec![], Some(41)))).unwrap();
    assert_eq!(data.id_counter(), 41);
    assert!(data.history().is_empty());
    // nothing at all could be read
    let data = InvoiceSavedData::import(Some((vec![], None))).unwrap();
    assert_eq!(data.id_counter(), 1);
    let store = Datastore::import(vec![], Some((vec![kept_invoice(4)], Some(4))), None).unwrap();
    assert_eq!(store.invoices.id_counter(), 5);
}

#[test]
fn every_invoice_moves_the_counter_by_one() {
    let mut data = InvoiceSavedData::import(Some((vec![kept_invoice(3)], Some(10)))).unwrap();
    for _ in 0..5 {
        data.record(kept_invoice(0));
    }
    assert_eq!(data.id_counter(), 15);
    let ids: Vec<usize> = data.history().iter().map(|i| i.id()).collect();
    assert_eq!(ids, vec![3, 10, 11, 12, 13, 14]);
}

#[test]
fn the_counter_survives_the_end_of_a_run() {
    let cfg = taxed();
    let lang = words();
    let mut store = empty_store();
    invoice::generate(&cfg, &lang, &mut store, &answers("bob"), &today()).unwrap();
    invoice::generate(&cfg, &lang, &mut store, &answers("amy"), &today()).unwrap();
    let (contacts, (history, counter), quotations) = store.export();
    let mut store = Datastore::import(contacts, Some((history, Some(counter))), Some(quotations)).unwrap();
    invoice::generate(&cfg, &lang, &mut store, &answers("bob"), &today()).unwrap();
    assert_eq!(store.invoices.id_counter(), 4);
    let ids: Vec<usize> = store.invoices.history().iter().map(|i| i.id()).collect();
    assert_eq!(ids, vec![1, 2, 3]);
    assert_eq!(store.contacts.get(&"bob".to_string()).unwrap().invoices(), &vec![1, 3]);
    assert_eq!(store.contacts.get(&"amy".to_string()).unwrap().invoices(), &vec![2]);
}

#[test]
fn a_store_is_read_as_it_was_written() {
    let cfg = taxed();
    let lang = words();
    let mut store = empty_store();
    quotation::generate(&cfg, &lang, &mut store, &answers("bob"), &today()).unwrap();
    quotation::generate(&cfg, &lang, &mut store, &answers("amy"), &today()).unwrap();
    let mut convert = answers("bob");
    convert.quote = Some(0);
    invoice::generate(&cfg, &lang, &mut store, &convert, &today()).unwrap();
    let (contacts, (history, counter), quotations) = store.export();
    let again = Datastore::import(contacts, Some((history, Some(counter))), Some(quotations)).unwrap();
    assert_eq!(format!("{:?}", again), format!("{:?}", store));
    assert_eq!(again.quotations.convertible("bob"), Vec::<usize>::new());
    assert_eq!(again.quotations.convertible("amy"), vec![0]);
    assert_eq!(again.invoices.history()[0].quote_nb(), Some(0));
    assert_eq!(again.invoices.history()[0].tax_rate().unwrap().raw(), 2_000);
}

#[test]
fn nothing_kept_gives_an_empty_store() {
    let store = empty_store();
    assert_eq!(store.contacts.len(), 0);
    assert_eq!(store.invoices.id_counter(), 1);
    assert_eq!(store.quotations.history.len(), 0);
    let history = QuotationSavedData::import(None);
    assert_eq!(history.history.len(), 0);
    let history = QuotationSavedData::import(Some(vec![
        ("bob".to_string(), QuotationList { items: vec![(quote("bob"), None), (quote("bob"), Some(2))] }),
        ("amy".to_string(), QuotationList { items: vec![] }),
    ]));
    assert_eq!(history.history.len(), 2);
    assert_eq!(history.history.key_at(0), "amy");
    assert_eq!(history.convertible("bob"), vec![0]);
    let kept = Datastore::import(vec![], None, Some(vec![("bob".to_string(), QuotationList { items: vec![(quote("bob"), Some(1))] })])).unwrap();
    assert_eq!(kept.quotations.convertible("bob"), Vec::<usize>::new());
}

fn left_block(intro: &str, name: &str, address: &str) -> String {
    format!(
        "#grid(
            columns: (1fr, 1fr),
            column-gutter: 10%,
            align(left)[
                #text(17pt)[{}] \\
                {} \\ {} \\
            ],
            align(right)[
                ",
        intro, name, address
    )
}

#[test]
fn an_invoice_is_built_from_the_answers() {
    let cfg = taxed();
    let lang = words();
    let mut store = empty_store();
    let doc = invoice::generate(&cfg, &lang, &mut store, &answers("bob"), &today()).unwrap();
    assert_eq!(doc.fname, "invoice_bob_1_070324.pdf");
    let metadata = left_block("Invoice to", "Bob Ltd", "2 Side Street")
        + &format!(
            "{} \\#*{}{:0>5}* \\
                {} *{}* \\
                {}: *{}* {}
            ],
        )",
            "Invoice", "INV", 1, "Issued on", "7 March 2024", "Date of sale", "5 March 2024", ""
        );
    assert!(doc.code.starts_with("#set page(\n        paper: paper_type(),"));
    assert!(doc.code.contains("[*ACME*]"));
    assert!(doc.code.contains(&format!("\n#v(sep_par())\n{metadata}#v(sep_par())\n#table(")));
    assert!(doc.code.contains("\"Design\", \"2\", \"10.00 EUR\", \"20.00 EUR\","));
    assert!(doc.code.contains("[*Total before tax*], [25.00 EUR],"));
    assert!(doc.code.contains("[*VAT 20.00%*], [5.00 EUR],"));
    assert!(doc.code.contains("[*Total with tax*], [30.00 EUR],"));
    assert!(doc.code.ends_with("    )\n#v(sep_par())\n\n"));
    assert!(!doc.code.contains("IBAN"));
    // the store has the invoice, the contact and the moved counter
    assert_eq!(store.invoices.id_counter(), 2);
    assert_eq!(store.invoices.history().len(), 1);
    let kept = &store.invoices.history()[0];
    assert_eq!(kept.id(), 1);
    assert_eq!(kept.recipient(), "bob");
    assert_eq!(kept.quote_nb(), None);
    assert_eq!(kept.date_sell(), "5 March 2024");
    assert_eq!(kept.created(), "7 March 2024");
    assert_eq!(kept.tx().len(), 2);
    assert_eq!(kept.tax_rate().unwrap().raw(), 2_000);
    let bob = store.contacts.get(&"bob".to_string()).unwrap();
    assert_eq!(bob.name(), "Bob Ltd");
    assert_eq!(bob.invoices(), &vec![1]);
}

#[test]
fn an_invoice_keeps_the_tax_rate_of_its_day() {
    let lang = words();
    let mut store = empty_store();
    invoice::generate(&taxed(), &lang, &mut store, &answers("bob"), &today()).unwrap();
    let (untaxed, _) = import_config(None).unwrap();
    invoice::generate(&untaxed, &lang, &mut store, &answers("bob"), &today()).unwrap();
    assert_eq!(store.invoices.history()[0].tax_rate().unwrap().raw(), 2_000);
    assert!(store.invoices.history()[1].tax_rate().is_none());
}

#[test]
fn an_invoice_made_from_a_quotation_claims_it() {
    let cfg = taxed();
    let lang = words();
    let mut store = empty_store();
    let mut first = answers("bob");
    first.tx = vec![("Audit".to_string(), dec("3"), dec("100"))];
    let doc = quotation::generate(&cfg, &lang, &mut store, &first, &today()).unwrap();
    assert_eq!(doc.fname, "quotation_bob_1_070324.pdf");
    quotation::generate(&cfg, &lang, &mut store, &answers("bob"), &today()).unwrap();
    invoice::generate(&cfg, &lang, &mut store, &answers("bob"), &today()).unwrap();
    // the operator chooses the second of the two quotations offered
    let mut convert = answers("bob");
    convert.newcomer = None;
    convert.quote = Some(1);
    convert.tx = vec![];
    let doc = invoice::generate(&cfg, &lang, &mut store, &convert, &today()).unwrap();
    assert_eq!(doc.fname, "invoice_bob_2_070324.pdf");
    let reference = format!("\\\n\t{} \\#*{}{:0>5}*", "Quotation", "QUO", 1);
    assert!(doc.code.contains(&format!("Date of sale: *5 March 2024* {reference}\n            ],\n        )")));
    assert!(doc.code.contains("\"Design\", \"2\", \"10.00 EUR\", \"20.00 EUR\","));
    assert_eq!(store.invoices.history()[1].quote_nb(), Some(1));
    assert_eq!(store.invoices.history()[1].tx().len(), 2);
    assert_eq!(store.quotations.history.get("bob").unwrap().items[1].1, Some(2));
    assert_eq!(store.quotations.convertible("bob"), vec![0]);
    // what is left to choose from is the first quotation
    convert.quote = Some(0);
    invoice::generate(&cfg, &lang, &mut store, &convert, &today()).unwrap();
    assert_eq!(store.invoices.history()[2].quote_nb(), Some(0));
    assert_eq!(store.invoices.history()[2].tx()[0].0, "Audit");
    assert_eq!(store.quotations.history.get("bob").unwrap().items[0].1, Some(3));
    // nothing is left
    let before = format!("{:?}", store);
    let err = invoice::generate(&cfg, &lang, &mut store, &convert, &today()).unwrap_err();
    assert!(matches!(err, Errcode::HistoryElementNotFound(0)));
    assert_eq!(format!("{:?}", store), before);
}

#[test]
fn a_converted_invoice_is_made_out_to_the_slug_it_was_found_under() {
    let cfg = taxed();
    let lang = words();
    // a quotation that names amy, kept under the slug bob
    let kept = vec![("bob".to_string(), QuotationList { items: vec![(quote("amy"), None)] })];
    let mut store = Datastore::import(vec![], None, Some(kept)).unwrap();
    let mut convert = answers("bob");
    convert.quote = Some(0);
    let doc = invoice::generate(&cfg, &lang, &mut store, &convert, &today()).unwrap();
    assert_eq!(doc.fname, "invoice_bob_1_070324.pdf");
    assert_eq!(store.invoices.history()[0].recipient(), "bob");
    assert_eq!(store.contacts.get(&"bob".to_string()).unwrap().invoices(), &vec![1]);
    assert_eq!(store.quotations.history.get("bob").unwrap().items[0].1, Some(1));
    assert!(store.contacts.get(&"amy".to_string()).is_err());
}

#[test]
fn an_error_leaves_the_store_as_it_was() {
    let lang = words();
    let cfg = taxed();
    let mut store = empty_store();
    let before = format!("{:?}", store);
    let mut unknown = answers("bob");
    unknown.newcomer = None;
    let err = invoice::generate(&cfg, &lang, &mut store, &unknown, &today()).unwrap_err();
    assert!(matches!(err, Errcode::ContactNotFound(ref s) if s == "bob"));
    let err = quotation::generate(&cfg, &lang, &mut store, &unknown, &today()).unwrap_err();
    assert!(matches!(err, Errcode::ContactNotFound(ref s) if s == "bob"));
    let mut many = answers("bob");
    many.tx = vec![("x".to_string(), dec("1"), dec("1")); 10_001];
    let err = invoice::generate(&cfg, &lang, &mut store, &many, &today()).unwrap_err();
    assert!(matches!(err, Errcode::TooManyTransactions(10_001)));
    let mut nothing_offered = answers("bob");
    nothing_offered.quote = Some(0);
    let err = invoice::generate(&cfg, &lang, &mut store, &nothing_offered, &today()).unwrap_err();
    assert!(matches!(err, Errcode::HistoryElementNotFound(0)));
    let poor = ConfigStore::new(Table::parse("[taxes]\ntax_applicable = false\n").unwrap());
    let err = invoice::generate(&poor, &lang, &mut store, &answers("bob"), &today()).unwrap_err();
    assert!(matches!(err, Errcode::InvalidConfig("config", ref e) if e == "invoice:footer"));
    let err = quotation::generate(&poor, &lang, &mut store, &answers("bob"), &today()).unwrap_err();
    assert!(matches!(err, Errcode::InvalidConfig("config", ref e) if e == "quotation:footer"));
    let mute = LangDict::new(Table::new());
    let err = invoice::generate(&cfg, &mute, &mut store, &answers("bob"), &today()).unwrap_err();
    assert!(matches!(err, Errcode::InvalidConfig("lang", ref e) if e == "months"));
    assert_eq!(format!("{:?}", store), before);
}

#[test]
fn a_quotation_is_built_from_the_answers() {
    let (_, text) = import_config(None).unwrap();
    let text = text
        .replace("add_iban = false", "add_iban = true")
        .replace("payment_conditions = \"\"", "payment_conditions = \"30 days net\"");
    let cfg = ConfigStore::new(Table::parse(&text).unwrap());
    let lang = words();
    let mut store = empty_store();
    store.contacts.get_or_add(&"amy".to_string(), Some(("Amy".to_string(), "Lane".to_string()))).unwrap();
    quotation::generate(&cfg, &lang, &mut store, &answers("amy"), &today()).unwrap();
    let doc = DocumentType::Quotation
        .generate_typst(&cfg, &lang, &mut store, &answers("bob"), &today())
        .unwrap();
    // the number counts the recipients that have quotations
    assert_eq!(doc.fname, "quotation_bob_2_070324.pdf");
    let metadata = left_block("Quotation for", "Bob Ltd", "2 Side Street")
        + &format!(
            "{} \\#*{:0>5}* \\
                {} *{}* \\
            ],
        )",
            "Quotation", 2, "Issued on", "7 March 2024"
        );
    assert!(doc.code.contains(&format!("\n#v(sep_par())\n{metadata}#v(sep_par())\n#table(")));
    assert!(doc.code.contains("#v(sep_par())\n=== Terms of payment\n30 days net\n\n        === Payment\n"));
    assert!(doc.code.contains("[*VAT not applicable*], []"));
    assert!(doc.code.ends_with("[*BIC*], [],\n        )\n\n"));
    assert_eq!(store.quotations.convertible("bob"), vec![0]);
    assert_eq!(store.quotations.history.len(), 2);
    assert_eq!(store.invoices.id_counter(), 1);
    // a known contact keeps its name
    assert_eq!(store.contacts.get(&"amy".to_string()).unwrap().name(), "Amy");
    let doc = DocumentType::Invoice
        .generate_typst(&cfg, &lang, &mut store, &answers("amy"), &today())
        .unwrap();
    assert!(doc.code.contains("Amy \\ Lane \\"));
    assert!(doc.code.contains("[*IBAN*], [],"));
}
