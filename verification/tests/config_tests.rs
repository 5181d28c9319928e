use docgen::config::{import_config, ConfigStore, DEFAULT_CONFIG};
use docgen::date::CalendarDate;
use docgen::errors::Errcode;
use docgen::lang::{import_lang_profile, LangDict, DEFAULT_LANG};
use docgen::value::{Item, Table};

fn table(text: &str) -> Table {
    Table::parse(text).expect("a document")
}

#[test]
fn a_missing_file_gives_the_defaults_and_their_text() {
    let (cfg, text) = import_config(None).unwrap();
    assert_eq!(text, DEFAULT_CONFIG);
    assert_eq!(cfg.get_company("name").unwrap(), "My Company");
    assert_eq!(cfg.get_company("logo_path").unwrap(), "");
    assert!(!cfg.get_bool("taxes", "tax_applicable").unwrap());
    assert_eq!(cfg.get_float("taxes", "tax_rate").unwrap().raw(), 2_000);
    assert_eq!(cfg.get_str("invoice", "id_prefix").unwrap(), "INV");
    assert_eq!(cfg.get_str("quotation", "id_prefix").unwrap(), "QUO");
}

#[test]
fn missing_tables_are_filled_in_from_the_defaults() {
    let stored = "[company]\nname = \"ACME\"\n\n[taxes]\ntax_applicable = true\ntax_rate = 0.055\n";
    let (cfg, text) = import_config(Some(stored)).unwrap();
    // what the file holds stays
    assert_eq!(cfg.get_company("name").unwrap(), "ACME");
    assert!(cfg.get_bool("taxes", "tax_applicable").unwrap());
    assert_eq!(cfg.get_float("taxes", "tax_rate").unwrap().raw(), 550);
    // a table that the file lacks comes from the defaults
    assert_eq!(cfg.get_str("bank", "iban").unwrap(), "");
    assert_eq!(cfg.get_str("invoice", "id_prefix").unwrap(), "INV");
    // and so does a key that a table of the file lacks
    assert_eq!(cfg.get_company("email").unwrap(), "contact@example.com");
    assert_eq!(cfg.get_company("logo_path").unwrap(), "");
    // the text to store holds the merged settings
    let again = table(&text);
    assert!(again.contains_key("bank"));
    assert!(again.contains_key("quotation"));
    assert_eq!(again.len(), 5);
    assert_eq!(again.get("company").unwrap().as_table().unwrap().len(), 8);
}

#[test]
fn a_key_missing_inside_a_table_is_filled_in() {
    let stored = "[taxes]\ntax_applicable = true\n";
    let (cfg, text) = import_config(Some(stored)).unwrap();
    assert!(cfg.get_bool("taxes", "tax_applicable").unwrap());
    assert_eq!(cfg.get_float("taxes", "tax_rate").unwrap().raw(), 2_000);
    let written = table(&text);
    let taxes = written.get("taxes").unwrap().as_table().unwrap();
    assert_eq!(taxes.len(), 2);
    assert_eq!(taxes.get("tax_applicable").unwrap().as_bool(), Some(true));
    assert_eq!(taxes.get("tax_rate").unwrap().literal(), "0.2");
    // a second load finds nothing to add
    let (again, second) = import_config(Some(&text)).unwrap();
    assert_eq!(second, text);
    assert_eq!(again.get_float("taxes", "tax_rate").unwrap().raw(), 2_000);
}

#[test]
fn a_value_that_is_no_table_is_not_filled_into() {
    let (cfg, _) = import_config(Some("taxes = 3\n")).unwrap();
    let err = cfg.get_float("taxes", "tax_rate").unwrap_err();
    assert_eq!(err.to_string(), "invalid entry in config: taxes:tax_rate");
    assert_eq!(cfg.get_str("bank", "iban").unwrap(), "");
}

#[test]
fn loading_what_was_stored_changes_nothing() {
    let stored = "[company]\nname = \"ACME\"\n";
    let (_, first) = import_config(Some(stored)).unwrap();
    let (cfg, second) = import_config(Some(&first)).unwrap();
    assert_eq!(first, second);
    assert_eq!(cfg.get_company("name").unwrap(), "ACME");
    let (_, third) = import_config(Some(&second)).unwrap();
    assert_eq!(second, third);
}

#[test]
fn a_file_that_is_no_document_is_refused() {
    let err = import_config(Some("[company\nname = ")).unwrap_err();
    assert!(matches!(err, Errcode::TomlDecode(_)));
    assert_eq!(err.to_string(), "a settings file is not a valid document");
}

#[test]
fn accessors_tell_missing_entries_and_wrong_kinds() {
    let cfg = ConfigStore::new(table("[taxes]\ntax_applicable = \"yes\"\ntax_rate = 0.2\nflag = true\n"));
    assert_eq!(cfg.get_bool("taxes", "tax_applicable").unwrap_err().to_string(), "invalid entry in config: taxes:tax_applicable");
    assert_eq!(cfg.get_str("taxes", "tax_rate").unwrap_err().to_string(), "invalid entry in config: taxes:tax_rate");
    assert_eq!(cfg.get_float("taxes", "flag").unwrap_err().to_string(), "invalid entry in config: taxes:flag");
    assert_eq!(cfg.get_str("nowhere", "x").unwrap_err().to_string(), "invalid entry in config: nowhere:x");
    assert_eq!(cfg.get_company("name").unwrap_err().to_string(), "invalid entry in config: company:name");
    assert!(cfg.get_bool("taxes", "flag").unwrap());
}

#[test]
fn merge_keeps_loaded_tables_and_adds_missing_ones() {
    let loaded = table("a = 1\n[t]\nx = \"loaded\"\n");
    let defaults = table("a = 2\nb = 3\n[t]\nx = \"default\"\ny = \"default\"\n[u]\nz = true\n");
    let cfg = ConfigStore::merge(loaded, defaults);
    assert_eq!(cfg.get_str("t", "x").unwrap(), "loaded");
    assert_eq!(cfg.get_str("t", "y").unwrap(), "default");
    assert!(cfg.get_bool("u", "z").unwrap());
}

#[test]
fn tables_keep_their_entries_in_the_order_of_the_keys() {
    let mut t = Table::new();
    t.insert("b".to_string(), Item::Integer(2));
    t.insert("a".to_string(), Item::Integer(1));
    t.insert("c".to_string(), Item::Flag(true));
    t.insert("ab".to_string(), Item::Text("x".to_string()));
    assert_eq!(t.len(), 4);
    assert_eq!(t.key_at(0), "a");
    assert_eq!(t.key_at(1), "ab");
    assert_eq!(t.key_at(2), "b");
    assert_eq!(t.key_at(3), "c");
    t.insert("b".to_string(), Item::Integer(20));
    assert_eq!(t.len(), 4);
    assert_eq!(t.get("b").unwrap().as_integer(), Some(20));
    assert_eq!(t.item_at(0).as_integer(), Some(1));
    assert!(t.get("z").is_none());
    assert!(!t.contains_key(""));
    assert_eq!(t.get("ab").unwrap().as_str(), Some("x"));
    assert_eq!(t.get("c").unwrap().as_bool(), Some(true));
    assert!(t.get("c").unwrap().as_table().is_none());
}

#[test]
fn backfill_adds_only_what_is_missing() {
    let mut t = table("b = 1\n");
    t.backfill(table("a = 10\nb = 20\nc = 30\n"));
    assert_eq!(t.len(), 3);
    assert_eq!(t.get("a").unwrap().as_integer(), Some(10));
    assert_eq!(t.get("b").unwrap().as_integer(), Some(1));
    assert_eq!(t.get("c").unwrap().as_integer(), Some(30));
    t.backfill(table("a = 100\nb = 200\nc = 300\n"));
    assert_eq!(t.len(), 3);
    assert_eq!(t.get("a").unwrap().as_integer(), Some(10));
}

#[test]
fn backfill_descends_into_tables_that_both_have() {
    let mut t = table("x = 1\n[a]\nkept = \"loaded\"\n[a.deep]\nown = 1\n[c]\nflat = true\n");
    t.backfill(table(
        "x = [1]\nc = 5\n[a]\nkept = \"default\"\nadded = \"default\"\n[a.deep]\nown = 2\nmore = 3\n[a.new]\nz = 0\n[b]\nwhole = 1\n",
    ));
    assert_eq!(t.len(), 4);
    assert_eq!(t.get("x").unwrap().as_integer(), Some(1));
    let a = t.get("a").unwrap().as_table().unwrap();
    assert_eq!(a.len(), 4);
    assert_eq!(a.get("kept").unwrap().as_str(), Some("loaded"));
    assert_eq!(a.get("added").unwrap().as_str(), Some("default"));
    let deep = a.get("deep").unwrap().as_table().unwrap();
    assert_eq!(deep.get("own").unwrap().as_integer(), Some(1));
    assert_eq!(deep.get("more").unwrap().as_integer(), Some(3));
    assert_eq!(a.get("new").unwrap().as_table().unwrap().len(), 1);
    assert_eq!(t.get("b").unwrap().as_table().unwrap().len(), 1);
    // a table that is loaded stays a table where the default is none
    assert_eq!(t.get("c").unwrap().as_table().unwrap().len(), 1);
}

#[test]
fn documents_are_read_and_written() {
    let t = table("title = \"x\"\nratio = 0.25\nwhen = 1979-05-27\nlist = [1, 2]\n[sub]\nflag = false\n");
    assert_eq!(t.get("title").unwrap().literal(), "\"x\"");
    assert_eq!(t.get("ratio").unwrap().as_scalar().unwrap().text(), "0.25");
    assert!(t.get("when").unwrap().as_scalar().is_some());
    assert!(t.get("title").unwrap().as_scalar().is_none());
    assert_eq!(t.get("list").unwrap().as_list().unwrap().len(), 2);
    assert_eq!(t.get("list").unwrap().literal(), "[1, 2]");
    assert_eq!(t.get("sub").unwrap().as_table().unwrap().len(), 1);
    let (t, text) = t.render();
    let text = text.unwrap();
    let back = table(&text);
    assert_eq!(back.len(), t.len());
    assert_eq!(back.get("ratio").unwrap().literal(), "0.25");
    assert_eq!(back.get("sub").unwrap().as_table().unwrap().get("flag").unwrap().as_bool(), Some(false));
    assert!(Table::parse("= nothing").is_err());
}

#[test]
fn words_come_from_the_dictionary() {
    let (lang, text) = import_lang_profile(None).unwrap();
    assert_eq!(text.as_deref(), Some(DEFAULT_LANG));
    assert_eq!(lang.get_doctype_word("general", "tx_units").unwrap(), "Units");
    assert_eq!(lang.get_doctype_word("invoice", "invoice_nb").unwrap(), "Invoice");
    let err = lang.get_doctype_word("general", "nothing").unwrap_err();
    assert_eq!(err.to_string(), "invalid entry in lang: general:nothing");
    let err = lang.get_doctype_word("letters", "x").unwrap_err();
    assert_eq!(err.to_string(), "invalid entry in lang: letters:x");
    let (lang, text) = import_lang_profile(Some("[general]\ntx_units = \"Stück\"\n")).unwrap();
    assert!(text.is_none());
    assert_eq!(lang.get_doctype_word("general", "tx_units").unwrap(), "Stück");
    assert!(matches!(import_lang_profile(Some("[[")), Err(Errcode::TomlDecode(_))));
}

#[test]
fn dates_are_put_in_words() {
    let (lang, _) = import_lang_profile(None).unwrap();
    let date = CalendarDate { year: 2024, month: 3, day: 7 };
    assert_eq!(lang.get_date_fmt(&date).unwrap(), "7 March 2024");
    let date = CalendarDate { year: 1999, month: 12, day: 31 };
    assert_eq!(lang.get_date_fmt(&date).unwrap(), "31 December 1999");
    let date = CalendarDate { year: -44, month: 1, day: 1 };
    assert_eq!(lang.get_date_fmt(&date).unwrap(), "1 January -44");
    let date = CalendarDate { year: 2024, month: 13, day: 1 };
    assert_eq!(lang.get_date_fmt(&date).unwrap_err().to_string(), "invalid entry in lang: months");
    let poor = LangDict::new(table("months = [\"a\", 2]\n"));
    assert_eq!(poor.get_date_fmt(&CalendarDate { year: 1, month: 0, day: 1 }).unwrap(), "1 a 1");
    assert!(poor.get_date_fmt(&CalendarDate { year: 1, month: 1, day: 1 }).is_err());
    let none = LangDict::new(table("months = \"January\"\n"));
    assert!(none.get_date_fmt(&CalendarDate { year: 1, month: 1, day: 1 }).is_err());
}

#[test]
fn days_come_from_seconds_since_1970() {
    assert_eq!(CalendarDate::from_timestamp(0), Some(CalendarDate { year: 1970, month: 1, day: 1 }));
    assert_eq!(CalendarDate::from_timestamp(86_399), Some(CalendarDate { year: 1970, month: 1, day: 1 }));
    assert_eq!(CalendarDate::from_timestamp(86_400), Some(CalendarDate { year: 1970, month: 1, day: 2 }));
    assert_eq!(CalendarDate::from_timestamp(1_709_812_800), Some(CalendarDate { year: 2024, month: 3, day: 7 }));
    assert_eq!(CalendarDate::from_timestamp(-1), Some(CalendarDate { year: 1969, month: 12, day: 31 }));
    assert_eq!(CalendarDate::from_timestamp(i64::MAX), None);
}

#[test]
fn stamps_have_two_digits_each() {
    let mut out = String::new();
    CalendarDate { year: 2024, month: 3, day: 7 }.push_stamp(&mut out);
    assert_eq!(out, "070324");
    let mut out = String::new();
    CalendarDate { year: 2000, month: 12, day: 31 }.push_stamp(&mut out);
    assert_eq!(out, "311200");
    let mut out = String::new();
    CalendarDate { year: -1, month: 1, day: 1 }.push_stamp(&mut out);
    assert_eq!(out, "010199");
    let mut out = String::new();
    CalendarDate { year: 1905, month: 10, day: 9 }.push_year(&mut out);
    assert_eq!(out, "1905");
}
