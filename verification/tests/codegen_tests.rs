use docgen::codegen::{
    generate_header, generate_iban, generate_summary_for_rate, generate_summary_table,
    generate_transaction_table, sanitize, tax_snapshot, write_page_settings,
};
use docgen::config::{import_config, ConfigStore};
use docgen::decimal::{Decimal, Total, Transaction};
use docgen::lang::{import_lang_profile, LangDict};
use docgen::value::Table;

fn dec(text: &str) -> Decimal {
    Decimal::parse(text).expect("a decimal numeral")
}

fn config(text: &str) -> ConfigStore {
    ConfigStore::new(Table::parse(text).expect("a document"))
}

fn words() -> LangDict {
    import_lang_profile(None).expect("the words of a fresh installation").0
}

fn sample_lines() -> Vec<Transaction> {
    vec![
        ("Design".to_string(), dec("2"), dec("10.00")),
        ("Hosting".to_string(), dec("1"), dec("5.00")),
    ]
}

const COMPANY: &str = "[company]
name = \"ACME\"
person_name = \"Jane # Doe\"
address = \"1 Main Street\"
email = \"jane@acme.example\"
legal_status = \"SARL\"
siret_number = \"123 456\"
logo_path = \"\"
logo_writing = \"\"
";

#[test]
fn sanitize_escapes_at_signs_and_hashes() {
    assert_eq!(sanitize("a@b#c"), "a\\@b\\#c");
    assert_eq!(sanitize("plain"), "plain");
    assert_eq!(sanitize(""), "");
    assert_eq!(sanitize("@@"), "\\@\\@");
    assert_eq!(sanitize("\\@"), "\\\\@");
}

#[test]
fn page_settings_carry_the_footer() {
    let mut buffer = "before".to_string();
    write_page_settings(&mut buffer, "My footer");
    let footer = "My footer";
    let expected = format!(
        "#set page(
        paper: paper_type(),
        margin: (top: margin_top(), x: margin_x(), bottom: margin_bottom()),
        footer: [
            #text(footer_font_size())[#h(1fr) {footer} #h(1fr)]
        ])\n"
    ) + "#set text(font: font_name(), font_size())\n"
        + "#let sep_par() = 28pt\n";
    assert_eq!(buffer, format!("before{expected}"));
}

#[test]
fn header_writes_the_name_where_no_logo_is_set() {
    let cfg = config(COMPANY);
    let mut source = String::new();
    generate_header(&cfg, &mut source).unwrap();
    let writing_logo = "#text(company_name_font_size())[*ACME*]";
    let logo = "";
    let expected = format!(
        "#grid(
        columns: (1fr, auto),
        align(left)[{writing_logo}],
        align(right)[{logo}]
    )\n"
    ) + &format!(
        "#align(left)[
        {} \\ {} \\ {} \\ {} \\ SIRET: {}
    ]\n",
        "Jane \\# Doe", "1 Main Street", "jane\\@acme.example", "SARL", "123 456",
    ) + "\n";
    assert_eq!(source, expected);
}

#[test]
fn header_shows_the_logos_that_are_set() {
    let text = COMPANY
        .replace("logo_path = \"\"", "logo_path = \"logo.png\"")
        .replace("logo_writing = \"\"", "logo_writing = \"name.svg\"");
    let cfg = config(&text);
    let mut source = String::new();
    generate_header(&cfg, &mut source).unwrap();
    assert!(source.starts_with(
        "#grid(\n        columns: (1fr, auto),\n        align(left)[#image(\"name.svg\", width: logo_width())],\n        align(right)[#image(\"logo.png\", width: logo_width())]\n    )\n"
    ));
}

#[test]
fn header_needs_every_field_of_the_identity() {
    let cfg = config(&COMPANY.replace("email = \"jane@acme.example\"\n", ""));
    let mut source = "kept".to_string();
    let err = generate_header(&cfg, &mut source).unwrap_err();
    assert_eq!(err.to_string(), "invalid entry in config: company:email");
    assert_eq!(source, "kept");
    let cfg = config(&COMPANY.replace("name = \"ACME\"\n", ""));
    let err = generate_header(&cfg, &mut String::new()).unwrap_err();
    assert_eq!(err.to_string(), "invalid entry in config: company:name");
    let cfg = config(&COMPANY.replace("logo_path = \"\"", "logo_path = 3"));
    let err = generate_header(&cfg, &mut String::new()).unwrap_err();
    assert_eq!(err.to_string(), "invalid entry in config: company:logo_path");
    let err = generate_header(&config(""), &mut String::new()).unwrap_err();
    assert_eq!(err.to_string(), "invalid entry in config: company:logo_path");
}

#[test]
fn table_lists_the_lines_and_gives_their_total() {
    let lang = words();
    let mut source = String::new();
    let total = generate_transaction_table(&mut source, &sample_lines(), &lang).unwrap();
    assert_eq!(total.raw(), 2_500_000_000);
    let (word_desc, word_units, word_ppu, word_total, curr_sym) =
        ("Description", "Units", "Price per unit", "Total before tax", "EUR");
    let mut expected = format!(
        "#table(
        stroke: table_color(),
        columns: (tx_descr_width(), 1fr, 1fr, 1fr),
        [*{word_desc}*], [*{word_units}*], [*{word_ppu}*], [*{word_total}*],
    "
    );
    for (descr, units, ppu, total) in [("Design", "2", "10.00", "20.00"), ("Hosting", "1", "5.00", "5.00")] {
        expected += &format!(
            "
            \"{descr}\", \"{units}\", \"{ppu} {curr_sym}\", \"{total} {curr_sym}\",
        "
        );
    }
    expected += ")\n";
    assert_eq!(source, expected);
}

#[test]
fn table_shows_units_as_entered_and_prices_with_two_digits() {
    let lang = words();
    let mut source = String::new();
    let lines = vec![("Work".to_string(), dec("1.5"), dec("33.335")), ("Refund".to_string(), dec("-1"), dec("0.125"))];
    let total = generate_transaction_table(&mut source, &lines, &lang).unwrap();
    assert!(source.contains("\"Work\", \"1.5\", \"33.34 EUR\", \"50.00 EUR\","));
    assert!(source.contains("\"Refund\", \"-1\", \"0.13 EUR\", \"-0.13 EUR\","));
    assert_eq!(total.raw(), 15_000 * 333_350 - 10_000 * 1_250);
}

#[test]
fn table_of_no_lines_has_only_its_heading() {
    let lang = words();
    let mut source = String::new();
    let total = generate_transaction_table(&mut source, &[], &lang).unwrap();
    assert_eq!(total.raw(), 0);
    assert!(source.ends_with("[*Total before tax*],\n    )\n"));
}

#[test]
fn table_refuses_too_many_lines_and_missing_words() {
    let lang = words();
    let line = ("x".to_string(), dec("1"), dec("1"));
    let mut source = "kept".to_string();
    let err = generate_transaction_table(&mut source, &vec![line; 10_001], &lang).unwrap_err();
    assert_eq!(err.to_string(), "too many lines for one document: 10001");
    assert_eq!(source, "kept");
    let poor = LangDict::new(Table::parse("[general]\ntx_item_description = \"D\"\n").unwrap());
    let err = generate_transaction_table(&mut source, &sample_lines(), &poor).unwrap_err();
    assert_eq!(err.to_string(), "invalid entry in lang: general:tx_units");
    assert_eq!(source, "kept");
}

#[test]
fn summary_with_tax_at_twenty_percent() {
    let lang = words();
    let cfg = config("[taxes]\ntax_applicable = true\ntax_rate = 0.2\n");
    let total = Total::of_lines(&sample_lines()).unwrap();
    let mut source = String::new();
    generate_summary_table(&mut source, &total, &lang, &cfg).unwrap();
    let curr_sym = "EUR";
    let tax_fmt = format!("[*{} {}%*], [{} {curr_sym}]", "VAT", "20.00", "5.00");
    let expected = format!(
        "#table(
        stroke: table_color(),
        columns: (auto, auto),
        [*{}*], [{} {curr_sym}],
        {tax_fmt},
        [*{}*], [{} {curr_sym}],
    )",
        "Total before tax", "25.00", "Total with tax", "30.00"
    ) + "\n";
    assert_eq!(source, expected);
}

#[test]
fn summary_without_tax_repeats_the_total() {
    let lang = words();
    let cfg = config("[taxes]\ntax_applicable = false\ntax_rate = 0.2\n");
    let total = Total::of_lines(&sample_lines()).unwrap();
    let mut source = String::new();
    generate_summary_table(&mut source, &total, &lang, &cfg).unwrap();
    let curr_sym = "EUR";
    let tax_fmt = format!("[*{}*], []", "VAT not applicable");
    let expected = format!(
        "#table(
        stroke: table_color(),
        columns: (auto, auto),
        [*{}*], [{} {curr_sym}],
        {tax_fmt},
        [*{}*], [{} {curr_sym}],
    )",
        "Total before tax", "25.00", "Total with tax", "25.00"
    ) + "\n";
    assert_eq!(source, expected);
}

#[test]
fn summary_rounds_only_what_it_shows() {
    let lang = words();
    let lines = vec![("a".to_string(), dec("3"), dec("0.335"))];
    let total = Total::of_lines(&lines).unwrap();
    let rate = Some(dec("0.055"));
    let mut source = String::new();
    generate_summary_for_rate(&mut source, &total, &lang, &rate).unwrap();
    // 3 x 0.335 = 1.005, tax 0.055275, total 1.060275
    assert!(source.contains("[*Total before tax*], [1.01 EUR],"));
    assert!(source.contains("[*VAT 5.50%*], [0.06 EUR],"));
    assert!(source.contains("[*Total with tax*], [1.06 EUR],"));
}

#[test]
fn tax_snapshot_follows_the_configuration() {
    let on = config("[taxes]\ntax_applicable = true\ntax_rate = 0.2\n");
    assert_eq!(tax_snapshot(&on).unwrap().unwrap().raw(), 2_000);
    let off = config("[taxes]\ntax_applicable = false\n");
    assert!(tax_snapshot(&off).unwrap().is_none());
    let whole = config("[taxes]\ntax_applicable = true\ntax_rate = 1\n");
    assert_eq!(tax_snapshot(&whole).unwrap_err().to_string(), "invalid entry in config: taxes:tax_rate");
    let none = config("");
    assert_eq!(tax_snapshot(&none).unwrap_err().to_string(), "invalid entry in config: taxes:tax_applicable");
    let odd = config("[taxes]\ntax_applicable = true\ntax_rate = inf\n");
    assert_eq!(tax_snapshot(&odd).unwrap_err().to_string(), "invalid entry in config: taxes:tax_rate");
}

#[test]
fn iban_block_names_the_bank() {
    let lang = words();
    let cfg = config("[bank]\nname = \"Bank of Town\"\niban = \"FR76 0000\"\nbic = \"BOTFRPP\"\n");
    let mut source = String::new();
    generate_iban(&mut source, &lang, &cfg).unwrap();
    let expected = format!(
        "
        === {}

        #table(
            stroke: table_color(),
            columns: (auto, auto),
            [*{}*], [{}],
            [*IBAN*], [{}],
            [*BIC*], [{}],
        )",
        "Payment", "Bank", "Bank of Town", "FR76 0000", "BOTFRPP",
    ) + "\n";
    assert_eq!(source, expected);
    let cfg = config("[bank]\nname = \"Bank of Town\"\niban = \"FR76 0000\"\n");
    let mut source = "kept".to_string();
    let err = generate_iban(&mut source, &lang, &cfg).unwrap_err();
    assert_eq!(err.to_string(), "invalid entry in config: bank:bic");
    assert_eq!(source, "kept");
}

#[test]
fn defaults_build_every_part() {
    let (cfg, _) = import_config(None).unwrap();
    let lang = words();
    let mut source = String::new();
    generate_header(&cfg, &mut source).unwrap();
    generate_iban(&mut source, &lang, &cfg).unwrap();
    let total = generate_transaction_table(&mut source, &sample_lines(), &lang).unwrap();
    generate_summary_table(&mut source, &total, &lang, &cfg).unwrap();
    assert!(source.contains("[*My Company*]"));
    assert!(source.contains("[*VAT not applicable*], []"));
}
