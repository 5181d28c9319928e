use docgen::errors::Errcode;
use docgen::style::{
    flatten, generate_style_variables, generate_variable_for_style, get_default_invoice_style,
    get_default_style, import_style, to_typst,
};
use docgen::value::{Item, Table};

fn table(text: &str) -> Table {
    Table::parse(text).expect("a document")
}

#[test]
fn lengths_and_colors_are_written_bare() {
    assert_eq!(to_typst(&Item::Text("15pt".to_string())), "15pt");
    assert_eq!(to_typst(&Item::Text("8%".to_string())), "8%");
    assert_eq!(to_typst(&Item::Text("3fr".to_string())), "3fr");
    assert_eq!(to_typst(&Item::Text("rgb(110, 140, 180, 205)".to_string())), "rgb(110, 140, 180, 205)");
    assert_eq!(to_typst(&Item::Text("pt".to_string())), "pt");
    assert_eq!(to_typst(&Item::Text("rgb".to_string())), "rgb");
}

#[test]
fn other_values_are_written_as_literals() {
    assert_eq!(to_typst(&Item::Text("a4".to_string())), "\"a4\"");
    assert_eq!(to_typst(&Item::Text("Roboto".to_string())), "\"Roboto\"");
    assert_eq!(to_typst(&Item::Text("".to_string())), "\"\"");
    assert_eq!(to_typst(&Item::Text("say \"hi\"".to_string())), "'say \"hi\"'");
    assert_eq!(to_typst(&Item::Text("15 pts".to_string())), "\"15 pts\"");
    assert_eq!(to_typst(&Item::Text("argb(1)".to_string())), "\"argb(1)\"");
    assert_eq!(to_typst(&Item::Integer(12)), "12");
    assert_eq!(to_typst(&Item::Integer(-7)), "-7");
    assert_eq!(to_typst(&Item::Integer(i64::MIN)), "-9223372036854775808");
    assert_eq!(to_typst(&Item::Flag(true)), "true");
    assert_eq!(to_typst(&Item::Flag(false)), "false");
    let t = table("ratio = 1.5\nwhole = 2.0\nlist = [\"a\", 1]\n");
    assert_eq!(to_typst(t.get("ratio").unwrap()), "1.5");
    assert_eq!(to_typst(t.get("whole").unwrap()), "2.0");
    assert_eq!(to_typst(t.get("list").unwrap()), "[\"a\", 1]");
}

#[test]
fn integers_and_flags_read_as_the_file_format_shows_them() {
    let t = table("n = -42\nyes = true\n");
    assert_eq!(to_typst(t.get("n").unwrap()), t.get("n").unwrap().literal());
    assert_eq!(to_typst(t.get("yes").unwrap()), t.get("yes").unwrap().literal());
}

#[test]
fn the_default_style_gives_an_invoice_its_variables() {
    let style = get_default_style();
    let vars = generate_style_variables(&style, "invoice".to_string());
    let expected = "#let font_name() = \"Roboto\"\n\
#let font_size() = 15pt\n\
#let footer_font_size() = 10pt\n\
#let company_name_font_size() = 23pt\n\
#let logo_width() = 150pt\n\
#let table_color() = rgb(110, 140, 180, 205)\n\
#let tx_descr_width() = 3fr\n\
\n\
#let margin_bottom() = 2%\n\
#let margin_top() = 8%\n\
#let margin_x() = 4%\n\
#let paper_type() = \"a4\"\n";
    assert_eq!(vars, expected);
    assert_eq!(get_default_invoice_style().len(), 4);
}

#[test]
fn tables_of_other_kinds_of_document_do_not_leak() {
    let style = get_default_style();
    let vars = generate_style_variables(&style, "quotation".to_string());
    assert!(!vars.contains("table_color"));
    assert!(vars.contains("#let paper_type() = \"a4\"\n"));
    let style = table("size = \"1pt\"\n[invoice]\ncolor = \"red\"\n[quotation]\ncolor = \"blue\"\n[letter]\ncolor = \"green\"\n");
    assert_eq!(
        generate_variable_for_style(&style, "quotation"),
        "#let color() = \"blue\"\n\n#let size() = 1pt\n"
    );
    assert_eq!(generate_variable_for_style(&style, "contract"), "#let size() = 1pt\n");
}

#[test]
fn the_shared_table_counts_for_every_kind_of_document() {
    let style = table("[general]\nmargin = \"2%\"\n[general.invoice]\ndeep = 1\n[general.quotation]\ndeep = 2\n[invoice]\ncolor = \"red\"\n");
    assert_eq!(
        generate_variable_for_style(&style, "invoice"),
        "#let deep() = 1\n\n#let margin() = 2%\n\n#let color() = \"red\"\n\n"
    );
    assert_eq!(
        generate_variable_for_style(&style, "quotation"),
        "#let margin() = 2%\n#let deep() = 2\n\n\n"
    );
    let bindings = flatten(&style, "invoice");
    assert_eq!(
        bindings,
        vec![
            ("deep".to_string(), "1".to_string()),
            ("margin".to_string(), "2%".to_string()),
            ("color".to_string(), "\"red\"".to_string()),
        ]
    );
}

#[test]
fn flattening_twice_gives_the_same() {
    let text = "b = \"2pt\"\na = 1\n[invoice]\nz = true\n[general]\ny = \"x\"\n";
    let first = flatten(&table(text), "invoice");
    let second = flatten(&table(text), "invoice");
    assert_eq!(first, second);
    // the order in which a file lists its entries does not matter
    let shuffled = "[general]\ny = \"x\"\n[invoice]\nz = true\n";
    let third = flatten(&table(&format!("a = 1\nb = \"2pt\"\n{shuffled}")), "invoice");
    assert_eq!(first, third);
    assert_eq!(flatten(&Table::new(), "invoice"), Vec::<(String, String)>::new());
}

#[test]
fn a_missing_style_file_gets_the_default_style() {
    let (style, text) = import_style(None).unwrap();
    let text = text.unwrap();
    assert_eq!(style.len(), 8);
    let (again, none) = import_style(Some(&text)).unwrap();
    assert!(none.is_none());
    assert_eq!(
        generate_style_variables(&again, "invoice".to_string()),
        generate_style_variables(&style, "invoice".to_string())
    );
    assert!(matches!(import_style(Some("x = ")), Err(Errcode::TomlDecode(_))));
}
