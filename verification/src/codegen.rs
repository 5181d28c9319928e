//! The parts of a document's markup: page settings, the header with the
//! issuer's identity, the table of lines, the summary with tax, and the bank
//! details.

use vstd::prelude::*;
use vstd::string::*;
use crate::config::{decimal_setting, flag_setting, text_setting, ConfigStore};
use crate::decimal::{
    fixed2_text, line_total, lines_of, plain_text, pretax_total, price_of_line, push_fixed2,
    tax_amount, total_with_tax, Decimal, Line, Total, Transaction, MAX_LINES,
};
use crate::errors::{Errcode, ErrcodeView};
use crate::lang::{word_of, LangDict};
use crate::value::Node;

verus! {

pub const PAGE_OPEN: &'static str =
    "#set page(\n        paper: paper_type(),\n        margin: (top: margin_top(), x: margin_x(), bottom: margin_bottom()),\n        footer: [\n            #text(footer_font_size())[#h(1fr) ";

pub const PAGE_CLOSE: &'static str = " #h(1fr)]\n        ])\n";

pub const TEXT_SETTINGS: &'static str = "#set text(font: font_name(), font_size())\n";

pub const PARAGRAPH_GAP: &'static str = "#let sep_par() = 28pt\n";

pub const IMAGE_OPEN: &'static str = "#image(\"";

pub const IMAGE_CLOSE: &'static str = "\", width: logo_width())";

pub const NAME_OPEN: &'static str = "#text(company_name_font_size())[*";

pub const NAME_CLOSE: &'static str = "*]";

pub const GRID_OPEN: &'static str = "#grid(\n        columns: (1fr, auto),\n        align(left)[";

pub const GRID_MIDDLE: &'static str = "],\n        align(right)[";

pub const GRID_CLOSE: &'static str = "]\n    )\n";

pub const IDENTITY_OPEN: &'static str = "#align(left)[\n        ";

pub const IDENTITY_BREAK: &'static str = " \\ ";

pub const IDENTITY_NUMBER: &'static str = " \\ SIRET: ";

pub const IDENTITY_CLOSE: &'static str = "\n    ]\n";

pub const TABLE_OPEN: &'static str =
    "#table(\n        stroke: table_color(),\n        columns: (tx_descr_width(), 1fr, 1fr, 1fr),\n        [*";

pub const HEAD_BREAK: &'static str = "*], [*";

pub const HEAD_CLOSE: &'static str = "*],\n    ";

pub const ROW_OPEN: &'static str = "\n            \"";

pub const ROW_BREAK: &'static str = "\", \"";

pub const ROW_CLOSE: &'static str = "\",\n        ";

pub const TABLE_CLOSE: &'static str = ")\n";

pub const SUMMARY_OPEN: &'static str =
    "#table(\n        stroke: table_color(),\n        columns: (auto, auto),\n        [*";

pub const CELL_BREAK: &'static str = "*], [";

pub const SUMMARY_ROW: &'static str = "],\n        ";

pub const SUMMARY_NEXT: &'static str = ",\n        [*";

pub const SUMMARY_CLOSE: &'static str = "],\n    )";

pub const TAX_CLOSE: &'static str = "%*], [";

pub const NO_TAX_CLOSE: &'static str = "*], []";

pub const IBAN_OPEN: &'static str = "\n        === ";

pub const IBAN_TABLE: &'static str =
    "\n\n        #table(\n            stroke: table_color(),\n            columns: (auto, auto),\n            [*";

pub const IBAN_NUMBER: &'static str = "],\n            [*IBAN*], [";

pub const IBAN_CODE: &'static str = "],\n            [*BIC*], [";

pub const IBAN_CLOSE: &'static str = "],\n        )";

pub const PARAGRAPH_BREAK: &'static str = "#v(sep_par())\n";

pub const META_OPEN: &'static str =
    "#grid(\n            columns: (1fr, 1fr),\n            column-gutter: 10%,\n            align(left)[\n                #text(17pt)[";

pub const META_INTRO: &'static str = "] \\\n                ";

pub const META_BREAK: &'static str = " \\ ";

pub const META_RIGHT: &'static str =
    " \\\n            ],\n            align(right)[\n                ";

pub const META_NUMBER: &'static str = " \\#*";

pub const META_ROW: &'static str = "* \\\n                ";

pub const META_STRONG: &'static str = " *";

pub const META_CLOSE: &'static str = "\n            ],\n        )";

/// What stands for one character in markup: `@` and `#` get a backslash in
/// front of them.
pub open spec fn escape_char(c: char) -> Seq<char> {
    if c == '@' {
        seq!['\\', '@']
    } else if c == '#' {
        seq!['\\', '#']
    } else {
        seq![c]
    }
}

/// `s` with every `@` and `#` escaped.
pub open spec fn escaped(s: Seq<char>) -> Seq<char>
    decreases s.len(),
{
    if s.len() == 0 {
        Seq::empty()
    } else {
        escaped(s.drop_last()) + escape_char(s.last())
    }
}

/// The page settings of a document with the footer `footer`.
pub open spec fn page_settings(footer: Seq<char>) -> Seq<char> {
    PAGE_OPEN@ + footer + PAGE_CLOSE@ + TEXT_SETTINGS@ + PARAGRAPH_GAP@
}

/// The markup that shows the image at `path`.
pub open spec fn image_markup(path: Seq<char>) -> Seq<char> {
    IMAGE_OPEN@ + path + IMAGE_CLOSE@
}

/// The text under `key` of the company's identity.
pub open spec fn company(cfg: Seq<(Seq<char>, Node)>, key: Seq<char>) -> Result<
    Seq<char>,
    ErrcodeView,
> {
    text_setting(cfg, "config"@, "company"@, key)
}

/// The left side of the header: the image of the company's name where one
/// is set, else the name written out.
pub open spec fn header_title(cfg: Seq<(Seq<char>, Node)>) -> Result<
    Seq<char>,
    ErrcodeView,
> {
    match company(cfg, "logo_writing"@) {
        Err(e) => Err(e),
        Ok(path) => if path.len() == 0 {
            match company(cfg, "name"@) {
                Err(e) => Err(e),
                Ok(name) => Ok(NAME_OPEN@ + name + NAME_CLOSE@),
            }
        } else {
            Ok(image_markup(path))
        },
    }
}

/// The right side of the header: the logo where one is set, else nothing.
pub open spec fn header_logo(cfg: Seq<(Seq<char>, Node)>) -> Result<
    Seq<char>,
    ErrcodeView,
> {
    match company(cfg, "logo_path"@) {
        Err(e) => Err(e),
        Ok(path) => if path.len() == 0 {
            Ok(Seq::empty())
        } else {
            Ok(image_markup(path))
        },
    }
}

/// The lines below the header that identify the issuer, escaped.
pub open spec fn identity_block(cfg: Seq<(Seq<char>, Node)>) -> Result<
    Seq<char>,
    ErrcodeView,
> {
    let person = company(cfg, "person_name"@);
    let address = company(cfg, "address"@);
    let email = company(cfg, "email"@);
    let status = company(cfg, "legal_status"@);
    let number = company(cfg, "siret_number"@);
    if person is Err {
        Err(person->Err_0)
    } else if address is Err {
        Err(address->Err_0)
    } else if email is Err {
        Err(email->Err_0)
    } else if status is Err {
        Err(status->Err_0)
    } else if number is Err {
        Err(number->Err_0)
    } else {
        Ok(
            IDENTITY_OPEN@ + escaped(person->Ok_0) + IDENTITY_BREAK@ + escaped(address->Ok_0)
                + IDENTITY_BREAK@ + escaped(email->Ok_0) + IDENTITY_BREAK@ + escaped(
                status->Ok_0,
            ) + IDENTITY_NUMBER@ + escaped(number->Ok_0) + IDENTITY_CLOSE@,
        )
    }
}

/// The header of a document: logos or name, then the issuer's identity. The
/// first setting that is missing, in the order logo, name, identity, is the
/// error.
pub open spec fn header_markup(cfg: Seq<(Seq<char>, Node)>) -> Result<
    Seq<char>,
    ErrcodeView,
> {
    let logo = header_logo(cfg);
    let title = header_title(cfg);
    let identity = identity_block(cfg);
    if logo is Err {
        Err(logo->Err_0)
    } else if title is Err {
        Err(title->Err_0)
    } else if identity is Err {
        Err(identity->Err_0)
    } else {
        Ok(
            GRID_OPEN@ + title->Ok_0 + GRID_MIDDLE@ + logo->Ok_0 + GRID_CLOSE@ + identity->Ok_0
                + "\n"@,
        )
    }
}

/// Whether `r` reports what `expected` asks for, and `after` is `before`
/// with the expected text at its end, or `before` itself after an error.
pub open spec fn appended(
    r: Result<(), Errcode>,
    before: Seq<char>,
    after: Seq<char>,
    expected: Result<Seq<char>, ErrcodeView>,
) -> bool {
    match expected {
        Ok(text) => r is Ok && after == before + text,
        Err(e) => r matches Err(x) && x@ == e && after == before,
    }
}

/// The word `word` of the topic that all documents share.
pub open spec fn general(lang: Seq<(Seq<char>, Node)>, word: Seq<char>) -> Result<
    Seq<char>,
    ErrcodeView,
> {
    word_of(lang, "general"@, word)
}

/// The row of the table that shows `line`: description, units, the price
/// of one unit and the price of the line, the two prices with two digits
/// after the point and the currency `currency`.
pub open spec fn row_markup(line: Line, currency: Seq<char>) -> Seq<char> {
    ROW_OPEN@ + line.0 + ROW_BREAK@ + plain_text(line.1) + ROW_BREAK@ + fixed2_text(line.2, 100)
        + " "@ + currency + ROW_BREAK@ + fixed2_text(line_total(line), 1_000_000) + " "@
        + currency + ROW_CLOSE@
}

/// The rows of `lines`, one after the other.
pub open spec fn rows_markup(lines: Seq<Line>, currency: Seq<char>) -> Seq<char>
    decreases lines.len(),
{
    if lines.len() == 0 {
        Seq::empty()
    } else {
        rows_markup(lines.drop_last(), currency) + row_markup(lines.last(), currency)
    }
}

/// The table of the lines of a document: a heading, then one row for each
/// line. More lines than a document holds are an error, and so is the
/// first word that the dictionary lacks.
pub open spec fn transaction_table(lines: Seq<Line>, lang: Seq<(Seq<char>, Node)>) -> Result<
    Seq<char>,
    ErrcodeView,
> {
    let description = general(lang, "tx_item_description"@);
    let units = general(lang, "tx_units"@);
    let price = general(lang, "tx_price_per_unit"@);
    let total = general(lang, "total_price_no_tax"@);
    let currency = general(lang, "currency_symbol"@);
    if lines.len() > MAX_LINES {
        Err(ErrcodeView::TooManyTransactions(lines.len() as usize))
    } else if description is Err {
        Err(description->Err_0)
    } else if units is Err {
        Err(units->Err_0)
    } else if price is Err {
        Err(price->Err_0)
    } else if total is Err {
        Err(total->Err_0)
    } else if currency is Err {
        Err(currency->Err_0)
    } else {
        Ok(
            TABLE_OPEN@ + description->Ok_0 + HEAD_BREAK@ + units->Ok_0 + HEAD_BREAK@
                + price->Ok_0 + HEAD_BREAK@ + total->Ok_0 + HEAD_CLOSE@ + rows_markup(
                lines,
                currency->Ok_0,
            ) + TABLE_CLOSE@,
        )
    }
}

/// The tax rate that the configuration asks for, in ten-thousandths: none
/// where no tax applies.
pub open spec fn tax_rule(cfg: Seq<(Seq<char>, Node)>) -> Result<Option<int>, ErrcodeView> {
    match flag_setting(cfg, "config"@, "taxes"@, "tax_applicable"@) {
        Err(e) => Err(e),
        Ok(applies) => if applies {
            match decimal_setting(cfg, "config"@, "taxes"@, "tax_rate"@) {
                Err(e) => Err(e),
                Ok(rate) => Ok(Some(rate)),
            }
        } else {
            Ok(None)
        },
    }
}

/// The row of the summary that shows the tax: its name, the rate in
/// percent and the amount, or the remark that no tax applies.
pub open spec fn tax_row(
    total: int,
    lang: Seq<(Seq<char>, Node)>,
    rate: Option<int>,
    currency: Seq<char>,
) -> Result<Seq<char>, ErrcodeView> {
    match rate {
        Some(rate) => match general(lang, "tax_name"@) {
            Err(e) => Err(e),
            Ok(name) => Ok(
                name + " "@ + fixed2_text(rate * 100, 100) + TAX_CLOSE@ + fixed2_text(
                    tax_amount(total, rate),
                    10_000_000_000,
                ) + " "@ + currency + "]"@,
            ),
        },
        None => match general(lang, "tax_not_applicable"@) {
            Err(e) => Err(e),
            Ok(remark) => Ok(remark + NO_TAX_CLOSE@),
        },
    }
}

/// The total to pay, with two digits after the point: the total before
/// tax with the tax at `rate` on top.
pub open spec fn amount_due(total: int, rate: Option<int>) -> Seq<char> {
    match rate {
        Some(rate) => fixed2_text(total_with_tax(total, rate), 10_000_000_000),
        None => fixed2_text(total, 1_000_000),
    }
}

/// The first row of the summary: the total before tax.
pub open spec fn summary_first_row(word: Seq<char>, total: int, currency: Seq<char>) -> Seq<char> {
    SUMMARY_OPEN@ + word + CELL_BREAK@ + fixed2_text(total, 1_000_000) + " "@ + currency
        + SUMMARY_ROW@
}

/// The last row of the summary: the total to pay.
pub open spec fn summary_last_row(word: Seq<char>, due: Seq<char>, currency: Seq<char>) -> Seq<
    char,
> {
    word + CELL_BREAK@ + due + " "@ + currency + SUMMARY_CLOSE@ + "\n"@
}

/// The summary of a document: the total before tax, the tax at `rate`, and
/// the total to pay, each rounded to two digits after the point only where
/// it is shown.
pub open spec fn summary_markup(total: int, lang: Seq<(Seq<char>, Node)>, rate: Option<int>)
    -> Result<Seq<char>, ErrcodeView> {
    let currency = general(lang, "currency_symbol"@);
    let before_tax = general(lang, "total_price_no_tax"@);
    let after_tax = general(lang, "total_price_with_tax"@);
    if currency is Err {
        Err(currency->Err_0)
    } else {
        let tax = tax_row(total, lang, rate, currency->Ok_0);
        if tax is Err {
            Err(tax->Err_0)
        } else if before_tax is Err {
            Err(before_tax->Err_0)
        } else if after_tax is Err {
            Err(after_tax->Err_0)
        } else {
            Ok(
                summary_first_row(before_tax->Ok_0, total, currency->Ok_0) + "[*"@ + tax->Ok_0
                    + SUMMARY_NEXT@ + summary_last_row(
                    after_tax->Ok_0,
                    amount_due(total, rate),
                    currency->Ok_0,
                ),
            )
        }
    }
}

/// The summary of a document whose tax is what the configuration asks for.
pub open spec fn summary_table(
    total: int,
    lang: Seq<(Seq<char>, Node)>,
    cfg: Seq<(Seq<char>, Node)>,
) -> Result<Seq<char>, ErrcodeView> {
    match tax_rule(cfg) {
        Err(e) => Err(e),
        Ok(rate) => summary_markup(total, lang, rate),
    }
}

/// The block that tells where to pay: the bank, its account number and
/// its code.
pub open spec fn iban_markup(lang: Seq<(Seq<char>, Node)>, cfg: Seq<(Seq<char>, Node)>) -> Result<
    Seq<char>,
    ErrcodeView,
> {
    let title = general(lang, "iban_title"@);
    let bank = general(lang, "iban_bank"@);
    let name = text_setting(cfg, "config"@, "bank"@, "name"@);
    let iban = text_setting(cfg, "config"@, "bank"@, "iban"@);
    let bic = text_setting(cfg, "config"@, "bank"@, "bic"@);
    if title is Err {
        Err(title->Err_0)
    } else if bank is Err {
        Err(bank->Err_0)
    } else if name is Err {
        Err(name->Err_0)
    } else if iban is Err {
        Err(iban->Err_0)
    } else if bic is Err {
        Err(bic->Err_0)
    } else {
        Ok(
            IBAN_OPEN@ + title->Ok_0 + IBAN_TABLE@ + bank->Ok_0 + CELL_BREAK@ + name->Ok_0
                + IBAN_NUMBER@ + iban->Ok_0 + IBAN_CODE@ + bic->Ok_0 + IBAN_CLOSE@ + "\n"@,
        )
    }
}

/// The left half of the block below the header: whom the document is for.
pub open spec fn recipient_block(intro: Seq<char>, name: Seq<char>, address: Seq<char>) -> Seq<
    char,
> {
    META_OPEN@ + intro + META_INTRO@ + name + META_BREAK@ + address + META_RIGHT@
}

/// The bank details of a document of the kind `kind`, where the
/// configuration asks for them, and else nothing.
pub open spec fn bank_block(
    lang: Seq<(Seq<char>, Node)>,
    cfg: Seq<(Seq<char>, Node)>,
    kind: Seq<char>,
) -> Result<Seq<char>, ErrcodeView> {
    match flag_setting(cfg, "config"@, kind, "add_iban"@) {
        Err(e) => Err(e),
        Ok(wanted) => if wanted {
            iban_markup(lang, cfg)
        } else {
            Ok(Seq::empty())
        },
    }
}

/// `data` with every `@` and `#` escaped, so that markup takes them as text.
pub fn sanitize(data: &str) -> (r: String)
    ensures
        r@ == escaped(data@),
{
    let mut out = String::new();
    for c in it: data.chars()
        invariant
            it.seq() == data@,
            out@ == escaped(data@.take(it.index() as int)),
    {
        proof {
            assert(data@.take(it.index() + 1).drop_last() =~= data@.take(it.index() as int));
        }
        if c == '@' {
            out.push('\\');
            out.push('@');
        } else if c == '#' {
            out.push('\\');
            out.push('#');
        } else {
            out.push(c);
        }
    }
    proof {
        assert(data@.take(data@.len() as int) =~= data@);
    }
    out
}

/// Appends the page settings of a document to `buffer`: paper, margins,
/// the footer `footer`, the font and the gap between paragraphs.
pub fn write_page_settings(buffer: &mut String, footer: &str)
    ensures
        final(buffer)@ == old(buffer)@ + page_settings(footer@),
{
    buffer.append(PAGE_OPEN);
    buffer.append(footer);
    buffer.append(PAGE_CLOSE);
    buffer.append(TEXT_SETTINGS);
    buffer.append(PARAGRAPH_GAP);
    assert(buffer@ =~= old(buffer)@ + page_settings(footer@));
}

/// The markup that shows the image at `path`.
fn image(path: &str) -> (r: String)
    ensures
        r@ == image_markup(path@),
{
    let mut out = String::new();
    out.append(IMAGE_OPEN);
    out.append(path);
    out.append(IMAGE_CLOSE);
    assert(out@ =~= image_markup(path@));
    out
}

/// The right side of the header.
fn logo_of(cfg: &ConfigStore) -> (r: Result<String, Errcode>)
    ensures
        crate::config::string_result(r, header_logo(cfg@)),
{
    let path = cfg.get_company("logo_path")?;
    if path.as_str().unicode_len() == 0 {
        Ok(String::new())
    } else {
        Ok(image(path.as_str()))
    }
}

/// The left side of the header.
fn title_of(cfg: &ConfigStore) -> (r: Result<String, Errcode>)
    ensures
        crate::config::string_result(r, header_title(cfg@)),
{
    let path = cfg.get_company("logo_writing")?;
    if path.as_str().unicode_len() == 0 {
        let name = cfg.get_company("name")?;
        let mut out = String::new();
        out.append(NAME_OPEN);
        out.append(name.as_str());
        out.append(NAME_CLOSE);
        assert(out@ =~= NAME_OPEN@ + name@ + NAME_CLOSE@);
        Ok(out)
    } else {
        Ok(image(path.as_str()))
    }
}

/// The lines that identify the issuer.
fn identity_of(cfg: &ConfigStore) -> (r: Result<String, Errcode>)
    ensures
        crate::config::string_result(r, identity_block(cfg@)),
{
    let person = cfg.get_company("person_name")?;
    let address = cfg.get_company("address")?;
    let email = cfg.get_company("email")?;
    let status = cfg.get_company("legal_status")?;
    let number = cfg.get_company("siret_number")?;
    let mut out = String::new();
    out.append(IDENTITY_OPEN);
    out.append(sanitize(person.as_str()).as_str());
    out.append(IDENTITY_BREAK);
    out.append(sanitize(address.as_str()).as_str());
    out.append(IDENTITY_BREAK);
    out.append(sanitize(email.as_str()).as_str());
    out.append(IDENTITY_BREAK);
    out.append(sanitize(status.as_str()).as_str());
    out.append(IDENTITY_NUMBER);
    out.append(sanitize(number.as_str()).as_str());
    out.append(IDENTITY_CLOSE);
    assert(out@ =~= identity_block(cfg@)->Ok_0);
    Ok(out)
}

/// Appends the header of a document to `source`: the company's name or
/// its image on the left, its logo on the right, and below them who issues
/// the document. Nothing is appended where a setting is missing.
pub fn generate_header(cfg: &ConfigStore, source: &mut String) -> (r: Result<(), Errcode>)
    ensures
        appended(r, old(source)@, final(source)@, header_markup(cfg@)),
{
    let logo = logo_of(cfg)?;
    let title = title_of(cfg)?;
    let identity = identity_of(cfg)?;
    source.append(GRID_OPEN);
    source.append(title.as_str());
    source.append(GRID_MIDDLE);
    source.append(logo.as_str());
    source.append(GRID_CLOSE);
    source.append(identity.as_str());
    source.append("\n");
    assert(source@ =~= old(source)@ + header_markup(cfg@)->Ok_0);
    Ok(())
}

/// Appends the row of `line` to `buffer`.
fn write_row(buffer: &mut String, line: &Transaction, currency: &str)
    ensures
        final(buffer)@ == old(buffer)@ + row_markup((line.0@, line.1@, line.2@), currency@),
{
    let total = price_of_line(line);
    buffer.append(ROW_OPEN);
    buffer.append(line.0.as_str());
    buffer.append(ROW_BREAK);
    line.1.push_plain(buffer);
    buffer.append(ROW_BREAK);
    push_fixed2(buffer, line.2.raw() as i128, 100);
    buffer.append(" ");
    buffer.append(currency);
    buffer.append(ROW_BREAK);
    push_fixed2(buffer, total, 1_000_000);
    buffer.append(" ");
    buffer.append(currency);
    buffer.append(ROW_CLOSE);
    assert(buffer@ =~= old(buffer)@ + row_markup((line.0@, line.1@, line.2@), currency@));
}

/// Appends the table of the lines `tx` to `source` and gives their total
/// before tax. The price of a line is its units times the price of one;
/// the total is the sum of the prices of the lines, nothing rounded.
/// Nothing is appended where the lines are too many or a word is missing.
pub fn generate_transaction_table(source: &mut String, tx: &[Transaction], lang: &LangDict) -> (r:
    Result<Total, Errcode>)
    ensures
        match transaction_table(lines_of(tx@), lang@) {
            Ok(text) => r matches Ok(total) && total@ == pretax_total(lines_of(tx@))
                && final(source)@ == old(source)@ + text,
            Err(e) => r matches Err(x) && x@ == e && final(source)@ == old(source)@,
        },
{
    let total = match Total::of_lines(tx) {
        Some(total) => total,
        None => {
            return Err(Errcode::TooManyTransactions(tx.len()));
        },
    };
    let description = lang.get_doctype_word("general", "tx_item_description")?;
    let units = lang.get_doctype_word("general", "tx_units")?;
    let price = lang.get_doctype_word("general", "tx_price_per_unit")?;
    let total_word = lang.get_doctype_word("general", "total_price_no_tax")?;
    let currency = lang.get_doctype_word("general", "currency_symbol")?;
    source.append(TABLE_OPEN);
    source.append(description.as_str());
    source.append(HEAD_BREAK);
    source.append(units.as_str());
    source.append(HEAD_BREAK);
    source.append(price.as_str());
    source.append(HEAD_BREAK);
    source.append(total_word.as_str());
    source.append(HEAD_CLOSE);
    let ghost head = source@;
    let ghost lines = lines_of(tx@);
    let mut i: usize = 0;
    while i < tx.len()
        invariant
            i <= tx@.len(),
            lines == lines_of(tx@),
            source@ == head + rows_markup(lines.take(i as int), currency@),
        decreases tx.len() - i,
    {
        proof {
            assert(lines.take(i + 1).drop_last() =~= lines.take(i as int));
            assert(lines.take(i + 1).last() == lines[i as int]);
        }
        write_row(source, &tx[i], currency.as_str());
        i = i + 1;
    }
    source.append(TABLE_CLOSE);
    proof {
        assert(lines.take(tx@.len() as int) =~= lines);
        assert(source@ =~= old(source)@ + transaction_table(lines, lang@)->Ok_0);
    }
    Ok(total)
}

/// The tax rate that the configuration asks for: none where no tax
/// applies.
pub fn tax_snapshot(cfg: &ConfigStore) -> (r: Result<Option<Decimal>, Errcode>)
    ensures
        match tax_rule(cfg@) {
            Ok(rate) => r matches Ok(found) && match rate {
                Some(raw) => found matches Some(d) && d@ == raw,
                None => found is None,
            },
            Err(e) => r matches Err(x) && x@ == e,
        },
{
    if cfg.get_bool("taxes", "tax_applicable")? {
        Ok(Some(cfg.get_float("taxes", "tax_rate")?))
    } else {
        Ok(None)
    }
}

/// The row of the summary that shows the tax.
fn tax_row_of(total: &Total, lang: &LangDict, rate: &Option<Decimal>, currency: &str) -> (r:
    Result<String, Errcode>)
    ensures
        crate::config::string_result(
            r,
            tax_row(
                total@,
                lang@,
                match rate {
                    Some(d) => Some(d@),
                    None => None,
                },
                currency@,
            ),
        ),
{
    let mut out = String::new();
    match rate {
        Some(rate) => {
            let name = lang.get_doctype_word("general", "tax_name")?;
            out.append(name.as_str());
            out.append(" ");
            push_fixed2(&mut out, rate.raw() as i128 * 100, 100);
            out.append(TAX_CLOSE);
            push_fixed2(&mut out, total.tax(rate), 10_000_000_000);
            out.append(" ");
            out.append(currency);
            out.append("]");
            assert(out@ =~= tax_row(total@, lang@, Some(rate@), currency@)->Ok_0);
        },
        None => {
            let remark = lang.get_doctype_word("general", "tax_not_applicable")?;
            out.append(remark.as_str());
            out.append(NO_TAX_CLOSE);
            assert(out@ =~= tax_row(total@, lang@, None, currency@)->Ok_0);
        },
    }
    Ok(out)
}

/// Appends the summary of a document to `source`: the total before tax,
/// the tax at `rate` or the remark that none applies, and the total to
/// pay. Nothing is appended where a word is missing.
pub fn generate_summary_for_rate(
    source: &mut String,
    total_price: &Total,
    lang: &LangDict,
    rate: &Option<Decimal>,
) -> (r: Result<(), Errcode>)
    ensures
        appended(
            r,
            old(source)@,
            final(source)@,
            summary_markup(
                total_price@,
                lang@,
                match rate {
                    Some(d) => Some(d@),
                    None => None,
                },
            ),
        ),
{
    let currency = lang.get_doctype_word("general", "currency_symbol")?;
    let tax = tax_row_of(total_price, lang, rate, currency.as_str())?;
    let before_tax = lang.get_doctype_word("general", "total_price_no_tax")?;
    let after_tax = lang.get_doctype_word("general", "total_price_with_tax")?;
    let ghost rate_view = match rate {
        Some(d) => Some(d@),
        None => None,
    };
    let mut first = String::new();
    first.append(SUMMARY_OPEN);
    first.append(before_tax.as_str());
    first.append(CELL_BREAK);
    push_fixed2(&mut first, total_price.raw(), 1_000_000);
    first.append(" ");
    first.append(currency.as_str());
    first.append(SUMMARY_ROW);
    assert(first@ =~= summary_first_row(before_tax@, total_price@, currency@));
    let mut due = String::new();
    match rate {
        Some(rate) => {
            push_fixed2(&mut due, total_price.with_tax(rate), 10_000_000_000);
        },
        None => {
            push_fixed2(&mut due, total_price.raw(), 1_000_000);
        },
    }
    assert(due@ =~= amount_due(total_price@, rate_view));
    let mut last = String::new();
    last.append(after_tax.as_str());
    last.append(CELL_BREAK);
    last.append(due.as_str());
    last.append(" ");
    last.append(currency.as_str());
    last.append(SUMMARY_CLOSE);
    last.append("\n");
    assert(last@ =~= summary_last_row(after_tax@, due@, currency@));
    source.append(first.as_str());
    source.append("[*");
    source.append(tax.as_str());
    source.append(SUMMARY_NEXT);
    source.append(last.as_str());
    assert(source@ =~= old(source)@ + (first@ + "[*"@ + tax@ + SUMMARY_NEXT@ + last@));
    Ok(())
}

/// Appends the summary of a document to `source`, with the tax that the
/// configuration asks for. Nothing is appended where a setting or a word
/// is missing.
pub fn generate_summary_table(
    source: &mut String,
    total_price: &Total,
    lang: &LangDict,
    cfg: &ConfigStore,
) -> (r: Result<(), Errcode>)
    ensures
        appended(r, old(source)@, final(source)@, summary_table(total_price@, lang@, cfg@)),
{
    let rate = tax_snapshot(cfg)?;
    generate_summary_for_rate(source, total_price, lang, &rate)
}

/// Appends the block that tells where to pay to `source`. Nothing is
/// appended where a word or a setting is missing.
pub fn generate_iban(source: &mut String, lang: &LangDict, cfg: &ConfigStore) -> (r: Result<
    (),
    Errcode,
>)
    ensures
        appended(r, old(source)@, final(source)@, iban_markup(lang@, cfg@)),
{
    let title = lang.get_doctype_word("general", "iban_title")?;
    let bank = lang.get_doctype_word("general", "iban_bank")?;
    let name = cfg.get_str("bank", "name")?;
    let iban = cfg.get_str("bank", "iban")?;
    let bic = cfg.get_str("bank", "bic")?;
    source.append(IBAN_OPEN);
    source.append(title.as_str());
    source.append(IBAN_TABLE);
    source.append(bank.as_str());
    source.append(CELL_BREAK);
    source.append(name);
    source.append(IBAN_NUMBER);
    source.append(iban);
    source.append(IBAN_CODE);
    source.append(bic);
    source.append(IBAN_CLOSE);
    source.append("\n");
    assert(source@ =~= old(source)@ + iban_markup(lang@, cfg@)->Ok_0);
    Ok(())
}

/// The left half of the block below the header.
pub fn recipient_block_of(intro: &str, name: &str, address: &str) -> (r: String)
    ensures
        r@ == recipient_block(intro@, name@, address@),
{
    let mut out = String::new();
    out.append(META_OPEN);
    out.append(intro);
    out.append(META_INTRO);
    out.append(name);
    out.append(META_BREAK);
    out.append(address);
    out.append(META_RIGHT);
    assert(out@ =~= recipient_block(intro@, name@, address@));
    out
}

/// The header of a document.
pub fn header_of(cfg: &ConfigStore) -> (r: Result<String, Errcode>)
    ensures
        crate::config::string_result(r, header_markup(cfg@)),
{
    let mut out = String::new();
    generate_header(cfg, &mut out)?;
    assert(out@ =~= header_markup(cfg@)->Ok_0);
    Ok(out)
}

/// The table of the lines `tx` and their total before tax.
pub fn table_of(tx: &[Transaction], lang: &LangDict) -> (r: Result<(String, Total), Errcode>)
    ensures
        match transaction_table(lines_of(tx@), lang@) {
            Ok(text) => r matches Ok((out, total)) && out@ == text && total@ == pretax_total(
                lines_of(tx@),
            ),
            Err(e) => r matches Err(x) && x@ == e,
        },
{
    let mut out = String::new();
    let total = generate_transaction_table(&mut out, tx, lang)?;
    assert(out@ =~= transaction_table(lines_of(tx@), lang@)->Ok_0);
    Ok((out, total))
}

/// The summary of a document with the tax at `rate`.
pub fn summary_of(total: &Total, lang: &LangDict, rate: &Option<Decimal>) -> (r: Result<
    String,
    Errcode,
>)
    ensures
        crate::config::string_result(
            r,
            summary_markup(
                total@,
                lang@,
                match rate {
                    Some(d) => Some(d@),
                    None => None,
                },
            ),
        ),
{
    let mut out = String::new();
    generate_summary_for_rate(&mut out, total, lang, rate)?;
    let ghost rate_view = match rate {
        Some(d) => Some(d@),
        None => None,
    };
    assert(out@ =~= summary_markup(total@, lang@, rate_view)->Ok_0);
    Ok(out)
}

/// The bank details of a document of the kind `kind`, where the
/// configuration asks for them, and else nothing.
pub fn bank_block_of(lang: &LangDict, cfg: &ConfigStore, kind: &str) -> (r: Result<String, Errcode>)
    ensures
        crate::config::string_result(r, bank_block(lang@, cfg@, kind@)),
{
    let mut out = String::new();
    if cfg.get_bool(kind, "add_iban")? {
        generate_iban(&mut out, lang, cfg)?;
        assert(out@ =~= iban_markup(lang@, cfg@)->Ok_0);
    }
    Ok(out)
}

} // verus!
