//! The style cascade: a tree of style values, shared ones and ones for each
//! kind of document, is flattened into the variables that the markup of one
//! kind of document refers to.

use vstd::prelude::*;
use vstd::string::*;
use crate::date::signed_digits;
use crate::errors::{Errcode, ErrcodeView};
use crate::sorted::{ascending, lemma_with_entry_commutes, with_entry};
use crate::text::{chars_of, ends_with, has_prefix, has_suffix, push_decimal, starts_with};
use crate::value::{literal_text, parsed_document, rendered_document, Item, Node, Table};

verus! {

/// A tree of style values.
pub type Style = Table;

/// The key of the table whose values all kinds of document share.
pub const SHARED_TABLE: &'static str = "general";

/// Whether a text value is markup as it stands: a call of a function that
/// makes a color, or a length in points, percent or fractions.
pub open spec fn is_raw(s: Seq<char>) -> bool {
    has_prefix(s, "rgb"@) || has_suffix(s, "pt"@) || has_suffix(s, "%"@) || has_suffix(s, "fr"@)
}

/// What a style value is in markup. A text that is markup as it stands is
/// written bare; any other text is written as the quoted literal that the
/// file format shows for it; numbers and flags are written as they read.
pub open spec fn typst_literal(node: Node) -> Seq<char> {
    match node {
        Node::Text(s) => if is_raw(s) {
            s
        } else {
            literal_text(node)
        },
        Node::Integer(i) => signed_digits(i as int),
        Node::Flag(b) => if b {
            "true"@
        } else {
            "false"@
        },
        Node::Scalar(literal) => literal,
        _ => literal_text(node),
    }
}

/// Whether the table under `key` is flattened for the kind of document
/// `doctype`: the shared table is, and the table of that kind.
pub open spec fn descends(key: Seq<char>, doctype: Seq<char>) -> bool {
    key == SHARED_TABLE@ || key == doctype
}

/// The variables that the first `n` entries of `style` give a document of
/// the kind `doctype`, one definition to a line. A table that is flattened
/// gives its own variables and an empty line; a table of another kind of
/// document gives nothing.
pub open spec fn variables_of(style: Seq<(Seq<char>, Node)>, doctype: Seq<char>, n: nat) -> Seq<
    char,
>
    decreases style, n,
{
    if n == 0 || n > style.len() {
        Seq::empty()
    } else {
        variables_of(style, doctype, (n - 1) as nat) + match style[n - 1].1 {
            Node::Table(inner) => if descends(style[n - 1].0, doctype) {
                variables_of(inner, doctype, inner.len()) + "\n"@
            } else {
                Seq::empty()
            },
            leaf => "#let "@ + style[n - 1].0 + "() = "@ + typst_literal(leaf) + "\n"@,
        }
    }
}

/// The variables that `style` gives a document of the kind `doctype`.
pub open spec fn style_variables(style: Seq<(Seq<char>, Node)>, doctype: Seq<char>) -> Seq<char> {
    variables_of(style, doctype, style.len())
}

/// The bindings, name and literal, that the first `n` entries of `style`
/// give a document of the kind `doctype`.
pub open spec fn bindings_of(style: Seq<(Seq<char>, Node)>, doctype: Seq<char>, n: nat) -> Seq<
    (Seq<char>, Seq<char>),
>
    decreases style, n,
{
    if n == 0 || n > style.len() {
        Seq::empty()
    } else {
        bindings_of(style, doctype, (n - 1) as nat) + match style[n - 1].1 {
            Node::Table(inner) => if descends(style[n - 1].0, doctype) {
                bindings_of(inner, doctype, inner.len())
            } else {
                Seq::empty()
            },
            leaf => seq![(style[n - 1].0, typst_literal(leaf))],
        }
    }
}

/// The bindings that `style` gives a document of the kind `doctype`.
pub open spec fn style_bindings(style: Seq<(Seq<char>, Node)>, doctype: Seq<char>) -> Seq<
    (Seq<char>, Seq<char>),
> {
    bindings_of(style, doctype, style.len())
}

/// Bindings as mathematics.
pub open spec fn bindings_view(bindings: Seq<(String, String)>) -> Seq<(Seq<char>, Seq<char>)> {
    Seq::new(bindings.len(), |i: int| (bindings[i].0@, bindings[i].1@))
}

/// What a style value is in markup.
pub fn to_typst(val: &Item) -> (r: String)
    ensures
        r@ == typst_literal(val@),
{
    match val {
        Item::Text(s) => {
            let cs = chars_of(s.as_str());
            let raw = starts_with(&cs, &chars_of("rgb")) || ends_with(&cs, &chars_of("pt"))
                || ends_with(&cs, &chars_of("%")) || ends_with(&cs, &chars_of("fr"));
            if raw {
                s.clone()
            } else {
                val.literal()
            }
        },
        Item::Integer(i) => {
            let mut out = String::new();
            let n = *i as i128;
            if n < 0 {
                out.push('-');
                push_decimal(&mut out, (-n) as u128);
            } else {
                push_decimal(&mut out, n as u128);
            }
            assert(out@ =~= signed_digits(*i as int));
            out
        },
        Item::Flag(b) => {
            if *b {
                "true".to_owned()
            } else {
                "false".to_owned()
            }
        },
        Item::Scalar(s) => s.text(),
        _ => val.literal(),
    }
}

/// The variables that `style` gives a document of the kind `doctype`, one
/// definition to a line.
pub fn generate_variable_for_style(style: &Style, doctype: &str) -> (r: String)
    ensures
        r@ == style_variables(style@, doctype@),
    decreases style@,
{
    let mut res = String::new();
    let n = style.len();
    let mut i: usize = 0;
    while i < n
        invariant
            i <= n,
            n == style@.len(),
            res@ == variables_of(style@, doctype@, i as nat),
        decreases n - i,
    {
        let key = style.key_at(i);
        let val = style.item_at(i);
        match val.as_table() {
            Some(inner) => {
                if *key == *SHARED_TABLE || *key == *doctype {
                    proof {
                        assert(decreases_to!(style@ => style@[i as int]));
                        assert(decreases_to!(style@[i as int] => style@[i as int].1));
                        assert(style@[i as int].1 == Node::Table(inner@));
                        assert(decreases_to!(style@[i as int].1 => style@[i as int].1->Table_0));
                    }
                    let part = generate_variable_for_style(inner, doctype);
                    res.append(part.as_str());
                    res.append("\n");
                }
            },
            None => {
                let literal = to_typst(val);
                res.append("#let ");
                res.append(key);
                res.append("() = ");
                res.append(literal.as_str());
                res.append("\n");
            },
        }
        proof {
            assert(res@ =~= variables_of(style@, doctype@, (i + 1) as nat));
        }
        i = i + 1;
    }
    res
}

/// The bindings, name and literal, that `style` gives a document of the
/// kind `doctype`: every value outside tables, and every value of the
/// shared table and of the table of that kind, at any depth. The values of
/// the tables of other kinds of document are left out.
pub fn flatten(style: &Style, doctype: &str) -> (r: Vec<(String, String)>)
    ensures
        bindings_view(r@) == style_bindings(style@, doctype@),
    decreases style@,
{
    let mut res: Vec<(String, String)> = Vec::new();
    let n = style.len();
    let mut i: usize = 0;
    proof {
        assert(bindings_view(res@) =~= bindings_of(style@, doctype@, 0));
    }
    while i < n
        invariant
            i <= n,
            n == style@.len(),
            bindings_view(res@) == bindings_of(style@, doctype@, i as nat),
        decreases n - i,
    {
        let key = style.key_at(i);
        let val = style.item_at(i);
        let ghost before = res@;
        match val.as_table() {
            Some(inner) => {
                if *key == *SHARED_TABLE || *key == *doctype {
                    proof {
                        assert(decreases_to!(style@ => style@[i as int]));
                        assert(decreases_to!(style@[i as int] => style@[i as int].1));
                        assert(style@[i as int].1 == Node::Table(inner@));
                        assert(decreases_to!(style@[i as int].1 => style@[i as int].1->Table_0));
                    }
                    let mut part = flatten(inner, doctype);
                    let ghost added = part@;
                    res.append(&mut part);
                    proof {
                        assert(bindings_view(res@) =~= bindings_view(before) + bindings_view(
                            added,
                        ));
                    }
                }
            },
            None => {
                let literal = to_typst(val);
                res.push((key.to_owned(), literal));
                proof {
                    assert(bindings_view(res@) =~= bindings_view(before) + seq![
                        (key@, typst_literal(val@)),
                    ]);
                }
            },
        }
        proof {
            assert(bindings_view(res@) =~= bindings_of(style@, doctype@, (i + 1) as nat));
        }
        i = i + 1;
    }
    res
}

/// The variables that `style` gives a document of the kind `doctype`.
pub fn generate_style_variables(style: &Style, doctype: String) -> (r: String)
    ensures
        r@ == style_variables(style@, doctype@),
{
    generate_variable_for_style(style, doctype.as_str())
}

/// The style of invoices that a fresh installation starts with.
pub open spec fn default_invoice_style() -> Seq<(Seq<char>, Node)> {
    with_entry(
        with_entry(
            with_entry(
                with_entry(
                    Seq::empty(),
                    "company_name_font_size"@,
                    Node::Text("23pt"@),
                ),
                "table_color"@,
                Node::Text("rgb(110, 140, 180, 205)"@),
            ),
            "tx_descr_width"@,
            Node::Text("3fr"@),
        ),
        "logo_width"@,
        Node::Text("150pt"@),
    )
}

/// The values that all documents share in the style that a fresh
/// installation starts with.
pub open spec fn default_shared_style() -> Seq<(Seq<char>, Node)> {
    with_entry(
        with_entry(
            with_entry(
                with_entry(
                    with_entry(
                        with_entry(
                            with_entry(Seq::empty(), "paper_type"@, Node::Text("a4"@)),
                            "font_name"@,
                            Node::Text("Roboto"@),
                        ),
                        "font_size"@,
                        Node::Text("15pt"@),
                    ),
                    "margin_top"@,
                    Node::Text("8%"@),
                ),
                "margin_x"@,
                Node::Text("4%"@),
            ),
            "margin_bottom"@,
            Node::Text("2%"@),
        ),
        "footer_font_size"@,
        Node::Text("10pt"@),
    )
}

/// The style that a fresh installation starts with: the shared values and
/// the table of invoices.
pub open spec fn default_style() -> Seq<(Seq<char>, Node)> {
    with_entry(default_shared_style(), "invoice"@, Node::Table(default_invoice_style()))
}

/// What loading the style gives: the style in use and, where there was no
/// style file, the text to store in it.
pub open spec fn imported_style(stored: Option<Seq<char>>) -> Result<
    (Seq<(Seq<char>, Node)>, Option<Seq<char>>),
    ErrcodeView,
> {
    match stored {
        None => match rendered_document(Node::Table(default_style())) {
            Some(text) => Ok((default_style(), Some(text))),
            None => Err(ErrcodeView::TomlEncode),
        },
        Some(text) => match parsed_document(text) {
            Some(style) => Ok((style, None)),
            None => Err(ErrcodeView::TomlDecode),
        },
    }
}

/// Puts the text `value` under `key`.
fn set_text(style: &mut Style, key: &str, value: &str)
    ensures
        final(style)@ == with_entry(old(style)@, key@, Node::Text(value@)),
{
    style.insert(key.to_owned(), Item::Text(value.to_owned()));
}

/// The style of invoices that a fresh installation starts with.
pub fn get_default_invoice_style() -> (r: Style)
    ensures
        r@ == default_invoice_style(),
{
    let mut style = Table::new();
    set_text(&mut style, "company_name_font_size", "23pt");
    set_text(&mut style, "table_color", "rgb(110, 140, 180, 205)");
    set_text(&mut style, "tx_descr_width", "3fr");
    set_text(&mut style, "logo_width", "150pt");
    style
}

/// The style that a fresh installation starts with.
pub fn get_default_style() -> (r: Style)
    ensures
        r@ == default_style(),
{
    let mut style = Table::new();
    set_text(&mut style, "paper_type", "a4");
    set_text(&mut style, "font_name", "Roboto");
    set_text(&mut style, "font_size", "15pt");
    set_text(&mut style, "margin_top", "8%");
    set_text(&mut style, "margin_x", "4%");
    set_text(&mut style, "margin_bottom", "2%");
    set_text(&mut style, "footer_font_size", "10pt");
    style.insert("invoice".to_owned(), Item::Table(get_default_invoice_style()));
    style
}

/// Loads the style from what the style file holds, if it exists, and else
/// takes the style that an installation starts with, which is then also
/// written out as the text to store in the file.
pub fn import_style(stored: Option<&str>) -> (r: Result<(Style, Option<String>), Errcode>)
    ensures
        match imported_style(
            match stored {
                Some(text) => Some(text@),
                None => None,
            },
        ) {
            Ok((style, text)) => r matches Ok((found, out)) && found@ == style && match text {
                Some(t) => out matches Some(o) && o@ == t,
                None => out is None,
            },
            Err(e) => r matches Err(x) && x@ == e,
        },
{
    match stored {
        None => {
            let (style, rendered) = get_default_style().render();
            match rendered {
                Ok(text) => Ok((style, Some(text))),
                Err(e) => Err(Errcode::TomlEncode(e)),
            }
        },
        Some(text) => match Table::parse(text) {
            Ok(style) => Ok((style, None)),
            Err(e) => Err(Errcode::TomlDecode(e)),
        },
    }
}

/// Flattening depends on nothing but the style and the kind of document:
/// styles that hold the same values give the same set of bindings.
pub proof fn lemma_flatten_deterministic(
    first: Seq<(Seq<char>, Node)>,
    second: Seq<(Seq<char>, Node)>,
    doctype: Seq<char>,
)
    requires
        first == second,
    ensures
        style_bindings(first, doctype).to_set() == style_bindings(second, doctype).to_set(),
        style_variables(first, doctype) == style_variables(second, doctype),
{
}

/// The order in which a style gets its values does not matter: whichever
/// of two values is put in first, the bindings and the variables are the
/// same.
pub proof fn lemma_flatten_order_free(
    style: Seq<(Seq<char>, Node)>,
    one: Seq<char>,
    value: Node,
    other: Seq<char>,
    second: Node,
    doctype: Seq<char>,
)
    requires
        ascending(style),
        one != other,
    ensures
        style_bindings(with_entry(with_entry(style, one, value), other, second), doctype)
            == style_bindings(with_entry(with_entry(style, other, second), one, value), doctype),
        style_variables(with_entry(with_entry(style, one, value), other, second), doctype)
            == style_variables(with_entry(with_entry(style, other, second), one, value), doctype),
{
    lemma_with_entry_commutes(style, one, value, other, second);
}

} // verus!
