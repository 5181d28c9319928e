//! The business configuration: who issues the documents, which tax applies,
//! where payments go. Settings live in tables of a settings file; a file
//! that lacks a setting of the defaults, a whole table or a key in a table,
//! gets it added when it is loaded.

use vstd::prelude::*;
use vstd::string::*;
use crate::decimal::{decimal_value, Decimal};
use crate::errors::{Errcode, ErrcodeView};
use crate::sorted::{lemma_lookup_index, lookup};
use crate::value::{
    backfilled, lemma_backfilled, lemma_backfilled_twice, ordered, parsed_document,
    rendered_document, Item, Node, Table,
};

verus! {

/// The settings that a fresh installation starts with.
pub const DEFAULT_CONFIG: &'static str = "[company]
name = \"My Company\"
person_name = \"Jane Doe\"
address = \"1 Main Street, 00000 Town\"
email = \"contact@example.com\"
legal_status = \"Sole proprietorship\"
siret_number = \"000 000 000 00000\"
logo_path = \"\"
logo_writing = \"\"

[taxes]
tax_applicable = false
tax_rate = 0.2

[bank]
name = \"\"
iban = \"\"
bic = \"\"

[invoice]
footer = \"\"
id_prefix = \"INV\"
add_iban = false

[quotation]
footer = \"\"
id_prefix = \"QUO\"
add_iban = false
payment_conditions = \"\"
";

/// The value under `key` in the table `table` of `root`.
pub open spec fn setting(root: Seq<(Seq<char>, Node)>, table: Seq<char>, key: Seq<char>) -> Option<
    Node,
> {
    match lookup(root, table) {
        Some(Node::Table(entries)) => lookup(entries, key),
        _ => None,
    }
}

/// The error for an entry that `file` lacks or holds in the wrong kind.
pub open spec fn bad_entry(file: Seq<char>, table: Seq<char>, key: Seq<char>) -> ErrcodeView {
    ErrcodeView::InvalidConfig(file, table + ":"@ + key)
}

/// The text under `key` in the table `table` of `root`.
pub open spec fn text_setting(
    root: Seq<(Seq<char>, Node)>,
    file: Seq<char>,
    table: Seq<char>,
    key: Seq<char>,
) -> Result<Seq<char>, ErrcodeView> {
    match setting(root, table, key) {
        Some(Node::Text(s)) => Ok(s),
        _ => Err(bad_entry(file, table, key)),
    }
}

/// The flag under `key` in the table `table` of `root`.
pub open spec fn flag_setting(
    root: Seq<(Seq<char>, Node)>,
    file: Seq<char>,
    table: Seq<char>,
    key: Seq<char>,
) -> Result<bool, ErrcodeView> {
    match setting(root, table, key) {
        Some(Node::Flag(b)) => Ok(b),
        _ => Err(bad_entry(file, table, key)),
    }
}

/// The number with a fraction under `key` in the table `table` of `root`,
/// in ten-thousandths.
pub open spec fn decimal_setting(
    root: Seq<(Seq<char>, Node)>,
    file: Seq<char>,
    table: Seq<char>,
    key: Seq<char>,
) -> Result<int, ErrcodeView> {
    match setting(root, table, key) {
        Some(Node::Scalar(literal)) => match decimal_value(literal) {
            Some(raw) => Ok(raw),
            None => Err(bad_entry(file, table, key)),
        },
        _ => Err(bad_entry(file, table, key)),
    }
}

/// Whether `r` is what `expected` says: the same text, or the same error.
pub open spec fn text_result(r: Result<&str, Errcode>, expected: Result<Seq<char>, ErrcodeView>)
    -> bool {
    match expected {
        Ok(text) => r matches Ok(s) && s@ == text,
        Err(e) => r matches Err(x) && x@ == e,
    }
}

/// Whether `r` is what `expected` says: the same text, or the same error.
pub open spec fn string_result(r: Result<String, Errcode>, expected: Result<Seq<char>, ErrcodeView>)
    -> bool {
    match expected {
        Ok(text) => r matches Ok(s) && s@ == text,
        Err(e) => r matches Err(x) && x@ == e,
    }
}

/// Whether `r` is what `expected` says: the same flag, or the same error.
pub open spec fn flag_result(r: Result<bool, Errcode>, expected: Result<bool, ErrcodeView>)
    -> bool {
    match expected {
        Ok(flag) => r matches Ok(b) && b == flag,
        Err(e) => r matches Err(x) && x@ == e,
    }
}

/// Whether `r` is what `expected` says: the same number, or the same error.
pub open spec fn decimal_result(r: Result<Decimal, Errcode>, expected: Result<int, ErrcodeView>)
    -> bool {
    match expected {
        Ok(raw) => r matches Ok(d) && d@ == raw,
        Err(e) => r matches Err(x) && x@ == e,
    }
}

/// The error for an entry that `file` lacks or holds in the wrong kind.
pub fn entry_error(file: &'static str, table: &str, key: &str) -> (e: Errcode)
    ensures
        e@ == bad_entry(file@, table@, key@),
{
    let mut name = String::new();
    name.append(table);
    name.append(":");
    name.append(key);
    assert(name@ =~= table@ + ":"@ + key@);
    Errcode::InvalidConfig(file, name)
}

/// The value under `key` in the table `table` of `root`.
pub fn find<'a>(root: &'a Table, table: &str, key: &str) -> (r: Option<&'a Item>)
    ensures
        match r {
            Some(item) => setting(root@, table@, key@) == Some(item@),
            None => setting(root@, table@, key@) is None,
        },
{
    match root.get(table) {
        Some(item) => match item.as_table() {
            Some(entries) => entries.get(key),
            None => None,
        },
        None => None,
    }
}

/// The text under `key` in the table `table` of `root`.
pub fn find_text<'a>(root: &'a Table, file: &'static str, table: &str, key: &str) -> (r: Result<
    &'a str,
    Errcode,
>)
    ensures
        text_result(r, text_setting(root@, file@, table@, key@)),
{
    match find(root, table, key) {
        Some(item) => match item.as_str() {
            Some(s) => Ok(s),
            None => Err(entry_error(file, table, key)),
        },
        None => Err(entry_error(file, table, key)),
    }
}

/// The flag under `key` in the table `table` of `root`.
pub fn find_flag(root: &Table, file: &'static str, table: &str, key: &str) -> (r: Result<
    bool,
    Errcode,
>)
    ensures
        flag_result(r, flag_setting(root@, file@, table@, key@)),
{
    match find(root, table, key) {
        Some(item) => match item.as_bool() {
            Some(b) => Ok(b),
            None => Err(entry_error(file, table, key)),
        },
        None => Err(entry_error(file, table, key)),
    }
}

/// The number with a fraction under `key` in the table `table` of `root`.
pub fn find_decimal(root: &Table, file: &'static str, table: &str, key: &str) -> (r: Result<
    Decimal,
    Errcode,
>)
    ensures
        decimal_result(r, decimal_setting(root@, file@, table@, key@)),
{
    match find(root, table, key) {
        Some(item) => match item.as_scalar() {
            Some(scalar) => {
                let literal = scalar.text();
                match Decimal::parse(literal.as_str()) {
                    Some(d) => Ok(d),
                    None => Err(entry_error(file, table, key)),
                }
            },
            None => Err(entry_error(file, table, key)),
        },
        None => Err(entry_error(file, table, key)),
    }
}

/// The business configuration.
#[derive(Debug)]
pub struct ConfigStore {
    data: Table,
}

/// What loading the configuration gives: the settings in use and the text to
/// store in the settings file. `stored` is what the file holds, if it exists.
pub open spec fn imported_config(stored: Option<Seq<char>>) -> Result<
    (Seq<(Seq<char>, Node)>, Seq<char>),
    ErrcodeView,
> {
    match parsed_document(DEFAULT_CONFIG@) {
        None => Err(ErrcodeView::TomlDecode),
        Some(defaults) => match stored {
            None => Ok((defaults, DEFAULT_CONFIG@)),
            Some(text) => match parsed_document(text) {
                None => Err(ErrcodeView::TomlDecode),
                Some(loaded) => match rendered_document(
                    Node::Table(backfilled(loaded, defaults)),
                ) {
                    None => Err(ErrcodeView::TomlEncode),
                    Some(merged) => Ok((backfilled(loaded, defaults), merged)),
                },
            },
        },
    }
}

impl ConfigStore {
    /// The settings, as the entries of their top table.
    pub closed spec fn view(&self) -> Seq<(Seq<char>, Node)> {
        self.data@
    }

    /// The configuration that holds the settings of `data`.
    pub fn new(data: Table) -> (r: ConfigStore)
        ensures
            r@ == data@,
    {
        ConfigStore { data }
    }

    /// The settings of `loaded`, with every setting of `defaults` filled
    /// in that `loaded` lacks: whole tables, and keys within the tables that
    /// both have.
    pub fn merge(loaded: Table, defaults: Table) -> (r: ConfigStore)
        ensures
            r@ == backfilled(loaded@, defaults@),
    {
        let mut data = loaded;
        data.backfill(defaults);
        ConfigStore { data }
    }

    /// A text of the company's identity. An identity field that is not set
    /// is the empty text; a field that the settings lack is an error.
    pub fn get_company(&self, data: &str) -> (r: Result<String, Errcode>)
        ensures
            string_result(r, text_setting(self@, "config"@, "company"@, data@)),
    {
        match find_text(&self.data, "config", "company", data) {
            Ok(s) => Ok(s.to_owned()),
            Err(e) => Err(e),
        }
    }

    /// The flag `data` of the table `key`.
    pub fn get_bool(&self, key: &str, data: &str) -> (r: Result<bool, Errcode>)
        ensures
            flag_result(r, flag_setting(self@, "config"@, key@, data@)),
    {
        find_flag(&self.data, "config", key, data)
    }

    /// The number with a fraction `data` of the table `key`.
    pub fn get_float(&self, key: &str, data: &str) -> (r: Result<Decimal, Errcode>)
        ensures
            decimal_result(r, decimal_setting(self@, "config"@, key@, data@)),
    {
        find_decimal(&self.data, "config", key, data)
    }

    /// The text `data` of the table `key`.
    pub fn get_str<'a>(&'a self, key: &str, data: &str) -> (r: Result<&'a str, Errcode>)
        ensures
            text_result(r, text_setting(self@, "config"@, key@, data@)),
    {
        find_text(&self.data, "config", key, data)
    }
}

/// One load heals the settings. A setting that the file lacks and the
/// defaults have is, after the load, as the defaults have it, whether the
/// file lacks the whole table or only the key in it; a setting that the
/// file has stays, and where it is no table it stays as it was loaded. Only
/// where the file holds something that is no table under the name of a
/// table is nothing filled in below that name.
pub proof fn lemma_load_heals(
    loaded: Seq<(Seq<char>, Node)>,
    defaults: Seq<(Seq<char>, Node)>,
    table: Seq<char>,
    key: Seq<char>,
)
    requires
        ordered(loaded),
        ordered(defaults),
    ensures
        setting(loaded, table, key) is None && setting(defaults, table, key) is Some && (lookup(
            loaded,
            table,
        ) is None || lookup(loaded, table)->Some_0 is Table) ==> setting(
            backfilled(loaded, defaults),
            table,
            key,
        ) == setting(defaults, table, key),
        setting(loaded, table, key) is Some ==> setting(backfilled(loaded, defaults), table, key)
            is Some,
        setting(loaded, table, key) is Some && !(setting(loaded, table, key)->Some_0 is Table)
            ==> setting(backfilled(loaded, defaults), table, key) == setting(loaded, table, key),
{
    lemma_backfilled(loaded, defaults, table);
    match lookup(loaded, table) {
        Some(Node::Table(inner)) => {
            lemma_lookup_index(loaded, table);
            let i = choose|i: int|
                0 <= i < loaded.len() && #[trigger] loaded[i].0 == table && loaded[i].1
                    == Node::Table(inner);
            assert(ordered(inner));
            match lookup(defaults, table) {
                Some(Node::Table(more)) => {
                    lemma_lookup_index(defaults, table);
                    let j = choose|j: int|
                        0 <= j < defaults.len() && #[trigger] defaults[j].0 == table
                            && defaults[j].1 == Node::Table(more);
                    assert(ordered(more));
                    lemma_backfilled(inner, more, key);
                },
                _ => {},
            }
        },
        _ => {},
    }
}

/// Loading again what a load gave changes nothing.
pub proof fn lemma_load_is_stable(
    loaded: Seq<(Seq<char>, Node)>,
    defaults: Seq<(Seq<char>, Node)>,
)
    requires
        ordered(loaded),
        ordered(defaults),
    ensures
        backfilled(backfilled(loaded, defaults), defaults) == backfilled(loaded, defaults),
{
    lemma_backfilled_twice(loaded, defaults);
}

/// Loads the configuration from what the settings file holds, if it exists.
/// Gives the settings and the text that the settings file is to hold from
/// now on: the defaults where there was no file, else what was loaded with
/// the missing tables of the defaults added.
pub fn import_config(stored: Option<&str>) -> (r: Result<(ConfigStore, String), Errcode>)
    ensures
        match imported_config(
            match stored {
                Some(text) => Some(text@),
                None => None,
            },
        ) {
            Ok((settings, text)) => r matches Ok((store, out)) && store@ == settings && out@
                == text,
            Err(e) => r matches Err(x) && x@ == e,
        },
{
    let defaults = match Table::parse(DEFAULT_CONFIG) {
        Ok(table) => table,
        Err(e) => {
            return Err(Errcode::TomlDecode(e));
        },
    };
    match stored {
        None => Ok((ConfigStore { data: defaults }, DEFAULT_CONFIG.to_owned())),
        Some(text) => {
            let loaded = match Table::parse(text) {
                Ok(table) => table,
                Err(e) => {
                    return Err(Errcode::TomlDecode(e));
                },
            };
            let store = ConfigStore::merge(loaded, defaults);
            let (data, rendered) = store.data.render();
            match rendered {
                Ok(out) => Ok((ConfigStore { data }, out)),
                Err(e) => Err(Errcode::TomlEncode(e)),
            }
        },
    }
}

} // verus!
