//! Trees of named values, as configuration, style and dictionary files hold
//! them: a table maps keys to texts, numbers, flags, lists and further tables.
//! A table keeps its entries ordered by key, each key once.

use vstd::prelude::*;
use vstd::string::*;
use crate::sorted::{
    ascending, key_less, lemma_key_less_irreflexive, lemma_lookup_absent, lemma_lookup_found,
    lemma_lookup_index, lemma_rank, lemma_rank_splits, lemma_with_entry, lemma_with_entry_same,
    lookup, rank, text_before, with_entry,
};

verus! {

/// A number with a fraction or a date-time, kept as the file format holds it.
#[derive(Debug)]
pub struct Scalar {
    raw: toml::Value,
}

/// One value of a tree.
#[derive(Debug)]
pub enum Item {
    Text(String),
    Integer(i64),
    Flag(bool),
    Scalar(Scalar),
    List(Vec<Item>),
    Table(Table),
}

/// Named values, ordered by key.
#[derive(Debug)]
pub struct Table {
    entries: Vec<(String, Item)>,
}

/// What a value is, as mathematics: a scalar stands as its literal text.
pub enum Node {
    Text(Seq<char>),
    Integer(i64),
    Flag(bool),
    Scalar(Seq<char>),
    List(Seq<Node>),
    Table(Seq<(Seq<char>, Node)>),
}

/// `toml::Value`, a value as the file format holds it. Nothing inside it is
/// read here: it is taken apart and put together by the format alone.
#[verifier::external_type_specification]
#[verifier::external_body]
pub struct ExTomlValue(toml::Value);

/// `toml::de::Error`, the format's reason why a text is no document.
#[verifier::external_type_specification]
#[verifier::external_body]
pub struct ExTomlDecodeError(toml::de::Error);

/// `toml::ser::Error`, the format's reason why a value cannot be written.
#[verifier::external_type_specification]
#[verifier::external_body]
pub struct ExTomlEncodeError(toml::ser::Error);

/// What a value of the file format holds. A table stands as its entries in
/// the order in which the format's map walks them, a number with a fraction
/// or a date-time as the literal that the format shows for it.
pub uninterp spec fn value_contents(raw: toml::Value) -> Node;

/// The table that the format reads from a document, where it reads one.
pub uninterp spec fn parsed_document(text: Seq<char>) -> Option<Seq<(Seq<char>, Node)>>;

/// The document that the format writes for a value, where it writes one.
pub uninterp spec fn rendered_document(node: Node) -> Option<Seq<char>>;

/// The literal that the format shows for a value.
pub uninterp spec fn literal_text(node: Node) -> Seq<char>;

/// `toml::from_str`, asked for a `toml::Table`, reads a document as a table
/// or reports why the text is no document. The contract names the table
/// read and says no more of it.
#[verifier::external_body]
fn toml_parse(text: &str) -> (r: Result<toml::Value, toml::de::Error>)
    ensures
        match r {
            Ok(raw) => value_contents(raw) is Table && parsed_document(text@) == Some(
                value_contents(raw)->Table_0,
            ),
            Err(_) => parsed_document(text@) is None,
        },
{
    toml::from_str::<toml::Table>(text).map(toml::Value::Table)
}

/// `toml::to_string` writes a value as a document, or reports why it cannot.
/// The contract names the text written and says no more of it.
#[verifier::external_body]
fn toml_render(raw: &toml::Value) -> (r: Result<String, toml::ser::Error>)
    ensures
        match r {
            Ok(text) => rendered_document(value_contents(*raw)) == Some(text@),
            Err(_) => rendered_document(value_contents(*raw)) is None,
        },
{
    toml::to_string(raw)
}

/// `to_string` of a `toml::Value` gives the literal that the format shows
/// for it. For a number with a fraction and for a date-time that literal is
/// what the value's contents are named after.
#[verifier::external_body]
fn toml_display(raw: &toml::Value) -> (r: String)
    ensures
        r@ == literal_text(value_contents(*raw)),
        value_contents(*raw) matches Node::Scalar(literal) ==> r@ == literal,
{
    raw.to_string()
}

/// Takes a `toml::Value` apart, variant by variant, and so says what its
/// contents are called: a text, a whole number and a flag as they are, an
/// array item by item, a table entry by entry, and a number with a
/// fraction or a date-time kept whole. The map behind a `toml::Table` is
/// ordered by key and hands out its entries in that order, each key once.
#[verifier::external_body]
fn item_from(raw: toml::Value) -> (r: Item)
    ensures
        r@ == value_contents(raw),
{
    match raw {
        toml::Value::String(s) => Item::Text(s),
        toml::Value::Integer(i) => Item::Integer(i),
        toml::Value::Boolean(b) => Item::Flag(b),
        toml::Value::Array(a) => Item::List(a.into_iter().map(item_from).collect()),
        toml::Value::Table(t) => Item::Table(
            Table { entries: t.into_iter().map(|(k, v)| (k, item_from(v))).collect() },
        ),
        scalar @ (toml::Value::Float(_) | toml::Value::Datetime(_)) => Item::Scalar(
            Scalar { raw: scalar },
        ),
    }
}

/// Puts a `toml::Value` together, variant by variant: the value whose
/// contents are those of `item`. A table, whose entries ascend by key, is
/// collected into the map behind a `toml::Table`, which keeps that order.
#[verifier::external_body]
fn item_into(item: &Item) -> (r: toml::Value)
    ensures
        value_contents(r) == item@,
{
    match item {
        Item::Text(s) => toml::Value::String(s.clone()),
        Item::Integer(i) => toml::Value::Integer(*i),
        Item::Flag(b) => toml::Value::Boolean(*b),
        Item::Scalar(s) => s.raw.clone(),
        Item::List(a) => toml::Value::Array(a.iter().map(item_into).collect()),
        Item::Table(t) => toml::Value::Table(
            t.entries.iter().map(|(k, v)| (k.clone(), item_into(v))).collect(),
        ),
    }
}

/// Whether the keys ascend in `entries` and in every table below it.
pub open spec fn ordered(entries: Seq<(Seq<char>, Node)>) -> bool
    decreases entries,
{
    &&& ascending(entries)
    &&& forall|i: int|
        0 <= i < entries.len() ==> match (#[trigger] entries[i]).1 {
            Node::Table(inner) => ordered(inner),
            _ => true,
        }
}

/// `loaded` after the first `n` entries of `defaults` have been filled in.
/// A default whose key `loaded` lacks is added. Where both hold a table
/// under a key, the defaults of that table are filled into the loaded one
/// in the same way. Any other loaded value stays as it is.
pub open spec fn backfilled_upto(
    loaded: Seq<(Seq<char>, Node)>,
    defaults: Seq<(Seq<char>, Node)>,
    n: nat,
) -> Seq<(Seq<char>, Node)>
    decreases defaults, n,
{
    if n == 0 || n > defaults.len() {
        loaded
    } else {
        let base = backfilled_upto(loaded, defaults, (n - 1) as nat);
        let key = defaults[n - 1].0;
        match lookup(base, key) {
            None => with_entry(base, key, defaults[n - 1].1),
            Some(Node::Table(inner)) => match defaults[n - 1].1 {
                Node::Table(more) => with_entry(
                    base,
                    key,
                    Node::Table(backfilled_upto(inner, more, more.len())),
                ),
                _ => base,
            },
            Some(_) => base,
        }
    }
}

/// `loaded` with every default filled in that it lacks, at any depth of
/// tables that both have.
pub open spec fn backfilled(loaded: Seq<(Seq<char>, Node)>, defaults: Seq<(Seq<char>, Node)>)
    -> Seq<(Seq<char>, Node)> {
    backfilled_upto(loaded, defaults, defaults.len())
}

/// What a key holds once the defaults are filled in, given what it holds
/// as loaded and what the defaults hold under it.
pub open spec fn merged(loaded: Option<Node>, default: Option<Node>) -> Option<Node> {
    match loaded {
        None => default,
        Some(Node::Table(inner)) => match default {
            Some(Node::Table(more)) => Some(Node::Table(backfilled(inner, more))),
            _ => loaded,
        },
        Some(_) => loaded,
    }
}

/// Whether `entry`, an entry of the defaults, changes nothing when it is
/// filled into `full`.
pub open spec fn settled(full: Seq<(Seq<char>, Node)>, entry: (Seq<char>, Node)) -> bool {
    match lookup(full, entry.0) {
        None => false,
        Some(Node::Table(inner)) => match entry.1 {
            Node::Table(more) => backfilled(inner, more) == inner,
            _ => true,
        },
        Some(_) => true,
    }
}

/// The front part of ascending entries ascends, and does not hold the key
/// that follows it.
pub proof fn lemma_front<V>(entries: Seq<(Seq<char>, V)>, n: int)
    requires
        ascending(entries),
        0 <= n <= entries.len(),
    ensures
        ascending(entries.take(n)),
        n < entries.len() ==> lookup(entries.take(n), entries[n].0) is None,
{
    let front = entries.take(n);
    assert forall|a: int, b: int| 0 <= a < b < front.len() implies key_less(
        #[trigger] front[a].0,
        #[trigger] front[b].0,
    ) by {
        assert(front[a] == entries[a]);
        assert(front[b] == entries[b]);
    }
    if n < entries.len() {
        lemma_lookup_index(front, entries[n].0);
        if lookup(front, entries[n].0) is Some {
            let i = choose|i: int|
                0 <= i < front.len() && #[trigger] front[i].0 == entries[n].0 && front[i].1
                    == lookup(front, entries[n].0)->Some_0;
            assert(front[i] == entries[i]);
            assert(key_less(entries[i].0, entries[n].0));
            lemma_key_less_irreflexive(entries[n].0);
        }
    }
}

/// What filling in the first `n` defaults does to each key: the entries
/// stay ascending, and a key holds what it held as loaded, merged with what
/// those defaults hold under it.
pub proof fn lemma_backfilled_upto(
    loaded: Seq<(Seq<char>, Node)>,
    defaults: Seq<(Seq<char>, Node)>,
    n: nat,
    key: Seq<char>,
)
    requires
        ascending(loaded),
        ascending(defaults),
        n <= defaults.len(),
    ensures
        ascending(backfilled_upto(loaded, defaults, n)),
        lookup(backfilled_upto(loaded, defaults, n), key) == merged(
            lookup(loaded, key),
            lookup(defaults.take(n as int), key),
        ),
    decreases n,
{
    if n == 0 {
        assert(defaults.take(0) =~= Seq::<(Seq<char>, Node)>::empty());
    } else {
        let m = (n - 1) as nat;
        let base = backfilled_upto(loaded, defaults, m);
        let last = defaults[n - 1];
        lemma_backfilled_upto(loaded, defaults, m, key);
        lemma_backfilled_upto(loaded, defaults, m, last.0);
        lemma_front(defaults, n - 1);
        assert(defaults.take(n as int).drop_last() =~= defaults.take(n - 1));
        assert(defaults.take(n as int).last() == last);
        // The defaults before the last do not hold its key.
        assert(lookup(base, last.0) == lookup(loaded, last.0));
        match lookup(base, last.0) {
            None => {
                lemma_with_entry(base, last.0, last.1, key);
            },
            Some(Node::Table(inner)) => {
                match last.1 {
                    Node::Table(more) => {
                        lemma_with_entry(
                            base,
                            last.0,
                            Node::Table(backfilled_upto(inner, more, more.len())),
                            key,
                        );
                    },
                    _ => {},
                }
            },
            Some(_) => {},
        }
    }
}

/// What filling in the defaults does to each key.
pub proof fn lemma_backfilled(
    loaded: Seq<(Seq<char>, Node)>,
    defaults: Seq<(Seq<char>, Node)>,
    key: Seq<char>,
)
    requires
        ascending(loaded),
        ascending(defaults),
    ensures
        ascending(backfilled(loaded, defaults)),
        lookup(backfilled(loaded, defaults), key) == merged(
            lookup(loaded, key),
            lookup(defaults, key),
        ),
{
    lemma_backfilled_upto(loaded, defaults, defaults.len(), key);
    assert(defaults.take(defaults.len() as int) =~= defaults);
}

/// Where the first `n` defaults are settled in `full`, filling them in
/// changes nothing.
pub proof fn lemma_settled_stays(
    full: Seq<(Seq<char>, Node)>,
    defaults: Seq<(Seq<char>, Node)>,
    n: nat,
)
    requires
        ascending(full),
        n <= defaults.len(),
        forall|i: int| 0 <= i < n ==> settled(full, #[trigger] defaults[i]),
    ensures
        backfilled_upto(full, defaults, n) == full,
    decreases n,
{
    if n > 0 {
        lemma_settled_stays(full, defaults, (n - 1) as nat);
        let last = defaults[n - 1];
        assert(settled(full, last));
        match lookup(full, last.0) {
            Some(Node::Table(inner)) => {
                match last.1 {
                    Node::Table(more) => {
                        assert(backfilled_upto(inner, more, more.len()) == inner);
                        lemma_with_entry_same(full, last.0, Node::Table(inner));
                    },
                    _ => {},
                }
            },
            _ => {},
        }
    }
}

/// Filling the defaults into nothing gives the defaults.
pub proof fn lemma_backfilled_empty(defaults: Seq<(Seq<char>, Node)>, n: nat)
    requires
        ascending(defaults),
        n <= defaults.len(),
    ensures
        backfilled_upto(Seq::empty(), defaults, n) == defaults.take(n as int),
    decreases n,
{
    if n == 0 {
        assert(defaults.take(0) =~= Seq::<(Seq<char>, Node)>::empty());
    } else {
        lemma_backfilled_empty(defaults, (n - 1) as nat);
        let front = defaults.take(n - 1);
        let last = defaults[n - 1];
        lemma_front(defaults, n - 1);
        assert forall|k: int| 0 <= k < front.len() implies key_less(
            #[trigger] front[k].0,
            last.0,
        ) by {
            assert(front[k] == defaults[k]);
        }
        lemma_rank(front, last.0, front.len() as int);
        assert(front.insert(front.len() as int, last) =~= defaults.take(n as int));
    }
}

/// After the defaults have been filled in, each of the first `n` of them
/// is settled.
pub proof fn lemma_backfilled_settles(
    loaded: Seq<(Seq<char>, Node)>,
    defaults: Seq<(Seq<char>, Node)>,
    n: nat,
)
    requires
        ordered(loaded),
        ordered(defaults),
        n <= defaults.len(),
    ensures
        forall|i: int|
            0 <= i < n ==> settled(backfilled(loaded, defaults), #[trigger] defaults[i]),
    decreases defaults, n,
{
    if n > 0 {
        lemma_backfilled_settles(loaded, defaults, (n - 1) as nat);
        let entry = defaults[n - 1];
        lemma_backfilled(loaded, defaults, entry.0);
        lemma_lookup_found(defaults, n - 1);
        match entry.1 {
            Node::Table(more) => {
                assert(ordered(more));
                match lookup(loaded, entry.0) {
                    None => {
                        lemma_backfilled_self(more);
                    },
                    Some(Node::Table(inner)) => {
                        lemma_lookup_index(loaded, entry.0);
                        let i = choose|i: int|
                            0 <= i < loaded.len() && #[trigger] loaded[i].0 == entry.0
                                && loaded[i].1 == Node::Table(inner);
                        assert(ordered(inner));
                        lemma_backfilled_twice(inner, more);
                    },
                    Some(_) => {},
                }
            },
            _ => {},
        }
    }
}

/// Filling in the defaults again, after they have been filled in once,
/// changes nothing.
pub proof fn lemma_backfilled_twice(
    loaded: Seq<(Seq<char>, Node)>,
    defaults: Seq<(Seq<char>, Node)>,
)
    requires
        ordered(loaded),
        ordered(defaults),
    ensures
        backfilled(backfilled(loaded, defaults), defaults) == backfilled(loaded, defaults),
    decreases defaults, defaults.len() + 1,
{
    lemma_backfilled(loaded, defaults, Seq::empty());
    lemma_backfilled_settles(loaded, defaults, defaults.len());
    lemma_settled_stays(backfilled(loaded, defaults), defaults, defaults.len());
}

/// Filling defaults into themselves changes nothing.
pub proof fn lemma_backfilled_self(defaults: Seq<(Seq<char>, Node)>)
    requires
        ordered(defaults),
    ensures
        backfilled(defaults, defaults) == defaults,
    decreases defaults, defaults.len() + 2,
{
    lemma_backfilled_empty(defaults, defaults.len());
    assert(defaults.take(defaults.len() as int) =~= defaults);
    lemma_backfilled_twice(Seq::empty(), defaults);
}

impl Scalar {
    #[verifier::type_invariant]
    spec fn holds_scalar(self) -> bool {
        value_contents(self.raw) is Scalar
    }

    /// The literal text of this scalar.
    pub closed spec fn view(&self) -> Seq<char> {
        value_contents(self.raw)->Scalar_0
    }

    /// The literal text of this scalar.
    pub fn text(&self) -> (r: String)
        ensures
            r@ == self@,
    {
        proof {
            use_type_invariant(self);
        }
        toml_display(&self.raw)
    }
}

impl Item {
    pub open spec fn view(&self) -> Node
        decreases self,
    {
        match self {
            Item::Text(s) => Node::Text(s@),
            Item::Integer(i) => Node::Integer(*i),
            Item::Flag(b) => Node::Flag(*b),
            Item::Scalar(s) => Node::Scalar(s@),
            Item::List(items) => Node::List(
                Seq::new(
                    items@.len(),
                    |i: int|
                        if 0 <= i < items@.len() {
                            items@[i].view()
                        } else {
                            Node::Flag(false)
                        },
                ),
            ),
            Item::Table(t) => Node::Table(t.view()),
        }
    }

    /// The text, if this is one.
    pub fn as_str(&self) -> (r: Option<&str>)
        ensures
            match r {
                Some(s) => self@ == Node::Text(s@),
                None => !(self@ is Text),
            },
    {
        match self {
            Item::Text(s) => Some(s.as_str()),
            _ => None,
        }
    }

    /// The flag, if this is one.
    pub fn as_bool(&self) -> (r: Option<bool>)
        ensures
            match r {
                Some(b) => self@ == Node::Flag(b),
                None => !(self@ is Flag),
            },
    {
        match self {
            Item::Flag(b) => Some(*b),
            _ => None,
        }
    }

    /// The whole number, if this is one.
    pub fn as_integer(&self) -> (r: Option<i64>)
        ensures
            match r {
                Some(i) => self@ == Node::Integer(i),
                None => !(self@ is Integer),
            },
    {
        match self {
            Item::Integer(i) => Some(*i),
            _ => None,
        }
    }

    /// The scalar, if this is one.
    pub fn as_scalar(&self) -> (r: Option<&Scalar>)
        ensures
            match r {
                Some(s) => self@ == Node::Scalar(s@),
                None => !(self@ is Scalar),
            },
    {
        match self {
            Item::Scalar(s) => Some(s),
            _ => None,
        }
    }

    /// The list, if this is one.
    pub fn as_list(&self) -> (r: Option<&Vec<Item>>)
        ensures
            match r {
                Some(items) => self@ == Item::List(*items)@,
                None => !(self@ is List),
            },
    {
        match self {
            Item::List(items) => Some(items),
            _ => None,
        }
    }

    /// The table, if this is one.
    pub fn as_table(&self) -> (r: Option<&Table>)
        ensures
            match r {
                Some(t) => self@ == Node::Table(t@),
                None => !(self@ is Table),
            },
    {
        match self {
            Item::Table(t) => Some(t),
            _ => None,
        }
    }

    /// The literal that the file format shows for this value.
    pub fn literal(&self) -> (r: String)
        ensures
            r@ == literal_text(self@),
    {
        let raw = item_into(self);
        toml_display(&raw)
    }
}

impl Table {
    #[verifier::type_invariant]
    spec fn ordered(self) -> bool {
        ascending(self.view())
    }

    pub closed spec fn view(&self) -> Seq<(Seq<char>, Node)>
        decreases self,
    {
        Seq::new(
            self.entries@.len(),
            |i: int|
                if 0 <= i < self.entries@.len() {
                    (self.entries@[i].0@, self.entries@[i].1.view())
                } else {
                    (Seq::empty(), Node::Flag(false))
                },
        )
    }

    /// A table without entries.
    pub fn new() -> (r: Table)
        ensures
            r@ == Seq::<(Seq<char>, Node)>::empty(),
    {
        let r = Table { entries: Vec::new() };
        assert(r@ =~= Seq::<(Seq<char>, Node)>::empty());
        r
    }

    /// The number of entries.
    pub fn len(&self) -> (n: usize)
        ensures
            n == self@.len(),
            ascending(self@),
    {
        proof {
            use_type_invariant(self);
        }
        self.entries.len()
    }

    /// The key of the entry at `index`.
    pub fn key_at(&self, index: usize) -> (r: &str)
        requires
            index < self@.len(),
        ensures
            r@ == self@[index as int].0,
    {
        self.entries[index].0.as_str()
    }

    /// The value of the entry at `index`.
    pub fn item_at(&self, index: usize) -> (r: &Item)
        requires
            index < self@.len(),
        ensures
            r@ == self@[index as int].1,
    {
        &self.entries[index].1
    }

    /// The position of the first entry whose key does not come before `key`.
    fn position(&self, key: &str) -> (p: usize)
        ensures
            p == rank(self@, key@),
            p <= self@.len(),
    {
        proof {
            use_type_invariant(self);
        }
        let mut p: usize = 0;
        while p < self.entries.len() && text_before(self.entries[p].0.as_str(), key)
            invariant
                p <= self.entries.len(),
                self.entries.len() == self@.len(),
                forall|k: int| 0 <= k < p ==> key_less(#[trigger] self@[k].0, key@),
            decreases self.entries.len() - p,
        {
            p = p + 1;
        }
        proof {
            lemma_rank(self@, key@, p as int);
        }
        p
    }

    /// The value under `key`, if the table has that key.
    pub fn get(&self, key: &str) -> (r: Option<&Item>)
        ensures
            match r {
                Some(item) => lookup(self@, key@) == Some(item@),
                None => lookup(self@, key@) is None,
            },
    {
        proof {
            use_type_invariant(self);
        }
        let p = self.position(key);
        proof {
            lemma_rank_splits(self@, key@);
        }
        if p < self.entries.len() && *self.entries[p].0.as_str() == *key {
            proof {
                lemma_lookup_found(self@, p as int);
            }
            Some(&self.entries[p].1)
        } else {
            proof {
                lemma_lookup_absent(self@, key@);
            }
            None
        }
    }

    /// Whether the table has `key`.
    pub fn contains_key(&self, key: &str) -> (r: bool)
        ensures
            r == lookup(self@, key@) is Some,
    {
        self.get(key).is_some()
    }

    /// Puts `item` under `key`, in place of what was there.
    pub fn insert(&mut self, key: String, item: Item)
        ensures
            final(self)@ == with_entry(old(self)@, key@, item@),
    {
        proof {
            use_type_invariant(&*self);
        }
        let p = self.position(key.as_str());
        let replaces = p < self.entries.len() && *self.entries[p].0.as_str() == *key.as_str();
        let ghost before = self@;
        proof {
            lemma_with_entry(before, key@, item@, key@);
        }
        let mut taken = Table::new();
        core::mem::swap(self, &mut taken);
        let mut entries = taken.entries;
        let ghost key_view = key@;
        let ghost item_view = item@;
        if replaces {
            entries.set(p, (key, item));
        } else {
            entries.insert(p, (key, item));
        }
        proof {
            let out = Table { entries };
            if replaces {
                assert(out@ =~= before.update(p as int, (key_view, item_view)));
            } else {
                assert(out@ =~= before.insert(p as int, (key_view, item_view)));
            }
        }
        *self = Table { entries };
    }

    /// Fills in the defaults: every entry of `defaults` whose key this table
    /// lacks is added, and where both hold a table under a key, the
    /// defaults of that table are filled into the table held here in the
    /// same way. Any other value held here stays as it is.
    pub fn backfill(&mut self, defaults: Table)
        ensures
            final(self)@ == backfilled(old(self)@, defaults@),
        decreases defaults@,
    {
        let ghost target = defaults@;
        for entry in it: defaults.entries
            invariant
                target == defaults@,
                it.seq().len() == target.len(),
                forall|k: int|
                    0 <= k < target.len() ==> target[k] == ((#[trigger] it.seq()[k]).0@, it.seq()[k].1@),
                self@ == backfilled_upto(old(self)@, target, it.index() as nat),
        {
            let ghost n = it.index() as int;
            let ghost base = self@;
            let (key, item) = entry;
            proof {
                use_type_invariant(&*self);
                assert(target[n] == (key@, item@));
            }
            let p = self.position(key.as_str());
            let present = p < self.entries.len() && *self.entries[p].0.as_str() == *key.as_str();
            if !present {
                proof {
                    lemma_lookup_absent(base, key@);
                }
                self.insert(key, item);
            } else {
                proof {
                    lemma_lookup_found(base, p as int);
                }
                let both = self.entries[p].1.as_table().is_some() && item.as_table().is_some();
                if both {
                    let mut taken = Table::new();
                    core::mem::swap(self, &mut taken);
                    let mut mine = taken.entries;
                    let (kept_key, existing) = mine.remove(p);
                    match (existing, item) {
                        (Item::Table(mut inner), Item::Table(more)) => {
                            let ghost held = inner@;
                            proof {
                                assert(decreases_to!(target => target[n]));
                                assert(decreases_to!(target[n] => target[n].1));
                                assert(target[n].1 == Node::Table(more@));
                                assert(decreases_to!(target[n].1 => target[n].1->Table_0));
                            }
                            inner.backfill(more);
                            let ghost filled = inner@;
                            mine.insert(p, (kept_key, Item::Table(inner)));
                            proof {
                                let out = Table { entries: mine };
                                assert(out@ =~= base.update(p as int, (key@, Node::Table(filled))));
                                assert forall|i: int, j: int|
                                    0 <= i < j < out@.len() implies key_less(
                                    #[trigger] out@[i].0,
                                    #[trigger] out@[j].0,
                                ) by {
                                    assert(out@[i].0 == base[i].0);
                                    assert(out@[j].0 == base[j].0);
                                }
                            }
                        },
                        _ => {
                            // Never reached: both were seen to be tables.
                            proof {
                                assert(false);
                            }
                        },
                    }
                    *self = Table { entries: mine };
                }
            }
        }
    }

    /// Reads a document.
    pub fn parse(text: &str) -> (r: Result<Table, toml::de::Error>)
        ensures
            match r {
                Ok(table) => parsed_document(text@) == Some(table@),
                Err(_) => parsed_document(text@) is None,
            },
    {
        match toml_parse(text) {
            Ok(raw) => {
                match item_from(raw) {
                    Item::Table(table) => Ok(table),
                    _ => {
                        // Never reached: what is read from a document is a table.
                        proof {
                            assert(false);
                        }
                        Ok(Table::new())
                    },
                }
            },
            Err(e) => Err(e),
        }
    }

    /// Writes the table as a document.
    pub fn render(self) -> (r: (Table, Result<String, toml::ser::Error>))
        ensures
            r.0@ == self@,
            match r.1 {
                Ok(text) => rendered_document(Node::Table(self@)) == Some(text@),
                Err(_) => rendered_document(Node::Table(self@)) is None,
            },
    {
        let item = Item::Table(self);
        let raw = item_into(&item);
        let text = toml_render(&raw);
        match item {
            Item::Table(table) => (table, text),
            _ => {
                // Never reached: `item` was made as a table.
                proof {
                    assert(false);
                }
                (Table::new(), text)
            },
        }
    }
}

} // verus!
