//! What the typesetter asks for while it compiles a document: the markup,
//! the files that the markup refers to, the fonts by their place in the
//! pool, and the date. Fonts and assets are read once and then only looked
//! up.

use vstd::prelude::*;
use vstd::string::*;
use crate::date::{calendar_date_of, CalendarDate};
use crate::doctype::{DocumentType, TypstData};
use crate::errors::{Errcode, ErrcodeView};
use crate::fonts::{faces_of, import_fonts, Listing};
use crate::sorted::{lookup, with_entry, SlugMap};
use crate::style::{generate_style_variables, style_variables, Style};
use crate::value::Node;

verus! {

/// The seconds of a day.
pub const DAY: i64 = 86_400;

/// The id under which the typesetter asks for the markup.
pub const SOURCE_ID: &'static str = "source";

/// What files hold, by their path below the directory of assets.
pub type AssetStore = SlugMap<Vec<u8>>;

/// The fonts and the assets of a run.
#[derive(Debug)]
pub struct DocumentConfig<F> {
    assets: AssetStore,
    fonts: Vec<F>,
}

/// What the typesetter draws on for one document.
#[derive(Debug)]
pub struct TypstWorld<F> {
    vault: DocumentConfig<F>,
    style: Style,
    doctype: DocumentType,
    source: Option<String>,
}

/// `store` with the files of the first `n` entries of a directory added,
/// each under its path: `prefix`, then the names of the directories that
/// lead to it and its own name, with a slash after each directory. A file
/// takes the place of an earlier one of the same path.
pub open spec fn assets_into(
    store: Seq<(Seq<char>, Seq<u8>)>,
    prefix: Seq<char>,
    entries: Seq<(String, Listing<Vec<u8>>)>,
    n: nat,
) -> Seq<(Seq<char>, Seq<u8>)>
    decreases entries, n,
{
    if n == 0 || n > entries.len() {
        store
    } else {
        let before = assets_into(store, prefix, entries, (n - 1) as nat);
        match entries[n - 1].1 {
            Listing::File(data) => with_entry(before, prefix + entries[n - 1].0@, data@),
            Listing::Directory(inner) => assets_into(
                before,
                prefix + entries[n - 1].0@ + "/"@,
                inner@,
                inner@.len(),
            ),
        }
    }
}

/// The day that lies `offset` whole days after the day of the second
/// `seconds` since the start of 1970, where the calendar reaches that far.
pub open spec fn shifted_date(seconds: i64, offset: Option<i64>) -> Option<CalendarDate> {
    let days = match offset {
        Some(days) => days as int,
        None => 0,
    };
    let moment = seconds + days * DAY;
    if i64::MIN <= moment <= i64::MAX {
        calendar_date_of(moment as i64)
    } else {
        None
    }
}

/// The markup that goes to the typesetter: the variables of the style in
/// front of the markup of the document.
pub open spec fn full_source(style: Seq<(Seq<char>, Node)>, doctype: DocumentType, code: Seq<char>)
    -> Seq<char> {
    style_variables(style, doctype.name()) + "\n"@ + code + "\n"@
}

/// Adds the files of a directory to `store`, each under its path.
fn collect_assets(store: &mut AssetStore, prefix: &str, dir: Vec<(String, Listing<Vec<u8>>)>)
    ensures
        final(store)@ == assets_into(old(store)@, prefix@, dir@, dir@.len()),
    decreases dir,
{
    let ghost entries = dir@;
    proof {
        assert(decreases_to!(dir => dir@));
    }
    for entry in it: dir
        invariant
            it.seq() == entries,
            decreases_to!(dir => entries),
            store@ == assets_into(old(store)@, prefix@, entries, it.index() as nat),
    {
        let ghost n = it.index() as int;
        let (name, listing) = entry;
        let mut path = prefix.to_owned();
        path.append(name.as_str());
        match listing {
            Listing::File(data) => {
                store.insert(path, data);
            },
            Listing::Directory(inner) => {
                proof {
                    assert(decreases_to!(entries => entries[n]));
                    assert(decreases_to!(entries[n] => entries[n].1));
                    assert(decreases_to!(entries[n].1 => entries[n].1->Directory_0));
                }
                path.append("/");
                collect_assets(store, path.as_str(), inner);
            },
        }
    }
}

/// What the files below the directory of assets hold, each under its path
/// relative to that directory. A directory within it is a namespace: its
/// files have its name and a slash in front of theirs.
pub fn import_assets(assets_dir: Vec<(String, Listing<Vec<u8>>)>) -> (r: AssetStore)
    ensures
        r@ == assets_into(Seq::empty(), Seq::empty(), assets_dir@, assets_dir@.len()),
{
    let mut store: AssetStore = SlugMap::new();
    let prefix = String::new();
    collect_assets(&mut store, prefix.as_str(), assets_dir);
    store
}

impl<F> DocumentConfig<F> {
    /// The assets by path.
    pub closed spec fn assets(&self) -> Seq<(Seq<char>, Seq<u8>)> {
        self.assets@
    }

    /// The pool of fonts.
    pub closed spec fn fonts(&self) -> Seq<F> {
        self.fonts@
    }

    /// The fonts and assets found below the two directories.
    pub fn new(fonts_dir: Vec<(String, Listing<Vec<F>>)>, assets_dir: Vec<
        (String, Listing<Vec<u8>>),
    >) -> (r: DocumentConfig<F>)
        ensures
            r.fonts() == faces_of(fonts_dir@, fonts_dir@.len()),
            r.assets() == assets_into(Seq::empty(), Seq::empty(), assets_dir@, assets_dir@.len()),
    {
        DocumentConfig { assets: import_assets(assets_dir), fonts: import_fonts(fonts_dir) }
    }

    /// What the file at `path` holds. A path that the assets do not have is
    /// reported as a resource that is not found, with the path.
    pub fn get_asset<'a>(&'a self, path: &str) -> (r: Result<&'a Vec<u8>, Errcode>)
        ensures
            match lookup(self.assets(), path@) {
                Some(data) => r matches Ok(found) && found@ == data,
                None => r matches Err(e) && e@ == ErrcodeView::ResourceNotFound(path@),
            },
    {
        match self.assets.get(path) {
            Some(data) => Ok(data),
            None => Err(Errcode::ResourceNotFound(path.to_owned())),
        }
    }

    /// The font at `index` in the pool, and nothing beyond the pool.
    pub fn get_font<'a>(&'a self, index: usize) -> (r: Option<&'a F>)
        ensures
            match r {
                Some(font) => index < self.fonts().len() && *font == self.fonts()[index as int],
                None => index >= self.fonts().len(),
            },
    {
        if index < self.fonts.len() {
            Some(&self.fonts[index])
        } else {
            None
        }
    }

    /// The number of fonts in the pool.
    pub fn font_count(&self) -> (n: usize)
        ensures
            n == self.fonts().len(),
    {
        self.fonts.len()
    }

    /// The day that lies `offset` whole days after the day of the second
    /// `now` since the start of 1970.
    pub fn get_datetime(&self, now: i64, offset: Option<i64>) -> (r: Option<CalendarDate>)
        ensures
            r == shifted_date(now, offset),
    {
        let days: i128 = match offset {
            Some(days) => days as i128,
            None => 0,
        };
        let moment: i128 = now as i128 + days * 86_400;
        if moment < i64::MIN as i128 || moment > i64::MAX as i128 {
            None
        } else {
            CalendarDate::from_timestamp(moment as i64)
        }
    }
}

impl<F> TypstWorld<F> {
    /// The fonts and assets that the world draws on.
    pub closed spec fn vault(&self) -> DocumentConfig<F> {
        self.vault
    }

    /// The style of the world.
    pub closed spec fn style(&self) -> Seq<(Seq<char>, Node)> {
        self.style@
    }

    /// The kind of document that the world is for.
    pub closed spec fn doctype(&self) -> DocumentType {
        self.doctype
    }

    /// The markup that goes to the typesetter, once there is one.
    pub closed spec fn markup(&self) -> Option<Seq<char>> {
        match self.source {
            Some(text) => Some(text@),
            None => None,
        }
    }

    /// The world for a document of the kind `doctype`, with the given
    /// style, fonts and assets, and no markup yet.
    pub fn new(vault: DocumentConfig<F>, style: Style, doctype: DocumentType) -> (r: TypstWorld<F>)
        ensures
            r.vault() == vault,
            r.style() == style@,
            r.doctype() == doctype,
            r.markup() is None,
    {
        TypstWorld { vault, style, doctype, source: None }
    }

    /// Takes the markup of a document, puts the variables of the style in
    /// front of it, and keeps the result as the one source of this run.
    /// Gives that source.
    pub fn compile(&mut self, source: TypstData) -> (r: String)
        ensures
            r@ == full_source(old(self).style(), old(self).doctype(), source.code@),
            final(self).markup() == Some(r@),
            final(self).vault() == old(self).vault(),
            final(self).style() == old(self).style(),
            final(self).doctype() == old(self).doctype(),
    {
        let mut text = generate_style_variables(&self.style, self.doctype.to_string());
        text.append("\n");
        text.append(source.code.as_str());
        text.append("\n");
        self.source = Some(text.clone());
        text
    }

    /// The markup of the run, once there is one.
    pub fn main<'a>(&'a self) -> (r: Option<&'a str>)
        ensures
            match r {
                Some(text) => self.markup() == Some(text@),
                None => self.markup() is None,
            },
    {
        match &self.source {
            Some(text) => Some(text.as_str()),
            None => None,
        }
    }

    /// The source with the id `id`. There is one source, the markup of the
    /// run; any other id is refused, and so is every id before there is
    /// markup.
    pub fn source<'a>(&'a self, id: &str) -> (r: Result<&'a str, Errcode>)
        ensures
            match r {
                Ok(text) => id@ == SOURCE_ID@ && self.markup() == Some(text@),
                Err(e) => (id@ != SOURCE_ID@ || self.markup() is None) && e@
                    == ErrcodeView::ResourceNotFound(id@),
            },
    {
        if *id == *SOURCE_ID {
            match &self.source {
                Some(text) => Ok(text.as_str()),
                None => Err(Errcode::ResourceNotFound(id.to_owned())),
            }
        } else {
            Err(Errcode::ResourceNotFound(id.to_owned()))
        }
    }

    /// What the file with the id `id` holds: the asset of that path. A path
    /// that the assets do not have is reported as a resource that is not
    /// found, with the path.
    pub fn file<'a>(&'a self, id: &str) -> (r: Result<&'a Vec<u8>, Errcode>)
        ensures
            match lookup(self.vault().assets(), id@) {
                Some(data) => r matches Ok(found) && found@ == data,
                None => r matches Err(e) && e@ == ErrcodeView::ResourceNotFound(id@),
            },
    {
        self.vault.get_asset(id)
    }

    /// The font at `index` in the pool, and nothing beyond the pool: that
    /// is how the typesetter learns the size of the pool.
    pub fn font<'a>(&'a self, index: usize) -> (r: Option<&'a F>)
        ensures
            match r {
                Some(font) => index < self.vault().fonts().len() && *font
                    == self.vault().fonts()[index as int],
                None => index >= self.vault().fonts().len(),
            },
    {
        self.vault.get_font(index)
    }

    /// The date of the second `now` since the start of 1970 where no
    /// offset is given, and else the day that lies `offset` whole days
    /// after it.
    pub fn today(&self, now: i64, offset: Option<i64>) -> (r: Option<CalendarDate>)
        ensures
            r == shifted_date(now, offset),
    {
        self.vault.get_datetime(now, offset)
    }
}

} // verus!
