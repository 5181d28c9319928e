//! Contacts: who receives documents. Each contact is known by its slug, a
//! short name in lower case without spaces, and keeps the list of the
//! invoices made out to it.

use vstd::prelude::*;
use vstd::string::*;
use crate::errors::{Errcode, ErrcodeView};
use crate::sorted::{ascending, lookup, registered, with_entry, SlugMap};

verus! {

/// A recipient of documents.
#[derive(Debug)]
pub struct Contact {
    pub slug: String,
    pub name: String,
    pub address: String,
    invoices: Vec<usize>,
    quotations: Vec<usize>,
}

/// A contact as mathematics.
pub struct ContactView {
    pub slug: Seq<char>,
    pub name: Seq<char>,
    pub address: Seq<char>,
    pub invoices: Seq<usize>,
    pub quotations: Seq<usize>,
}

/// The register of contacts, by slug.
#[derive(Debug)]
pub struct ContactBook(SlugMap<Contact>);

/// The lower-case letter of an upper-case letter of the basic alphabet, and
/// any other character itself.
pub open spec fn ascii_lower(c: char) -> char {
    if 'A' <= c <= 'Z' {
        ((c as u8) + 32) as char
    } else {
        c
    }
}

/// What stands for one character of an operator's reply in a slug: letters
/// of the basic alphabet in lower case, an underscore for a space.
pub open spec fn slug_char(c: char) -> char {
    if c == ' ' {
        '_'
    } else {
        ascii_lower(c)
    }
}

/// The slug that the reply `reply` asks for.
pub open spec fn normalized(reply: Seq<char>) -> Seq<char> {
    Seq::new(reply.len(), |i: int| slug_char(reply[i]))
}

/// A contact that has received nothing yet.
pub open spec fn fresh_contact(slug: Seq<char>, name: Seq<char>, address: Seq<char>)
    -> ContactView {
    ContactView { slug, name, address, invoices: Seq::empty(), quotations: Seq::empty() }
}

/// The entries of a register as mathematics.
pub open spec fn entries_view(entries: Seq<(String, Contact)>) -> Seq<(Seq<char>, ContactView)> {
    Seq::new(entries.len(), |i: int| (entries[i].0@, entries[i].1@))
}

/// The register `book` once `slug` is known in it: as it stands where the
/// slug has a contact, with a new contact of the given name and address
/// where it has none, and an error where it has none and none is given.
pub open spec fn book_with_contact(
    book: Seq<(Seq<char>, ContactView)>,
    slug: Seq<char>,
    newcomer: Option<(Seq<char>, Seq<char>)>,
) -> Result<Seq<(Seq<char>, ContactView)>, ErrcodeView> {
    if lookup(book, slug) is Some {
        Ok(book)
    } else {
        match newcomer {
            Some((name, address)) => Ok(
                with_entry(book, slug, fresh_contact(slug, name, address)),
            ),
            None => Err(ErrcodeView::ContactNotFound(slug)),
        }
    }
}

/// The register `book` with the invoice `id` added to the list of the
/// contact of `slug`, where there is one.
pub open spec fn book_with_invoice(book: Seq<(Seq<char>, ContactView)>, slug: Seq<char>, id: usize)
    -> Seq<(Seq<char>, ContactView)> {
    match lookup(book, slug) {
        Some(contact) => with_entry(
            book,
            slug,
            ContactView { invoices: contact.invoices.push(id), ..contact },
        ),
        None => book,
    }
}

/// The pair of texts as mathematics.
pub open spec fn pair_view(pair: Option<(String, String)>) -> Option<(Seq<char>, Seq<char>)> {
    match pair {
        Some((a, b)) => Some((a@, b@)),
        None => None,
    }
}

impl View for Contact {
    type V = ContactView;

    closed spec fn view(&self) -> ContactView {
        ContactView {
            slug: self.slug@,
            name: self.name@,
            address: self.address@,
            invoices: self.invoices@,
            quotations: self.quotations@,
        }
    }
}

/// A copy of the numbers `v`.
pub fn copy_numbers(v: &Vec<usize>) -> (r: Vec<usize>)
    ensures
        r@ == v@,
{
    let mut out: Vec<usize> = Vec::new();
    let mut i: usize = 0;
    while i < v.len()
        invariant
            i <= v.len(),
            out@ == v@.take(i as int),
        decreases v.len() - i,
    {
        out.push(v[i]);
        proof {
            assert(v@.take(i + 1) =~= v@.take(i as int).push(v@[i as int]));
        }
        i = i + 1;
    }
    proof {
        assert(v@.take(v.len() as int) =~= v@);
    }
    out
}

impl Contact {
    /// A new contact. Its slug is `slug` where one is given, and else the
    /// slug that `slug_reply` asks for; `name` and `address` are the
    /// operator's replies.
    pub fn ask(slug: Option<String>, slug_reply: &str, name: &str, address: &str) -> (r: Contact)
        ensures
            r@ == fresh_contact(
                match slug {
                    Some(s) => s@,
                    None => normalized(slug_reply@),
                },
                name@,
                address@,
            ),
    {
        let slug = match slug {
            Some(s) => s,
            None => Contact::ask_slug(slug_reply),
        };
        Contact {
            slug,
            name: name.to_owned(),
            address: address.to_owned(),
            invoices: Vec::new(),
            quotations: Vec::new(),
        }
    }

    /// The contact made of the given parts, as a file of contacts lists
    /// them.
    pub fn from_parts(
        slug: String,
        name: String,
        address: String,
        invoices: Vec<usize>,
        quotations: Vec<usize>,
    ) -> (r: Contact)
        ensures
            r@ == (ContactView {
                slug: slug@,
                name: name@,
                address: address@,
                invoices: invoices@,
                quotations: quotations@,
            }),
    {
        Contact { slug, name, address, invoices, quotations }
    }

    /// The slug that the operator's reply asks for: its letters of the
    /// basic alphabet in lower case, its spaces as underscores.
    pub fn ask_slug(reply: &str) -> (r: String)
        ensures
            r@ == normalized(reply@),
    {
        let mut out = String::new();
        for c in it: reply.chars()
            invariant
                it.seq() == reply@,
                out@ == normalized(reply@.take(it.index() as int)),
        {
            let ghost n = it.index() as int;
            if c == ' ' {
                out.push('_');
            } else if 'A' <= c && c <= 'Z' {
                out.push(((c as u8) + 32) as char);
            } else {
                out.push(c);
            }
            proof {
                assert(normalized(reply@.take(n + 1)) =~= normalized(reply@.take(n)).push(
                    slug_char(c),
                ));
            }
        }
        proof {
            assert(reply@.take(reply@.len() as int) =~= reply@);
        }
        out
    }

    /// The slug of this contact.
    pub fn slug(&self) -> (r: &str)
        ensures
            r@ == self@.slug,
    {
        self.slug.as_str()
    }

    /// The name of this contact.
    pub fn name(&self) -> (r: &str)
        ensures
            r@ == self@.name,
    {
        self.name.as_str()
    }

    /// The address of this contact.
    pub fn address(&self) -> (r: &str)
        ensures
            r@ == self@.address,
    {
        self.address.as_str()
    }

    /// The invoices made out to this contact, by their ids.
    pub fn invoices(&self) -> (r: &Vec<usize>)
        ensures
            r@ == self@.invoices,
    {
        &self.invoices
    }

    /// The quotations made out to this contact.
    pub fn quotations(&self) -> (r: &Vec<usize>)
        ensures
            r@ == self@.quotations,
    {
        &self.quotations
    }

    /// A copy of this contact.
    pub fn copy(&self) -> (r: Contact)
        ensures
            r@ == self@,
    {
        Contact {
            slug: self.slug.clone(),
            name: self.name.clone(),
            address: self.address.clone(),
            invoices: copy_numbers(&self.invoices),
            quotations: copy_numbers(&self.quotations),
        }
    }

    /// This contact with the invoice `id` added to its list.
    pub fn with_invoice(self, id: usize) -> (r: Contact)
        ensures
            r@ == (ContactView { invoices: self@.invoices.push(id), ..self@ }),
    {
        let mut invoices = self.invoices;
        invoices.push(id);
        Contact {
            slug: self.slug,
            name: self.name,
            address: self.address,
            invoices,
            quotations: self.quotations,
        }
    }
}

impl ContactBook {
    /// The contacts by slug, in the order of their slugs.
    pub closed spec fn view(&self) -> Seq<(Seq<char>, ContactView)> {
        self.0@
    }

    /// A register without contacts.
    pub fn new() -> (r: ContactBook)
        ensures
            r@ == Seq::<(Seq<char>, ContactView)>::empty(),
    {
        ContactBook(SlugMap::new())
    }

    /// The name of the file that keeps the register.
    pub fn fname() -> (r: String)
        ensures
            r@ == "contacts.json"@,
    {
        "contacts.json".to_owned()
    }

    /// The number of contacts.
    pub fn len(&self) -> (n: usize)
        ensures
            n == self@.len(),
            ascending(self@),
    {
        self.0.len()
    }

    /// The contact of `slug`, or the error that there is none.
    pub fn get<'a>(&'a self, slug: &String) -> (r: Result<&'a Contact, Errcode>)
        ensures
            match lookup(self@, slug@) {
                Some(contact) => r matches Ok(found) && found@ == contact,
                None => r matches Err(e) && e@ == ErrcodeView::ContactNotFound(slug@),
            },
    {
        match self.0.get(slug.as_str()) {
            Some(contact) => Ok(contact),
            None => Err(Errcode::ContactNotFound(slug.clone())),
        }
    }

    /// The contact of `slug`. Where the register has none, the contact is
    /// made from the name and address of `newcomer` and added; where none
    /// is given either, that is an error and the register stays as it is.
    pub fn get_or_add(&mut self, slug: &String, newcomer: Option<(String, String)>) -> (r: Result<
        Contact,
        Errcode,
    >)
        ensures
            match book_with_contact(old(self)@, slug@, pair_view(newcomer)) {
                Ok(book) => r matches Ok(contact) && lookup(book, slug@) == Some(contact@)
                    && final(self)@ == book,
                Err(e) => r matches Err(x) && x@ == e && final(self)@ == old(self)@,
            },
    {
        let ghost before = self@;
        let _ = self.len();
        if let Some(contact) = self.0.get(slug.as_str()) {
            return Ok(contact.copy());
        }
        match newcomer {
            Some((name, address)) => {
                let contact = Contact::ask(Some(slug.clone()), "", name.as_str(), address.as_str());
                let copy = contact.copy();
                self.0.insert(slug.clone(), contact);
                proof {
                    crate::sorted::lemma_with_entry(before, slug@, copy@, slug@);
                }
                Ok(copy)
            },
            None => Err(Errcode::ContactNotFound(slug.clone())),
        }
    }

    /// Adds the invoice `id` to the list of the contact of `slug`, where
    /// there is one.
    pub fn record_invoice(&mut self, slug: &str, id: usize)
        ensures
            final(self)@ == book_with_invoice(old(self)@, slug@, id),
    {
        let updated = match self.0.get(slug) {
            Some(contact) => Some(contact.copy().with_invoice(id)),
            None => None,
        };
        match updated {
            Some(contact) => {
                self.0.insert(slug.to_owned(), contact);
            },
            None => {},
        }
    }

    /// The register that holds the given entries, as a file of contacts
    /// lists them: a later entry takes the place of an earlier one of the
    /// same slug.
    pub fn import(entries: Vec<(String, Contact)>) -> (r: ContactBook)
        ensures
            r@ == registered(entries_view(entries@)),
    {
        proof {
            assert(entries_view(entries@) =~= crate::sorted::keyed_view(entries@));
        }
        ContactBook(SlugMap::from_entries(entries))
    }

    /// The entries of the register, in the order of their slugs.
    pub fn export(&self) -> (r: Vec<(String, Contact)>)
        ensures
            entries_view(r@) == self@,
    {
        let mut out: Vec<(String, Contact)> = Vec::new();
        let n = self.0.len();
        let mut i: usize = 0;
        while i < n
            invariant
                i <= n,
                n == self@.len(),
                entries_view(out@) == self@.take(i as int),
            decreases n - i,
        {
            let ghost before = out@;
            out.push((self.0.key_at(i).to_owned(), self.0.item_at(i).copy()));
            proof {
                assert(entries_view(out@) =~= entries_view(before).push(self@[i as int]));
                assert(self@.take(i + 1) =~= self@.take(i as int).push(self@[i as int]));
            }
            i = i + 1;
        }
        proof {
            assert(self@.take(n as int) =~= self@);
        }
        out
    }
}

} // verus!
