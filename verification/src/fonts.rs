//! Fonts: the pool that the typesetter draws from, and the name under which
//! a font that is not installed is looked for.

use vstd::prelude::*;
use vstd::string::*;
use crate::errors::{Errcode, ErrcodeView};
use crate::sorted::lookup;
use crate::style::Style;
use crate::text::lowercase_text;
use crate::value::Node;

verus! {

/// Whether the Unicode standard counts a character as white space.
pub uninterp spec fn is_space(c: char) -> bool;

/// Whether the Unicode standard counts a character as a letter or a number.
pub uninterp spec fn is_letter_or_number(c: char) -> bool;

/// `char::is_whitespace` of the standard library tells whether a character
/// is white space. The contract names the answer and says no more of it.
pub assume_specification[ char::is_whitespace ](c: char) -> (r: bool)
    ensures
        r == is_space(c),
;

/// `char::is_alphanumeric` of the standard library tells whether a
/// character is a letter or a number. The contract names the answer and
/// says no more of it.
pub assume_specification[ char::is_alphanumeric ](c: char) -> (r: bool)
    ensures
        r == is_letter_or_number(c),
;

/// One entry of a directory: a file with what was read from it, or a
/// directory with its own entries, each under its name.
#[derive(Debug)]
pub enum Listing<T> {
    File(T),
    Directory(Vec<(String, Listing<T>)>),
}

/// The characters of `s` that are white space, letters or numbers.
pub open spec fn kept(s: Seq<char>) -> Seq<char>
    decreases s.len(),
{
    if s.len() == 0 {
        Seq::empty()
    } else if is_space(s.last()) || is_letter_or_number(s.last()) {
        kept(s.drop_last()).push(s.last())
    } else {
        kept(s.drop_last())
    }
}

/// `s` with every two spaces in a row, read from the left and none read
/// twice, made one.
pub open spec fn collapsed(s: Seq<char>) -> Seq<char>
    decreases s.len(),
{
    if s.len() == 0 {
        Seq::empty()
    } else if s.len() >= 2 && s[0] == ' ' && s[1] == ' ' {
        seq![' '] + collapsed(s.skip(2))
    } else {
        seq![s[0]] + collapsed(s.skip(1))
    }
}

/// `s` with an underscore for every space.
pub open spec fn underscored(s: Seq<char>) -> Seq<char> {
    Seq::new(
        s.len(),
        |i: int|
            if s[i] == ' ' {
                '_'
            } else {
                s[i]
            },
    )
}

/// `s` without its spaces.
pub open spec fn unspaced(s: Seq<char>) -> Seq<char>
    decreases s.len(),
{
    if s.len() == 0 {
        Seq::empty()
    } else if s.last() == ' ' {
        unspaced(s.drop_last())
    } else {
        unspaced(s.drop_last()).push(s.last())
    }
}

/// The name under which a font is looked for where fonts are offered for
/// download: only white space, letters and numbers are kept, two spaces in
/// a row become one, spaces become underscores, and letters become lower
/// case.
pub open spec fn download_name(name: Seq<char>) -> Seq<char> {
    lowercase_text(underscored(collapsed(kept(name))))
}

/// The faces of the files of a directory, in the order in which the
/// directory lists them, those of a directory within it where it stands.
pub open spec fn faces_of<F>(entries: Seq<(String, Listing<Vec<F>>)>, n: nat) -> Seq<F>
    decreases entries, n,
{
    if n == 0 || n > entries.len() {
        Seq::empty()
    } else {
        faces_of(entries, (n - 1) as nat) + match entries[n - 1].1 {
            Listing::File(faces) => faces@,
            Listing::Directory(inner) => faces_of(inner@, inner@.len()),
        }
    }
}

/// Whether one of `stems` is `name` without its spaces.
pub open spec fn is_installed(stems: Seq<String>, name: Seq<char>) -> bool {
    exists|i: int| 0 <= i < stems.len() && (#[trigger] stems[i])@ == unspaced(name)
}

/// Whether a reply agrees to a download: no reply does, and so does the
/// letter y in either case.
pub open spec fn agrees(reply: Seq<char>) -> bool {
    reply.len() == 0 || lowercase_text(reply) == "y"@
}

/// The name under which the font `name` is looked for where fonts are
/// offered for download.
pub fn dafont_name(name: &str) -> (r: String)
    ensures
        r@ == download_name(name@),
{
    let mut filtered: Vec<char> = Vec::new();
    for c in it: name.chars()
        invariant
            it.seq() == name@,
            filtered@ == kept(name@.take(it.index() as int)),
    {
        proof {
            assert(name@.take(it.index() + 1).drop_last() =~= name@.take(it.index() as int));
        }
        if c.is_whitespace() || c.is_alphanumeric() {
            filtered.push(c);
        }
    }
    proof {
        assert(name@.take(name@.len() as int) =~= name@);
    }
    let mut out = String::new();
    let n = filtered.len();
    let mut i: usize = 0;
    // `single` is what the characters read so far come to.
    let ghost mut single: Seq<char> = Seq::empty();
    proof {
        assert(filtered@.skip(0) =~= filtered@);
    }
    while i < n
        invariant
            i <= n,
            n == filtered@.len(),
            single + collapsed(filtered@.skip(i as int)) == collapsed(filtered@),
            out@ == underscored(single),
        decreases n - i,
    {
        let ghost rest = filtered@.skip(i as int);
        if filtered[i] == ' ' {
            out.push('_');
            if i + 1 < n && filtered[i + 1] == ' ' {
                proof {
                    assert(rest[0] == ' ' && rest[1] == ' ');
                    assert(rest.skip(2) =~= filtered@.skip(i + 2));
                    assert(single.push(' ') + collapsed(rest.skip(2)) =~= single + (seq![' ']
                        + collapsed(rest.skip(2))));
                }
                i = i + 2;
            } else {
                proof {
                    assert(rest[0] == ' ');
                    if rest.len() >= 2 {
                        assert(rest[1] == filtered@[i + 1]);
                    }
                    assert(rest.skip(1) =~= filtered@.skip(i + 1));
                    assert(single.push(' ') + collapsed(rest.skip(1)) =~= single + (seq![' ']
                        + collapsed(rest.skip(1))));
                }
                i = i + 1;
            }
            proof {
                assert(underscored(single.push(' ')) =~= underscored(single).push('_'));
                single = single.push(' ');
            }
        } else {
            let c = filtered[i];
            out.push(c);
            proof {
                assert(rest[0] == c);
                assert(rest.skip(1) =~= filtered@.skip(i + 1));
                assert(single.push(c) + collapsed(rest.skip(1)) =~= single + (seq![c] + collapsed(
                    rest.skip(1),
                )));
                assert(underscored(single.push(c)) =~= underscored(single).push(c));
                single = single.push(c);
            }
            i = i + 1;
        }
    }
    proof {
        assert(filtered@.skip(n as int) =~= Seq::<char>::empty());
        assert(single + Seq::<char>::empty() =~= single);
    }
    out.as_str().to_lowercase()
}

/// `name` without its spaces.
pub fn without_spaces(name: &str) -> (r: String)
    ensures
        r@ == unspaced(name@),
{
    let mut out = String::new();
    for c in it: name.chars()
        invariant
            it.seq() == name@,
            out@ == unspaced(name@.take(it.index() as int)),
    {
        proof {
            assert(name@.take(it.index() + 1).drop_last() =~= name@.take(it.index() as int));
        }
        if c != ' ' {
            out.push(c);
        }
    }
    proof {
        assert(name@.take(name@.len() as int) =~= name@);
    }
    out
}

/// Whether the font `name` is among the fonts whose files have the names
/// `stems`, extensions left off: a font is installed under its name without
/// spaces.
pub fn ensure_font_exist(stems: &Vec<String>, name: &str) -> (exists: bool)
    ensures
        exists == is_installed(stems@, name@),
{
    let wanted = without_spaces(name);
    let mut i: usize = 0;
    while i < stems.len()
        invariant
            i <= stems.len(),
            wanted@ == unspaced(name@),
            forall|k: int| 0 <= k < i ==> (#[trigger] stems@[k])@ != wanted@,
        decreases stems.len() - i,
    {
        if stems[i] == wanted {
            return true;
        }
        i = i + 1;
    }
    false
}

/// Whether the operator's reply agrees to the download of a font.
pub fn download_wanted(reply: &str) -> (r: bool)
    ensures
        r == agrees(reply@),
{
    if reply.is_empty() {
        true
    } else {
        let lowered = reply.to_lowercase();
        *lowered.as_str() == *"y"
    }
}

/// The font that is to be offered for download: the font that the style
/// names, unless it is installed. A style that names no font is an error.
pub fn get_all_fonts(style: &Style, stems: &Vec<String>) -> (r: Result<Option<String>, Errcode>)
    ensures
        match font_of_style(style@) {
            Ok(name) => r matches Ok(missing) && if is_installed(stems@, name) {
                missing is None
            } else {
                missing matches Some(found) && found@ == name
            },
            Err(e) => r matches Err(x) && x@ == e,
        },
{
    let name = match style.get("font_name") {
        Some(item) => match item.as_str() {
            Some(name) => name,
            None => {
                return Err(Errcode::InvalidConfig("style", "font_name".to_owned()));
            },
        },
        None => {
            return Err(Errcode::InvalidConfig("style", "font_name".to_owned()));
        },
    };
    if ensure_font_exist(stems, name) {
        Ok(None)
    } else {
        Ok(Some(name.to_owned()))
    }
}

/// The name of the font that `style` asks for.
pub open spec fn font_of_style(style: Seq<(Seq<char>, Node)>) -> Result<
    Seq<char>,
    ErrcodeView,
> {
    match lookup(style, "font_name"@) {
        Some(Node::Text(name)) => Ok(name),
        _ => Err(ErrcodeView::InvalidConfig("style"@, "font_name"@)),
    }
}

/// The faces of all font files below a directory, in the order in which the
/// directories list their entries. This order is the order of the pool.
pub fn import_fonts<F>(fonts_dir: Vec<(String, Listing<Vec<F>>)>) -> (r: Vec<F>)
    ensures
        r@ == faces_of(fonts_dir@, fonts_dir@.len()),
    decreases fonts_dir,
{
    let mut all_fonts: Vec<F> = Vec::new();
    let ghost entries = fonts_dir@;
    proof {
        assert(decreases_to!(fonts_dir => fonts_dir@));
    }
    for entry in it: fonts_dir
        invariant
            it.seq() == entries,
            decreases_to!(fonts_dir => entries),
            all_fonts@ == faces_of(entries, it.index() as nat),
    {
        let ghost n = it.index() as int;
        let ghost before = all_fonts@;
        let (_, listing) = entry;
        match listing {
            Listing::File(mut faces) => {
                all_fonts.append(&mut faces);
            },
            Listing::Directory(inner) => {
                proof {
                    assert(decreases_to!(entries => entries[n]));
                    assert(decreases_to!(entries[n] => entries[n].1));
                    assert(decreases_to!(entries[n].1 => entries[n].1->Directory_0));
                }
                let mut faces = import_fonts(inner);
                all_fonts.append(&mut faces);
            },
        }
        proof {
            assert(all_fonts@ =~= faces_of(entries, (n + 1) as nat));
        }
    }
    all_fonts
}

} // verus!
