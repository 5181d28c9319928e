//! Building blocks for text: appending, comparing and writing numbers.

use vstd::prelude::*;
use vstd::string::*;

verus! {

/// `String::push` of the standard library appends exactly one character to
/// the end of the string and leaves what was there untouched.
pub assume_specification[ String::push ](s: &mut String, c: char)
    ensures
        final(s)@ == old(s)@.push(c),
;

/// `==` on string slices of the standard library holds exactly when both
/// slices are the same sequence of characters.
pub assume_specification[ <str as PartialEq>::eq ](a: &str, b: &str) -> (r: bool)
    ensures
        r == (a@ == b@),
;

/// The lower-case form that the Unicode standard gives a text.
pub uninterp spec fn lowercase_text(s: Seq<char>) -> Seq<char>;

/// `str::to_lowercase` of the standard library gives the lower-case form of
/// a string slice. The contract names that form and says no more of it.
pub assume_specification[ str::to_lowercase ](s: &str) -> (r: String)
    ensures
        r@ == lowercase_text(s@),
;

/// The character that stands for the digit `d`.
pub open spec fn digit_char(d: int) -> char {
    if d == 0 {
        '0'
    } else if d == 1 {
        '1'
    } else if d == 2 {
        '2'
    } else if d == 3 {
        '3'
    } else if d == 4 {
        '4'
    } else if d == 5 {
        '5'
    } else if d == 6 {
        '6'
    } else if d == 7 {
        '7'
    } else if d == 8 {
        '8'
    } else {
        '9'
    }
}

/// The decimal numeral of `n`, without leading zeros.
pub open spec fn decimal_digits(n: nat) -> Seq<char>
    decreases n,
{
    if n < 10 {
        seq![digit_char(n as int)]
    } else {
        decimal_digits(n / 10).push(digit_char((n % 10) as int))
    }
}

/// `count` copies of the character `c`.
pub open spec fn repeated(c: char, count: nat) -> Seq<char> {
    Seq::new(count, |i: int| c)
}

/// `s`, preceded by as many `'0'` as it takes to reach `width` characters.
pub open spec fn zero_padded(s: Seq<char>, width: nat) -> Seq<char> {
    if s.len() >= width {
        s
    } else {
        repeated('0', (width - s.len()) as nat) + s
    }
}

/// Whether `s` begins with `prefix`.
pub open spec fn has_prefix(s: Seq<char>, prefix: Seq<char>) -> bool {
    prefix.len() <= s.len() && s.subrange(0, prefix.len() as int) == prefix
}

/// Whether `s` ends with `suffix`.
pub open spec fn has_suffix(s: Seq<char>, suffix: Seq<char>) -> bool {
    suffix.len() <= s.len() && s.subrange(s.len() - suffix.len(), s.len() as int) == suffix
}

/// The digit `d` as a character.
pub fn digit(d: u8) -> (c: char)
    requires
        d < 10,
    ensures
        c == digit_char(d as int),
{
    if d == 0 {
        '0'
    } else if d == 1 {
        '1'
    } else if d == 2 {
        '2'
    } else if d == 3 {
        '3'
    } else if d == 4 {
        '4'
    } else if d == 5 {
        '5'
    } else if d == 6 {
        '6'
    } else if d == 7 {
        '7'
    } else if d == 8 {
        '8'
    } else {
        '9'
    }
}

/// The characters of `s`, one by one.
pub fn chars_of(s: &str) -> (v: Vec<char>)
    ensures
        v@ == s@,
{
    let mut v: Vec<char> = Vec::new();
    for c in it: s.chars()
        invariant
            it.seq() == s@,
            v@ == s@.take(it.index() as int),
    {
        v.push(c);
        proof {
            assert(s@.take(it.index() + 1) =~= s@.take(it.index() as int).push(c));
        }
    }
    proof {
        assert(s@.take(s@.len() as int) =~= s@);
    }
    v
}

/// Appends the decimal numeral of `n` to `buf`.
pub fn push_decimal(buf: &mut String, n: u128)
    ensures
        final(buf)@ == old(buf)@ + decimal_digits(n as nat),
{
    let mut rev: Vec<char> = Vec::new();
    let mut rest: u128 = n;
    rev.push(digit((rest % 10) as u8));
    rest = rest / 10;
    // `tail` is what the digits collected so far spell, most significant first.
    let ghost mut tail: Seq<char> = seq![digit_char((n % 10) as int)];
    while rest > 0
        invariant
            rev@.len() == tail.len(),
            rev@.len() >= 1,
            forall|k: int| 0 <= k < tail.len() ==> tail[k] == rev@[tail.len() - 1 - k],
            decimal_digits(n as nat) == if rest == 0 {
                tail
            } else {
                decimal_digits(rest as nat) + tail
            },
        decreases rest,
    {
        let d = digit((rest % 10) as u8);
        proof {
            let lead = seq![digit_char((rest % 10) as int)];
            if rest >= 10 {
                assert(decimal_digits(rest as nat) + tail =~= decimal_digits(
                    (rest / 10) as nat,
                ) + (lead + tail));
            } else {
                assert(decimal_digits(rest as nat) + tail =~= lead + tail);
            }
            tail = lead + tail;
        }
        rev.push(d);
        rest = rest / 10;
    }
    let mut i: usize = rev.len();
    while i > 0
        invariant
            i <= rev.len(),
            rev@.len() == tail.len(),
            forall|k: int| 0 <= k < tail.len() ==> tail[k] == rev@[tail.len() - 1 - k],
            buf@ == old(buf)@ + tail.take(tail.len() - i),
        decreases i,
    {
        i = i - 1;
        buf.push(rev[i]);
        proof {
            assert(tail.take(tail.len() - i) =~= tail.take(tail.len() - i - 1).push(
                rev@[i as int],
            ));
        }
    }
    proof {
        assert(tail.take(tail.len() as int) =~= tail);
    }
}

/// Appends the decimal numeral of `n` to `buf`, with leading zeros up to
/// `width` characters.
pub fn push_zero_padded(buf: &mut String, n: u128, width: usize)
    ensures
        final(buf)@ == old(buf)@ + zero_padded(decimal_digits(n as nat), width as nat),
{
    let mut numeral = String::new();
    push_decimal(&mut numeral, n);
    let len = numeral.as_str().unicode_len();
    let ghost before = buf@;
    if len < width {
        let missing = width - len;
        let mut i: usize = 0;
        while i < missing
            invariant
                i <= missing,
                buf@ == before + repeated('0', i as nat),
            decreases missing - i,
        {
            buf.push('0');
            proof {
                assert(repeated('0', (i + 1) as nat) =~= repeated('0', i as nat).push('0'));
            }
            i = i + 1;
        }
    } else {
        proof {
            assert(before + repeated('0', 0) =~= before);
        }
    }
    buf.append(numeral.as_str());
    proof {
        let digits = decimal_digits(n as nat);
        if len < width {
            assert(buf@ =~= before + (repeated('0', (width - len) as nat) + digits));
        }
    }
}

/// `line` where it has at most `limit` characters, and else its first
/// `limit` characters and three dots.
pub open spec fn shortened(line: Seq<char>, limit: nat) -> Seq<char> {
    if line.len() > limit {
        line.take(limit as int) + "..."@
    } else {
        line
    }
}

/// `line` where it has at most `limit` characters, and else its first
/// `limit` characters and three dots.
pub fn shorten(line: String, limit: usize) -> (r: String)
    ensures
        r@ == shortened(line@, limit as nat),
{
    let cs = chars_of(line.as_str());
    if cs.len() <= limit {
        return line;
    }
    let mut out = String::new();
    let mut i: usize = 0;
    while i < limit
        invariant
            i <= limit < cs.len(),
            out@ == cs@.take(i as int),
        decreases limit - i,
    {
        out.push(cs[i]);
        proof {
            assert(cs@.take(i + 1) =~= cs@.take(i as int).push(cs@[i as int]));
        }
        i = i + 1;
    }
    out.append("...");
    out
}

/// Whether `s` begins with `prefix`.
pub fn starts_with(s: &Vec<char>, prefix: &Vec<char>) -> (r: bool)
    ensures
        r == has_prefix(s@, prefix@),
{
    if prefix.len() > s.len() {
        return false;
    }
    let mut i: usize = 0;
    while i < prefix.len()
        invariant
            i <= prefix.len(),
            prefix.len() <= s.len(),
            forall|k: int| 0 <= k < i ==> s@[k] == prefix@[k],
        decreases prefix.len() - i,
    {
        if s[i] != prefix[i] {
            proof {
                assert(s@.subrange(0, prefix.len() as int)[i as int] == s@[i as int]);
            }
            return false;
        }
        i = i + 1;
    }
    proof {
        assert(s@.subrange(0, prefix.len() as int) =~= prefix@);
    }
    true
}

/// Whether `s` ends with `suffix`.
pub fn ends_with(s: &Vec<char>, suffix: &Vec<char>) -> (r: bool)
    ensures
        r == has_suffix(s@, suffix@),
{
    if suffix.len() > s.len() {
        return false;
    }
    let shift = s.len() - suffix.len();
    let mut i: usize = 0;
    while i < suffix.len()
        invariant
            i <= suffix.len(),
            suffix.len() <= s.len(),
            shift == s.len() - suffix.len(),
            forall|k: int| 0 <= k < i ==> s@[shift + k] == suffix@[k],
        decreases suffix.len() - i,
    {
        if s[shift + i] != suffix[i] {
            proof {
                assert(s@.subrange(shift as int, s.len() as int)[i as int] == s@[shift + i]);
            }
            return false;
        }
        i = i + 1;
    }
    proof {
        assert(s@.subrange(shift as int, s.len() as int) =~= suffix@);
    }
    true
}

} // verus!
