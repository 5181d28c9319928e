//! Exact decimal quantities: units, prices and rates are counted in
//! ten-thousandths, so that sums and products of what an operator typed are
//! computed without rounding. Rounding happens once, when an amount is shown.

use vstd::prelude::*;
use vstd::string::*;
use crate::text::{chars_of, decimal_digits, push_decimal, push_zero_padded, zero_padded};

verus! {

/// How many raw steps make one: a `Decimal` counts ten-thousandths.
pub const SCALE: i64 = 10_000;

/// How many digits may follow the decimal point.
pub const FRACTION_DIGITS: usize = 4;

/// The largest magnitude of a `Decimal`, in raw steps: ten million. The
/// limits of this module follow from what a 128-bit number holds: the tax on
/// a document is lines times units times price times rate, so the number of
/// lines times the cube of this limit has to stay below it
/// (`lemma_limits_fit`).
pub const MAX_RAW: i64 = 100_000_000_000;

/// The largest whole part of a `Decimal`.
pub const MAX_WHOLE: i64 = 10_000_000;

/// A decimal number with four digits after the point, between minus ten
/// million and ten million.
#[derive(Clone, Copy, Debug)]
pub struct Decimal {
    raw: i64,
}

/// The value of a digit character, and -1 for any other character.
pub open spec fn digit_value(c: char) -> int {
    if c == '0' {
        0
    } else if c == '1' {
        1
    } else if c == '2' {
        2
    } else if c == '3' {
        3
    } else if c == '4' {
        4
    } else if c == '5' {
        5
    } else if c == '6' {
        6
    } else if c == '7' {
        7
    } else if c == '8' {
        8
    } else if c == '9' {
        9
    } else {
        -1
    }
}

/// Whether every character of `s` is a digit.
pub open spec fn all_digits(s: Seq<char>) -> bool {
    forall|i: int| 0 <= i < s.len() ==> digit_value(#[trigger] s[i]) >= 0
}

/// The number that the digits `s` spell; 0 for no digits.
pub open spec fn numeral_value(s: Seq<char>) -> int
    decreases s.len(),
{
    if s.len() == 0 {
        0
    } else {
        numeral_value(s.drop_last()) * 10 + digit_value(s.last())
    }
}

/// Ten to the power `e`.
pub open spec fn pow10(e: nat) -> int
    decreases e,
{
    if e == 0 {
        1
    } else {
        10 * pow10((e - 1) as nat)
    }
}

/// The position of the first `'.'` in `s`, or the length of `s` if it holds
/// none.
pub open spec fn point_at(s: Seq<char>) -> int
    decreases s.len(),
{
    if s.len() == 0 || s[0] == '.' {
        0
    } else {
        1 + point_at(s.skip(1))
    }
}

/// Whether `s` begins with a sign.
pub open spec fn is_signed(s: Seq<char>) -> bool {
    s.len() > 0 && (s[0] == '-' || s[0] == '+')
}

/// `s` without its sign.
pub open spec fn unsigned_part(s: Seq<char>) -> Seq<char> {
    if is_signed(s) {
        s.skip(1)
    } else {
        s
    }
}

/// The digits before the point of the unsigned numeral `body`.
pub open spec fn whole_part(body: Seq<char>) -> Seq<char> {
    body.take(point_at(body))
}

/// The digits after the point of the unsigned numeral `body`.
pub open spec fn fraction_part(body: Seq<char>) -> Seq<char> {
    if point_at(body) < body.len() {
        body.skip(point_at(body) + 1)
    } else {
        Seq::empty()
    }
}

/// The magnitude in raw steps that the unsigned numeral `body` denotes:
/// digits, then optionally a point and at most four digits, with at least
/// one digit in all.
pub open spec fn decimal_magnitude(body: Seq<char>) -> Option<int> {
    let whole = whole_part(body);
    let fraction = fraction_part(body);
    if all_digits(whole) && all_digits(fraction) && whole.len() + fraction.len() > 0
        && fraction.len() <= FRACTION_DIGITS {
        Some(
            numeral_value(whole) * SCALE + numeral_value(fraction) * pow10(
                (FRACTION_DIGITS - fraction.len()) as nat,
            ),
        )
    } else {
        None
    }
}

/// The raw value that the text `s` denotes, if it is a decimal numeral with
/// an optional sign whose magnitude is at most ten million.
pub open spec fn decimal_value(s: Seq<char>) -> Option<int> {
    match decimal_magnitude(unsigned_part(s)) {
        Some(m) => if m <= MAX_RAW {
            Some(
                if s[0] == '-' {
                    -m
                } else {
                    m
                },
            )
        } else {
            None
        },
        None => None,
    }
}

/// The four digits of `fraction` without the zeros at their end.
pub open spec fn trimmed_fraction(fraction: nat) -> Seq<char>
    recommends
        0 < fraction < 10_000,
{
    if fraction % 1000 == 0 {
        decimal_digits(fraction / 1000)
    } else if fraction % 100 == 0 {
        zero_padded(decimal_digits(fraction / 100), 2)
    } else if fraction % 10 == 0 {
        zero_padded(decimal_digits(fraction / 10), 3)
    } else {
        zero_padded(decimal_digits(fraction), 4)
    }
}

/// The shortest numeral of the raw value `raw`: no point when it is whole,
/// no zeros at the end of the fraction.
pub open spec fn plain_text(raw: int) -> Seq<char> {
    let magnitude = if raw < 0 {
        -raw
    } else {
        raw
    };
    let sign = if raw < 0 {
        seq!['-']
    } else {
        Seq::<char>::empty()
    };
    let whole = decimal_digits((magnitude / SCALE as int) as nat);
    let fraction = magnitude % (SCALE as int);
    if fraction == 0 {
        sign + whole
    } else {
        sign + whole + seq!['.'] + trimmed_fraction(fraction as nat)
    }
}

/// `value` in hundredths, where `unit` raw steps make one hundredth and a
/// remainder of half a hundredth or more rounds away from zero.
pub open spec fn rounded_hundredths(value: int, unit: int) -> int
    recommends
        unit >= 1,
{
    if value >= 0 {
        (value + unit / 2) / unit
    } else {
        -((-value + unit / 2) / unit)
    }
}

/// The numeral with exactly two digits after the point of `hundredths`
/// hundredths.
pub open spec fn hundredths_text(hundredths: int) -> Seq<char> {
    let magnitude = if hundredths < 0 {
        -hundredths
    } else {
        hundredths
    };
    let sign = if hundredths < 0 {
        seq!['-']
    } else {
        Seq::<char>::empty()
    };
    sign + decimal_digits((magnitude / 100) as nat) + seq!['.'] + zero_padded(
        decimal_digits((magnitude % 100) as nat),
        2,
    )
}

/// `value` shown with two digits after the point, where `unit` raw steps
/// make one hundredth.
pub open spec fn fixed2_text(value: int, unit: int) -> Seq<char> {
    hundredths_text(rounded_hundredths(value, unit))
}

/// If no character before `p` is a point and `p` is the end of `s` or holds
/// a point, the first point of `s` is at `p`.
pub proof fn lemma_point_at(s: Seq<char>, p: int)
    requires
        0 <= p <= s.len(),
        forall|k: int| 0 <= k < p ==> s[k] != '.',
        p == s.len() || s[p] == '.',
    ensures
        point_at(s) == p,
    decreases p,
{
    if p > 0 {
        let rest = s.skip(1);
        assert forall|k: int| 0 <= k < p - 1 implies rest[k] != '.' by {
            assert(rest[k] == s[k + 1]);
        }
        lemma_point_at(rest, p - 1);
    }
}

/// The number that digits spell does not shrink when more digits follow.
pub proof fn lemma_numeral_prefix(s: Seq<char>, k: int)
    requires
        all_digits(s),
        0 <= k <= s.len(),
    ensures
        0 <= numeral_value(s.take(k)) <= numeral_value(s),
    decreases s.len() - k,
{
    if k == s.len() {
        assert(s.take(k) =~= s);
        lemma_numeral_bounds(s);
    } else {
        lemma_numeral_prefix(s, k + 1);
        assert(s.take(k + 1).drop_last() =~= s.take(k));
        assert(digit_value(s.take(k + 1).last()) >= 0) by {
            assert(s.take(k + 1).last() == s[k]);
        }
        lemma_numeral_bounds(s.take(k));
    }
}

/// Digits spell a number that is not negative.
pub proof fn lemma_numeral_bounds(s: Seq<char>)
    requires
        all_digits(s),
    ensures
        numeral_value(s) >= 0,
    decreases s.len(),
{
    if s.len() > 0 {
        assert forall|i: int| 0 <= i < s.drop_last().len() implies digit_value(
            #[trigger] s.drop_last()[i],
        ) >= 0 by {
            assert(s.drop_last()[i] == s[i]);
        }
        lemma_numeral_bounds(s.drop_last());
        assert(digit_value(s.last()) >= 0) by {
            assert(s.last() == s[s.len() - 1]);
        }
    }
}

/// The value of the digit `c`, if it is one.
pub fn digit_of(c: char) -> (r: Option<u8>)
    ensures
        match r {
            Some(d) => d as int == digit_value(c) && d < 10,
            None => digit_value(c) < 0,
        },
{
    if c == '0' {
        Some(0)
    } else if c == '1' {
        Some(1)
    } else if c == '2' {
        Some(2)
    } else if c == '3' {
        Some(3)
    } else if c == '4' {
        Some(4)
    } else if c == '5' {
        Some(5)
    } else if c == '6' {
        Some(6)
    } else if c == '7' {
        Some(7)
    } else if c == '8' {
        Some(8)
    } else if c == '9' {
        Some(9)
    } else {
        None
    }
}

/// `fraction`, read from `places` digits after the point, in ten-thousandths.
fn scale_fraction(fraction: i64, places: usize) -> (r: i64)
    requires
        places <= FRACTION_DIGITS,
        0 <= fraction < pow10(places as nat),
    ensures
        r == fraction * pow10((FRACTION_DIGITS - places) as nat),
        0 <= r < SCALE,
{
    proof {
        reveal_with_fuel(pow10, 6);
        assert(pow10(0) == 1);
        assert(pow10(1) == 10);
        assert(pow10(2) == 100);
        assert(pow10(3) == 1000);
        assert(pow10(4) == 10000);
    }
    if places == 0 {
        0
    } else if places == 1 {
        fraction * 1000
    } else if places == 2 {
        fraction * 100
    } else if places == 3 {
        fraction * 10
    } else {
        fraction
    }
}

impl Decimal {
    #[verifier::type_invariant]
    spec fn in_range(self) -> bool {
        -MAX_RAW <= self.raw <= MAX_RAW
    }

    /// The number of ten-thousandths that this decimal stands for.
    pub closed spec fn view(&self) -> int {
        self.raw as int
    }

    /// The decimal of `raw` ten-thousandths, if that is within range.
    pub fn from_raw(raw: i64) -> (r: Option<Decimal>)
        ensures
            r is Some <==> -MAX_RAW <= raw <= MAX_RAW,
            r matches Some(d) ==> d@ == raw,
    {
        if -MAX_RAW <= raw && raw <= MAX_RAW {
            Some(Decimal { raw })
        } else {
            None
        }
    }

    /// Zero.
    pub fn zero() -> (r: Decimal)
        ensures
            r@ == 0,
    {
        Decimal { raw: 0 }
    }

    /// The number of ten-thousandths that this decimal stands for.
    pub fn raw(&self) -> (r: i64)
        ensures
            r == self@,
            -MAX_RAW <= r <= MAX_RAW,
    {
        proof {
            use_type_invariant(self);
        }
        self.raw
    }

    /// Reads a decimal numeral: an optional sign, digits, and optionally a
    /// point with up to four digits. Anything else, and any number beyond
    /// ten million, is refused.
    pub fn parse(text: &str) -> (r: Option<Decimal>)
        ensures
            match r {
                Some(d) => decimal_value(text@) == Some(d@),
                None => decimal_value(text@) is None,
            },
    {
        let cs = chars_of(text);
        let n = cs.len();
        let mut negative = false;
        let mut start: usize = 0;
        if n > 0 && (cs[0] == '-' || cs[0] == '+') {
            negative = cs[0] == '-';
            start = 1;
        }
        let ghost body = unsigned_part(text@);
        proof {
            assert(body =~= text@.skip(start as int));
        }
        // The digits before the point.
        let mut i: usize = start;
        let mut whole: i64 = 0;
        while i < n && cs[i] != '.'
            invariant
                start <= i <= n,
                n == cs@.len(),
                cs@ == text@,
                body == text@.skip(start as int),
                body == unsigned_part(text@),
                forall|k: int| 0 <= k < i - start ==> body[k] != '.',
                all_digits(body.take(i - start)),
                whole == numeral_value(body.take(i - start)),
                0 <= whole <= MAX_WHOLE,
            decreases n - i,
        {
            let ghost seen = body.take(i - start);
            let ghost next = body.take(i - start + 1);
            proof {
                assert(next.drop_last() =~= seen);
                assert(next.last() == cs@[i as int]);
                assert(body[i - start] == cs@[i as int]);
            }
            match digit_of(cs[i]) {
                None => {
                    proof {
                        // Whatever follows, the digits before the point hold
                        // a character that is no digit.
                        lemma_point_at_lower(body, i - start + 1);
                        assert(whole_part(body)[i - start] == body[i - start]);
                    }
                    return None;
                },
                Some(d) => {
                    proof {
                        assert forall|k: int| 0 <= k < next.len() implies digit_value(
                            #[trigger] next[k],
                        ) >= 0 by {
                            if k < seen.len() {
                                assert(next[k] == seen[k]);
                            }
                        }
                    }
                    whole = whole * 10 + d as i64;
                    if whole > MAX_WHOLE {
                        proof {
                            lemma_point_at_lower(body, i - start + 1);
                            let w = whole_part(body);
                            let f = fraction_part(body);
                            if all_digits(w) && all_digits(f) {
                                assert(w.take(i - start + 1) =~= next);
                                lemma_numeral_prefix(w, i - start + 1);
                                lemma_numeral_bounds(f);
                                lemma_pow10_positive((FRACTION_DIGITS - f.len()) as nat);
                                assert(numeral_value(f) * pow10(
                                    (FRACTION_DIGITS - f.len()) as nat,
                                ) >= 0) by (nonlinear_arith)
                                    requires
                                        numeral_value(f) >= 0,
                                        pow10((FRACTION_DIGITS - f.len()) as nat) >= 1,
                                ;
                            }
                        }
                        return None;
                    }
                },
            }
            i = i + 1;
        }
        proof {
            lemma_point_at(body, i - start);
            assert(whole_part(body) =~= body.take(i - start));
        }
        // The digits after the point.
        let mut fraction: i64 = 0;
        let mut places: usize = 0;
        let ghost tail = fraction_part(body);
        if i < n {
            let first = i + 1;
            proof {
                assert(tail =~= text@.skip(first as int));
            }
            let mut j: usize = first;
            while j < n
                invariant
                    first <= j <= n,
                    n == cs@.len(),
                    cs@ == text@,
                    tail == text@.skip(first as int),
                    tail == fraction_part(body),
                    body == unsigned_part(text@),
                    places == j - first,
                    places <= FRACTION_DIGITS,
                    all_digits(tail.take(places as int)),
                    fraction == numeral_value(tail.take(places as int)),
                    0 <= fraction < pow10(places as nat),
                decreases n - j,
            {
                let ghost seen = tail.take(places as int);
                let ghost next = tail.take(places + 1);
                proof {
                    assert(next.drop_last() =~= seen);
                    assert(next.last() == cs@[j as int]);
                    reveal_with_fuel(pow10, 6);
                }
                if places == FRACTION_DIGITS {
                    return None;
                }
                match digit_of(cs[j]) {
                    None => {
                        proof {
                            assert(tail[places as int] == cs@[j as int]);
                        }
                        return None;
                    },
                    Some(d) => {
                        proof {
                            assert forall|k: int| 0 <= k < next.len() implies digit_value(
                                #[trigger] next[k],
                            ) >= 0 by {
                                if k < seen.len() {
                                    assert(next[k] == seen[k]);
                                }
                            }
                        }
                        fraction = fraction * 10 + d as i64;
                    },
                }
                places = places + 1;
                j = j + 1;
            }
            proof {
                assert(tail.take(places as int) =~= tail);
            }
        } else {
            proof {
                assert(tail.take(0) =~= tail);
            }
        }
        if (i - start) + places == 0 {
            return None;
        }
        let scaled = scale_fraction(fraction, places);
        let magnitude = whole * SCALE + scaled;
        if magnitude > MAX_RAW {
            return None;
        }
        if negative {
            Some(Decimal { raw: -magnitude })
        } else {
            Some(Decimal { raw: magnitude })
        }
    }

    /// Appends the shortest numeral of this decimal to `buf`.
    pub fn push_plain(&self, buf: &mut String)
        ensures
            final(buf)@ == old(buf)@ + plain_text(self@),
    {
        let raw = self.raw();
        let ghost before = buf@;
        let magnitude: i64 = if raw < 0 {
            buf.push('-');
            -raw
        } else {
            raw
        };
        let ghost sign = if raw < 0 {
            seq!['-']
        } else {
            Seq::<char>::empty()
        };
        let whole = magnitude / SCALE;
        let fraction = magnitude % SCALE;
        push_decimal(buf, whole as u128);
        if fraction != 0 {
            buf.push('.');
            if fraction % 1000 == 0 {
                push_decimal(buf, (fraction / 1000) as u128);
            } else if fraction % 100 == 0 {
                push_zero_padded(buf, (fraction / 100) as u128, 2);
            } else if fraction % 10 == 0 {
                push_zero_padded(buf, (fraction / 10) as u128, 3);
            } else {
                push_zero_padded(buf, fraction as u128, 4);
            }
            proof {
                assert(buf@ =~= before + (sign + decimal_digits(whole as nat) + seq!['.']
                    + trimmed_fraction(fraction as nat)));
            }
        } else {
            proof {
                assert(buf@ =~= before + (sign + decimal_digits(whole as nat)));
            }
        }
    }

    /// The shortest numeral of this decimal.
    pub fn to_string(&self) -> (r: String)
        ensures
            r@ == plain_text(self@),
    {
        let mut out = String::new();
        self.push_plain(&mut out);
        proof {
            assert(Seq::<char>::empty() + plain_text(self@) =~= plain_text(self@));
        }
        out
    }
}

/// Every power of ten is at least one.
pub proof fn lemma_pow10_positive(e: nat)
    ensures
        pow10(e) >= 1,
    decreases e,
{
    if e > 0 {
        lemma_pow10_positive((e - 1) as nat);
    }
}

/// If no character before `p` is a point, the first point of `s` is not
/// before `p`.
pub proof fn lemma_point_at_lower(s: Seq<char>, p: int)
    requires
        0 <= p <= s.len(),
        forall|k: int| 0 <= k < p ==> s[k] != '.',
    ensures
        p <= point_at(s) <= s.len(),
    decreases s.len(),
{
    if s.len() > 0 && s[0] != '.' {
        let rest = s.skip(1);
        if p > 0 {
            assert forall|k: int| 0 <= k < p - 1 implies rest[k] != '.' by {
                assert(rest[k] == s[k + 1]);
            }
            lemma_point_at_lower(rest, p - 1);
        } else {
            lemma_point_at_lower(rest, 0);
        }
    }
}

/// The largest number of lines that one document holds: with it, the
/// total of a document with tax still fits a 128-bit number
/// (`lemma_limits_fit`).
pub const MAX_LINES: usize = 10_000;

/// The largest magnitude of the price of a line, in hundred-millionths.
pub const MAX_LINE: i128 = 10_000_000_000_000_000_000_000;

/// The largest magnitude of the total of a document, in hundred-millionths.
pub const MAX_TOTAL: i128 = 100_000_000_000_000_000_000_000_000;

/// One line of a document: what was sold, how many units, the price of one.
pub type Transaction = (String, Decimal, Decimal);

/// A line as mathematics: its description, and its units and the price of
/// one unit in ten-thousandths.
pub type Line = (Seq<char>, int, int);

/// The lines of a document as mathematics.
pub open spec fn lines_of(tx: Seq<Transaction>) -> Seq<Line> {
    Seq::new(tx.len(), |i: int| (tx[i].0@, tx[i].1@, tx[i].2@))
}

/// The price of a line, in hundred-millionths: units times price per unit.
pub open spec fn line_total(line: Line) -> int {
    line.1 * line.2
}

/// The total of the lines before tax, in hundred-millionths: the sum of the
/// prices of the lines, nothing rounded.
pub open spec fn pretax_total(lines: Seq<Line>) -> int
    decreases lines.len(),
{
    if lines.len() == 0 {
        0
    } else {
        pretax_total(lines.drop_last()) + line_total(lines.last())
    }
}

/// The tax on `total` hundred-millionths at the rate of `rate`
/// ten-thousandths, in million-millionths.
pub open spec fn tax_amount(total: int, rate: int) -> int {
    total * rate
}

/// `total` hundred-millionths with the tax at `rate` on top, in
/// million-millionths.
pub open spec fn total_with_tax(total: int, rate: int) -> int {
    total * SCALE + tax_amount(total, rate)
}

/// A copy of the lines `tx`.
pub fn copy_lines(tx: &Vec<Transaction>) -> (r: Vec<Transaction>)
    ensures
        lines_of(r@) == lines_of(tx@),
        r@.len() == tx@.len(),
{
    let mut out: Vec<Transaction> = Vec::new();
    let mut i: usize = 0;
    while i < tx.len()
        invariant
            i <= tx.len(),
            out@.len() == i,
            lines_of(out@) == lines_of(tx@).take(i as int),
        decreases tx.len() - i,
    {
        let ghost before = out@;
        out.push((tx[i].0.clone(), tx[i].1, tx[i].2));
        proof {
            assert(lines_of(out@) =~= lines_of(before).push(lines_of(tx@)[i as int]));
            assert(lines_of(tx@).take(i + 1) =~= lines_of(tx@).take(i as int).push(
                lines_of(tx@)[i as int],
            ));
        }
        i = i + 1;
    }
    proof {
        assert(lines_of(tx@).take(tx.len() as int) =~= lines_of(tx@));
    }
    out
}

/// The total of a document before tax, in hundred-millionths.
#[derive(Clone, Copy, Debug)]
pub struct Total {
    raw: i128,
}

/// The price of a line, in hundred-millionths.
pub fn price_of_line(line: &Transaction) -> (r: i128)
    ensures
        r == line_total((line.0@, line.1@, line.2@)),
        -MAX_LINE <= r <= MAX_LINE,
{
    let units = line.1.raw() as i128;
    let price = line.2.raw() as i128;
    assert(-10_000_000_000_000_000_000_000 <= units * price <= 10_000_000_000_000_000_000_000)
        by (nonlinear_arith)
        requires
            -100_000_000_000 <= units <= 100_000_000_000,
            -100_000_000_000 <= price <= 100_000_000_000,
    ;
    units * price
}

impl Total {
    #[verifier::type_invariant]
    spec fn in_range(self) -> bool {
        -MAX_TOTAL <= self.raw <= MAX_TOTAL
    }

    /// The number of hundred-millionths that this total stands for.
    pub closed spec fn view(&self) -> int {
        self.raw as int
    }

    /// The number of hundred-millionths that this total stands for.
    pub fn raw(&self) -> (r: i128)
        ensures
            r == self@,
            -MAX_TOTAL <= r <= MAX_TOTAL,
    {
        proof {
            use_type_invariant(self);
        }
        self.raw
    }

    /// The total of `tx` before tax, unless those are more lines than one
    /// document holds.
    pub fn of_lines(tx: &[Transaction]) -> (r: Option<Total>)
        ensures
            r is Some <==> tx@.len() <= MAX_LINES,
            r matches Some(total) ==> total@ == pretax_total(lines_of(tx@)),
    {
        if tx.len() > MAX_LINES {
            return None;
        }
        let ghost lines = lines_of(tx@);
        let mut sum: i128 = 0;
        let mut i: usize = 0;
        while i < tx.len()
            invariant
                i <= tx@.len() <= MAX_LINES,
                lines == lines_of(tx@),
                sum == pretax_total(lines.take(i as int)),
                -(i * MAX_LINE) <= sum <= i * MAX_LINE,
            decreases tx.len() - i,
        {
            let price = price_of_line(&tx[i]);
            proof {
                assert(lines.take(i + 1).drop_last() =~= lines.take(i as int));
                assert(lines.take(i + 1).last() == lines[i as int]);
            }
            sum = sum + price;
            i = i + 1;
        }
        proof {
            assert(lines.take(tx@.len() as int) =~= lines);
        }
        Some(Total { raw: sum })
    }

    /// The tax on this total at `rate`, in million-millionths.
    pub fn tax(&self, rate: &Decimal) -> (r: i128)
        ensures
            r == tax_amount(self@, rate@),
            -MAX_TAX <= r <= MAX_TAX,
    {
        let total = self.raw();
        let factor = rate.raw() as i128;
        assert(-MAX_TAX <= total * factor <= MAX_TAX) by (nonlinear_arith)
            requires
                -100_000_000_000_000_000_000_000_000 <= total
                    <= 100_000_000_000_000_000_000_000_000,
                -100_000_000_000 <= factor <= 100_000_000_000,
                MAX_TAX == 10_000_000_000_000_000_000_000_000_000_000_000_000,
        ;
        total * factor
    }

    /// This total with the tax at `rate` on top, in million-millionths.
    pub fn with_tax(&self, rate: &Decimal) -> (r: i128)
        ensures
            r == total_with_tax(self@, rate@),
            -MAX_SHOWN <= r <= MAX_SHOWN,
    {
        let tax = self.tax(rate);
        let total = self.raw();
        assert(SCALE == 10_000);
        let scaled: i128 = total * 10_000;
        scaled + tax
    }
}

/// The largest magnitude of a tax, in million-millionths.
pub const MAX_TAX: i128 = 10_000_000_000_000_000_000_000_000_000_000_000_000;

/// The limits fit one into the other: the largest lines make at most the
/// largest total, the tax on it at the largest rate is at most the largest
/// tax, and the total with that tax is within what is shown, which a
/// 128-bit number holds.
pub proof fn lemma_limits_fit()
    ensures
        MAX_RAW * MAX_RAW == MAX_LINE,
        MAX_LINES * MAX_LINE == MAX_TOTAL,
        MAX_TOTAL * MAX_RAW == MAX_TAX,
        MAX_TOTAL * SCALE + MAX_TAX <= MAX_SHOWN,
        MAX_SHOWN <= i128::MAX,
{
    assert(100_000_000_000int * 100_000_000_000int == 10_000_000_000_000_000_000_000int)
        by (nonlinear_arith);
    assert(10_000int * 10_000_000_000_000_000_000_000int
        == 100_000_000_000_000_000_000_000_000int) by (nonlinear_arith);
    assert(100_000_000_000_000_000_000_000_000int * 100_000_000_000int
        == 10_000_000_000_000_000_000_000_000_000_000_000_000int) by (nonlinear_arith);
    assert(100_000_000_000_000_000_000_000_000int * 10_000int
        == 1_000_000_000_000_000_000_000_000_000_000int) by (nonlinear_arith);
}

/// The largest magnitude that `push_fixed2` accepts.
pub const MAX_SHOWN: i128 = 100_000_000_000_000_000_000_000_000_000_000_000_000;

/// The largest number of raw steps that may make one hundredth.
pub const MAX_UNIT: i128 = 10_000_000_000;

/// Appends `value` with exactly two digits after the point to `buf`, where
/// `unit` raw steps make one hundredth; half a hundredth rounds away from
/// zero.
pub fn push_fixed2(buf: &mut String, value: i128, unit: i128)
    requires
        1 <= unit <= MAX_UNIT,
        -MAX_SHOWN <= value <= MAX_SHOWN,
    ensures
        final(buf)@ == old(buf)@ + fixed2_text(value as int, unit as int),
{
    let ghost before = buf@;
    let magnitude: i128 = if value < 0 {
        -value
    } else {
        value
    };
    let hundredths: i128 = (magnitude + unit / 2) / unit;
    assert(hundredths >= 0) by (nonlinear_arith)
        requires
            hundredths == (magnitude + unit / 2) / (unit as int),
            magnitude >= 0,
            unit >= 1,
    ;
    let ghost rounded = rounded_hundredths(value as int, unit as int);
    proof {
        assert(rounded == if value < 0 {
            -hundredths
        } else {
            hundredths as int
        });
    }
    if value < 0 && hundredths > 0 {
        buf.push('-');
    }
    let ghost sign = if rounded < 0 {
        seq!['-']
    } else {
        Seq::<char>::empty()
    };
    push_decimal(buf, (hundredths / 100) as u128);
    buf.push('.');
    push_zero_padded(buf, (hundredths % 100) as u128, 2);
    proof {
        assert(buf@ =~= before + (sign + decimal_digits((hundredths / 100) as nat) + seq!['.']
            + zero_padded(decimal_digits((hundredths % 100) as nat), 2)));
    }
}

} // verus!
