//! Amounts of money, kept in cents.

use crate::text::{
    chars_of, count_in, count_of, decimal, find_char, index_of, parse_integer, parsed_integer,
    push_decimal, replace, replaced, str_eq, string_from_chars, trim, trimmed, unsigned_part,
};
use std::ops::{Add, Sub};
use vstd::prelude::*;
use vstd::std_specs::ops::{AddSpec, AddSpecImpl, SubSpec, SubSpecImpl};
use vstd::string::StringExecFns;

verus! {

/// An amount of money, kept as a whole number of cents.
#[derive(Debug, Clone, Copy, PartialEq, Eq, Structural, PartialOrd, Ord)]
pub struct Money {
    cents: i64,
}

/// The absolute value of `n`.
pub open spec fn magnitude(n: int) -> int {
    if n < 0 {
        -n
    } else {
        n
    }
}

/// The whole units of an amount of cents, with the sign of the amount.
pub open spec fn major_of(cents: int) -> int {
    if cents < 0 {
        -(magnitude(cents) / 100)
    } else {
        magnitude(cents) / 100
    }
}

/// The cents of an amount beyond its whole units: 0 to 99.
pub open spec fn minor_of(cents: int) -> int {
    magnitude(cents) % 100
}

/// A whole number as text: a minus sign for a negative one, then its digits.
pub open spec fn integer_text(n: int) -> Seq<char> {
    if n < 0 {
        seq!['-'] + decimal((-n) as nat)
    } else {
        decimal(n as nat)
    }
}

/// Two digits for a number below 100.
pub open spec fn two_digits(n: int) -> Seq<char> {
    if n < 10 {
        seq!['0'] + decimal(n as nat)
    } else {
        decimal(n as nat)
    }
}

/// An amount as text: the whole units, a point, and two digits of cents.
pub open spec fn money_text(cents: int) -> Seq<char> {
    integer_text(major_of(cents)) + seq!['.'] + two_digits(minor_of(cents))
}

/// The absolute value of `n`.
pub fn magnitude_of(n: i64) -> (m: u64)
    ensures
        m == magnitude(n as int),
{
    if n >= 0 {
        n as u64
    } else if n == i64::MIN {
        9223372036854775808u64
    } else {
        (-n) as u64
    }
}

impl Money {
    /// The cents of the amount.
    pub closed spec fn cents(self) -> int {
        self.cents as int
    }

    /// The amount of so many cents.
    pub fn from_cents(cents: i64) -> (money: Self)
        ensures
            money.cents() == cents,
    {
        Self { cents }
    }

    /// The amount in cents.
    pub fn as_cents(&self) -> (cents: i64)
        ensures
            cents == self.cents(),
    {
        self.cents
    }

    /// The whole units, which carry the sign, and the cents beyond them.
    pub fn as_major_minor(&self) -> (parts: (i64, u8))
        ensures
            parts.0 == major_of(self.cents()),
            parts.1 == minor_of(self.cents()),
    {
        let abs: u64 = magnitude_of(self.cents);
        let major: i64 = (abs / 100) as i64;
        let minor: u8 = (abs % 100) as u8;
        if self.cents < 0 {
            (-major, minor)
        } else {
            (major, minor)
        }
    }

    /// The amount as text, with two digits of cents.
    pub fn to_string(&self) -> (text: String)
        ensures
            text@ == money_text(self.cents()),
    {
        let (major, minor) = self.as_major_minor();
        let mut out: Vec<char> = Vec::new();
        if major < 0 {
            out.push('-');
        }
        push_decimal(&mut out, magnitude_of(major));
        out.push('.');
        if minor < 10 {
            out.push('0');
        }
        push_decimal(&mut out, minor as u64);
        assert(out@ =~= money_text(self.cents()));
        string_from_chars(&out)
    }

    /// The amount of so many whole units; `None` where it is out of range.
    pub fn from_units(units: i64) -> (money: Option<Self>)
        ensures
            match money {
                Some(m) => m.cents() == units * 100,
                None => units * 100 < i64::MIN || units * 100 > i64::MAX,
            },
    {
        match units.checked_mul(100) {
            Some(cents) => Some(Self { cents }),
            None => None,
        }
    }

    /// The whole units of the amount, rounded towards zero.
    pub fn to_units(&self) -> (units: i64)
        ensures
            units == major_of(self.cents()),
    {
        self.as_major_minor().0
    }
}

/// A written amount made ready for reading: without white space at its ends,
/// every comma turned into a point.
pub open spec fn normalized_amount(input: Seq<char>) -> Seq<char> {
    replaced(trimmed(input), ","@, "."@)
}

/// A written amount with a fraction: one without a point gets `.00`.
pub open spec fn with_fraction(s: Seq<char>) -> Seq<char> {
    if count_of(s, '.') == 0 {
        s + seq!['.', '0', '0']
    } else {
        s
    }
}

/// The two characters that stand for the cents of a written fraction: `00`
/// for none, the one there is and a zero, or the first two.
pub open spec fn fraction_digits(fraction: Seq<char>) -> Seq<char> {
    if fraction.len() == 0 {
        seq!['0', '0']
    } else if fraction.len() == 1 {
        fraction.push('0')
    } else {
        fraction.take(2)
    }
}

/// The whole number that a text writes, or zero where it writes none.
pub open spec fn number_or_zero(s: Seq<char>) -> int {
    match parsed_integer(s) {
        Some(n) => n,
        None => 0,
    }
}

/// The cents of an amount of so many whole units and cents, with its sign;
/// zero where they are more than fits.
pub open spec fn combined_cents(major: int, minor: int, negative: bool) -> int {
    let cents = magnitude(major) * 100 + minor;
    let signed = if negative {
        -cents
    } else {
        cents
    };
    if i64::MIN <= signed <= i64::MAX {
        signed
    } else {
        0
    }
}

/// The cents that the digits of a written amount stand for: the whole units
/// before the point, two digits of cents behind it. Zero unless there is
/// exactly one point.
pub open spec fn body_cents(body: Seq<char>, negative: bool) -> int {
    if count_of(body, '.') != 1 {
        0
    } else {
        let point = index_of(body, '.');
        combined_cents(
            number_or_zero(body.take(point)),
            number_or_zero(fraction_digits(body.skip(point + 1))),
            negative,
        )
    }
}

/// The cents of a written amount. The amount may carry a sign and use a
/// comma or a point before its cents; digits of the fraction beyond the
/// second are dropped. A part that writes no number counts as zero, and so
/// does a text that is empty, has more than one point, or writes more than
/// fits.
pub open spec fn amount_cents(input: Seq<char>) -> int {
    let text = normalized_amount(input);
    if text.len() == 0 {
        0
    } else {
        let full = with_fraction(text);
        body_cents(unsigned_part(full), full[0] == '-')
    }
}

/// The cents of so many whole units and cents, with the sign.
fn combine_cents(major: i64, minor: i64, negative: bool) -> (cents: i64)
    ensures
        cents == combined_cents(major as int, minor as int, negative),
{
    let cents: i128 = (magnitude_of(major) as i128) * 100 + (minor as i128);
    let signed: i128 = if negative {
        -cents
    } else {
        cents
    };
    if signed < -9223372036854775808 || signed > 9223372036854775807 {
        0
    } else {
        signed as i64
    }
}

/// The whole number that `v[from..to]` writes, or zero.
fn integer_or_zero(v: &Vec<char>, from: usize, to: usize) -> (n: i64)
    requires
        from <= to <= v.len(),
    ensures
        n == number_or_zero(v@.subrange(from as int, to as int)),
{
    match parse_integer(v, from, to) {
        Some(value) => value,
        None => 0,
    }
}

/// The two characters that stand for the cents of the fraction `v[from..]`.
fn fraction_of(v: &Vec<char>, from: usize) -> (fraction: Vec<char>)
    requires
        from <= v.len(),
    ensures
        fraction@ == fraction_digits(v@.subrange(from as int, v@.len() as int)),
{
    let mut fraction: Vec<char> = Vec::new();
    let n: usize = v.len();
    if n - from == 0 {
        fraction.push('0');
        fraction.push('0');
    } else if n - from == 1 {
        fraction.push(v[from]);
        fraction.push('0');
    } else {
        fraction.push(v[from]);
        fraction.push(v[from + 1]);
    }
    assert(fraction@ =~= fraction_digits(v@.subrange(from as int, n as int)));
    fraction
}

/// The cents that the digits `v[start..]` of a written amount stand for.
fn cents_of_body(v: &Vec<char>, start: usize, negative: bool) -> (cents: i64)
    requires
        start <= v.len(),
    ensures
        cents == body_cents(v@.subrange(start as int, v@.len() as int), negative),
{
    let n: usize = v.len();
    let ghost body = v@.subrange(start as int, n as int);
    if count_in(v, start, n, '.') != 1 {
        return 0;
    }
    let point = find_char(v, start, n, '.');
    proof {
        if point == n - start {
            lemma_absent_char(body, '.');
        }
        assert(body.take(point as int) =~= v@.subrange(start as int, start + point));
        assert(body.skip(point + 1) =~= v@.subrange(start + point + 1, n as int));
    }
    let major = integer_or_zero(v, start, start + point);
    let fraction = fraction_of(v, start + point + 1);
    assert(fraction@.subrange(0, fraction@.len() as int) =~= fraction@);
    let minor = integer_or_zero(&fraction, 0, fraction.len());
    combine_cents(major, minor, negative)
}

/// A written amount with a fraction.
fn add_fraction(v: Vec<char>) -> (full: Vec<char>)
    ensures
        full@ == with_fraction(v@),
{
    let mut full = v;
    assert(full@.subrange(0, full@.len() as int) =~= full@);
    if count_in(&full, 0, full.len(), '.') == 0 {
        full.push('.');
        full.push('0');
        full.push('0');
        assert(full@ =~= v@ + seq!['.', '0', '0']);
    }
    full
}

impl Money {
    /// Reads a written amount.
    pub fn parse(input: &str) -> (money: Self)
        ensures
            money.cents() == amount_cents(input@),
    {
        let trimmed_input = trim(input);
        let text = replace(trimmed_input.as_str(), ",", ".");
        let normal = chars_of(text.as_str());
        if normal.len() == 0 {
            return Self { cents: 0 };
        }
        let full = add_fraction(normal);
        let negative = full[0] == '-';
        let start: usize = if full[0] == '+' || full[0] == '-' {
            1
        } else {
            0
        };
        assert(unsigned_part(full@) =~= full@.subrange(start as int, full@.len() as int));
        Self { cents: cents_of_body(&full, start, negative) }
    }
}

/// A text in which a character is first found at its end does not hold it.
pub proof fn lemma_absent_char(s: Seq<char>, c: char)
    requires
        index_of(s, c) == s.len(),
    ensures
        count_of(s, c) == 0,
    decreases s.len(),
{
    if s.len() > 0 {
        lemma_index_bound(s.drop_first(), c);
        assert(s[0] != c);
        lemma_absent_char(s.drop_first(), c);
        lemma_count_front(s, c);
    }
}

/// `index_of` is a position in the text or its length.
pub proof fn lemma_index_bound(s: Seq<char>, c: char)
    ensures
        0 <= index_of(s, c) <= s.len(),
    decreases s.len(),
{
    if s.len() > 0 && s[0] != c {
        lemma_index_bound(s.drop_first(), c);
    }
}

/// Counting from the front: the count of a text is that of its first
/// character and that of the rest.
pub proof fn lemma_count_front(s: Seq<char>, c: char)
    requires
        s.len() > 0,
    ensures
        count_of(s, c) == count_of(s.drop_first(), c) + (if s[0] == c {
            1nat
        } else {
            0nat
        }),
    decreases s.len(),
{
    if s.len() == 1 {
        assert(s.drop_last() =~= Seq::<char>::empty());
        assert(s.drop_first() =~= Seq::<char>::empty());
    } else {
        lemma_count_front(s.drop_last(), c);
        assert(s.drop_last().drop_first() =~= s.drop_first().drop_last());
        assert(s.drop_first().last() == s.last());
        assert(s.drop_last()[0] == s[0]);
    }
}

impl std::str::FromStr for Money {
    type Err = ();

    fn from_str(s: &str) -> (r: Result<Self, Self::Err>)
        ensures
            r matches Ok(money) && money.cents() == amount_cents(s@),
    {
        Ok(Money::parse(s))
    }
}

impl Default for Money {
    fn default() -> (money: Self)
        ensures
            money.cents() == 0,
    {
        Self { cents: 0 }
    }
}

impl Add for Money {
    type Output = Money;

    fn add(self, rhs: Money) -> (sum: Money) {
        Self { cents: self.cents + rhs.cents }
    }
}

impl AddSpecImpl for Money {
    open spec fn obeys_add_spec() -> bool {
        true
    }

    open spec fn add_req(self, rhs: Money) -> bool {
        i64::MIN <= self.cents() + rhs.cents() <= i64::MAX
    }

    closed spec fn add_spec(self, rhs: Money) -> Money {
        Money { cents: (self.cents + rhs.cents) as i64 }
    }
}

impl Sub for Money {
    type Output = Money;

    fn sub(self, rhs: Money) -> (difference: Money) {
        Self { cents: self.cents - rhs.cents }
    }
}

impl SubSpecImpl for Money {
    open spec fn obeys_sub_spec() -> bool {
        true
    }

    open spec fn sub_req(self, rhs: Money) -> bool {
        i64::MIN <= self.cents() - rhs.cents() <= i64::MAX
    }

    closed spec fn sub_spec(self, rhs: Money) -> Money {
        Money { cents: (self.cents - rhs.cents) as i64 }
    }
}

/// The sum of two amounts that stays in range has the sum of their cents, and
/// their difference the difference.
pub proof fn law_money_arithmetic(a: Money, b: Money)
    ensures
        AddSpec::add_req(a, b) ==> AddSpec::add_spec(a, b).cents() == a.cents() + b.cents(),
        SubSpec::sub_req(a, b) ==> SubSpec::sub_spec(a, b).cents() == a.cents() - b.cents(),
{
}

/// An amount of money in a currency.
#[derive(Debug, Clone, PartialEq, Eq)]
pub struct MoneyWithCurrency {
    pub amount: Money,
    pub currency: String,
}

/// The currency of an amount where none is configured.
pub open spec fn fallback_currency() -> Seq<char> {
    "грн"@
}

impl MoneyWithCurrency {
    /// The amount in the currency.
    pub fn new(amount: Money, currency: &str) -> (money: Self)
        ensures
            money.amount == amount,
            money.currency@ == currency@,
    {
        Self { amount, currency: String::from_str(currency) }
    }

    /// No money, in the configured currency, or in hryvnias where none is
    /// configured.
    pub fn default_in(configured: Option<String>) -> (money: Self)
        ensures
            money.amount.cents() == 0,
            money.currency@ == (match configured {
                Some(currency) => currency@,
                None => fallback_currency(),
            }),
    {
        let currency = match configured {
            Some(currency) => currency,
            None => String::from_str("грн"),
        };
        Self { amount: Money::from_cents(0), currency }
    }

    /// The sum of two amounts of one currency. Amounts of different
    /// currencies do not add up, and neither do amounts whose sum is out of
    /// range.
    pub fn checked_add(self, rhs: Self) -> (sum: Result<Self, String>)
        ensures
            match sum {
                Ok(total) => self.currency@ == rhs.currency@ && total.currency@ == self.currency@
                    && total.amount.cents() == self.amount.cents() + rhs.amount.cents(),
                Err(reason) => if self.currency@ != rhs.currency@ {
                    reason@ == "Currency mismatch"@
                } else {
                    !AddSpec::add_req(self.amount, rhs.amount) && reason@ == "Amount out of range"@
                },
            },
    {
        if !str_eq(self.currency.as_str(), rhs.currency.as_str()) {
            return Err(String::from_str("Currency mismatch"));
        }
        match self.amount.as_cents().checked_add(rhs.amount.as_cents()) {
            Some(cents) => Ok(Self { amount: Money::from_cents(cents), currency: self.currency }),
            None => Err(String::from_str("Amount out of range")),
        }
    }

    /// The difference of two amounts of one currency. Amounts of different
    /// currencies do not subtract, and neither do amounts whose difference is
    /// out of range.
    pub fn checked_sub(self, rhs: Self) -> (difference: Result<Self, String>)
        ensures
            match difference {
                Ok(rest) => self.currency@ == rhs.currency@ && rest.currency@ == self.currency@
                    && rest.amount.cents() == self.amount.cents() - rhs.amount.cents(),
                Err(reason) => if self.currency@ != rhs.currency@ {
                    reason@ == "Currency mismatch"@
                } else {
                    !SubSpec::sub_req(self.amount, rhs.amount) && reason@ == "Amount out of range"@
                },
            },
    {
        if !str_eq(self.currency.as_str(), rhs.currency.as_str()) {
            return Err(String::from_str("Currency mismatch"));
        }
        match self.amount.as_cents().checked_sub(rhs.amount.as_cents()) {
            Some(cents) => Ok(Self { amount: Money::from_cents(cents), currency: self.currency }),
            None => Err(String::from_str("Amount out of range")),
        }
    }
}

} // verus!
