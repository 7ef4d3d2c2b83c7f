//! String operations of std that the library relies on, with what their
//! documentation promises, and the decimal notation of integers.

use vstd::prelude::*;

verus! {

/// What `str::to_lowercase` makes of a string: the Unicode lowercase
/// mapping of each character, which can expand a character into several.
pub uninterp spec fn spec_to_lowercase(s: Seq<char>) -> Seq<char>;

/// What `str::split_whitespace` yields for a string, the words in order.
pub uninterp spec fn spec_split_whitespace(s: Seq<char>) -> Seq<Seq<char>>;

/// What `str::trim` leaves of a string once leading and trailing Unicode
/// whitespace is removed.
pub uninterp spec fn spec_trim(s: Seq<char>) -> Seq<char>;

/// Calls `str::to_lowercase`. The result is named by `spec_to_lowercase`;
/// the empty string stays empty, since the mapping is character by character.
#[verifier::external_body]
pub(crate) fn to_lowercase(s: &str) -> (r: String)
    ensures
        r@ == spec_to_lowercase(s@),
        s@.len() == 0 ==> r@.len() == 0,
{
    s.to_lowercase()
}

/// Calls `str::split_whitespace` and collects the words as owned strings.
/// The words are named by `spec_split_whitespace`; as the documentation
/// says, an empty string yields no words.
#[verifier::external_body]
pub(crate) fn split_whitespace(s: &str) -> (words: Vec<String>)
    ensures
        words.deep_view() == spec_split_whitespace(s@),
        s@.len() == 0 ==> words@.len() == 0,
{
    s.split_whitespace().map(|w| w.to_string()).collect()
}

/// Calls `str::trim`; the result is named by `spec_trim`.
#[verifier::external_body]
pub(crate) fn trim(s: &str) -> (r: &str)
    ensures
        r@ == spec_trim(s@),
{
    s.trim()
}

/// An ASCII decimal digit.
pub open spec fn is_digit(c: char) -> bool {
    '0' <= c && c <= '9'
}

/// The value of a digit character.
pub open spec fn digit_value(c: char) -> int {
    c as int - '0' as int
}

/// The value of a sequence of decimal digits, most significant first.
pub open spec fn digits_value(ds: Seq<char>) -> int
    decreases ds.len(),
{
    if ds.len() == 0 {
        0
    } else {
        digits_value(ds.drop_last()) * 10 + digit_value(ds.last())
    }
}

pub open spec fn all_digits(ds: Seq<char>) -> bool {
    forall|i: int| 0 <= i < ds.len() ==> is_digit(#[trigger] ds[i])
}

/// What `str::parse::<i32>` accepts, as its documentation states: an
/// optional `+` or `-` sign followed by at least one decimal digit and
/// nothing else, whose value fits in an `i32`.
pub open spec fn spec_parse_i32(s: Seq<char>) -> Option<i32> {
    let negative = s.len() > 0 && s[0] == '-';
    let digits = if s.len() > 0 && (s[0] == '-' || s[0] == '+') {
        s.drop_first()
    } else {
        s
    };
    let value = if negative {
        -digits_value(digits)
    } else {
        digits_value(digits)
    };
    if digits.len() > 0 && all_digits(digits) && i32::MIN <= value <= i32::MAX {
        Some(value as i32)
    } else {
        None
    }
}

/// The character of a digit `d < 10`.
pub open spec fn digit_char(d: nat) -> char {
    ('0' as int + d) as char
}

/// The decimal digits of `n`, most significant first, without leading zeros.
pub open spec fn nat_digits(n: nat) -> Seq<char>
    decreases n,
{
    if n < 10 {
        seq![digit_char(n)]
    } else {
        nat_digits(n / 10).push(digit_char(n % 10))
    }
}

/// The decimal notation of an `i32`: a `-` for negative numbers, then the
/// digits of its magnitude.
pub open spec fn spec_i32_decimal(v: i32) -> Seq<char> {
    if v < 0 {
        seq!['-'] + nat_digits((-v) as nat)
    } else {
        nat_digits(v as nat)
    }
}

/// Calls `str::parse::<i32>` and keeps the value, if any.
#[verifier::external_body]
pub(crate) fn parse_i32(s: &str) -> (r: Option<i32>)
    ensures
        r == spec_parse_i32(s@),
{
    s.parse::<i32>().ok()
}

/// Calls `i32::to_string`, which writes the decimal notation of `v`.
#[verifier::external_body]
pub(crate) fn i32_to_string(v: i32) -> (r: String)
    ensures
        r@ == spec_i32_decimal(v),
{
    v.to_string()
}

proof fn lemma_digit_char(d: nat)
    requires
        d < 10,
    ensures
        is_digit(digit_char(d)),
        digit_value(digit_char(d)) == d,
{
}

/// The digits of `n` are a nonempty run of decimal digits whose value is `n`.
pub proof fn lemma_nat_digits(n: nat)
    ensures
        nat_digits(n).len() > 0,
        all_digits(nat_digits(n)),
        digits_value(nat_digits(n)) == n,
    decreases n,
{
    if n < 10 {
        lemma_digit_char(n);
        assert(nat_digits(n).drop_last() =~= Seq::<char>::empty());
        assert(digits_value(nat_digits(n)) == digits_value(Seq::<char>::empty()) * 10
            + digit_value(digit_char(n)));
    } else {
        lemma_nat_digits(n / 10);
        lemma_digit_char(n % 10);
        let ds = nat_digits(n);
        assert(ds.drop_last() =~= nat_digits(n / 10));
        assert(ds.last() == digit_char(n % 10));
        vstd::arithmetic::div_mod::lemma_fundamental_div_mod(n as int, 10);
        assert(digits_value(ds) == digits_value(nat_digits(n / 10)) * 10 + (n % 10) as int);
        assert forall|i: int| 0 <= i < ds.len() implies is_digit(#[trigger] ds[i]) by {
            if i < ds.len() - 1 {
                assert(ds[i] == nat_digits(n / 10)[i]);
            }
        }
    }
}

/// Parsing the decimal notation of an `i32` gives the number back.
pub proof fn lemma_parse_decimal_roundtrip(v: i32)
    ensures
        spec_parse_i32(spec_i32_decimal(v)) == Some(v),
{
    if v < 0 {
        let m = (-v) as nat;
        lemma_nat_digits(m);
        let s = spec_i32_decimal(v);
        assert(s.drop_first() =~= nat_digits(m));
    } else {
        lemma_nat_digits(v as nat);
        let ds = nat_digits(v as nat);
        assert(is_digit(ds[0]));
    }
}

} // verus!
