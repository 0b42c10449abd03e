//! Reading integers from normalised lines.
use vstd::prelude::*;

verus! {

/// Tells whether `c` is one of the ASCII digits `0` to `9`.
pub open spec fn is_digit(c: char) -> bool {
    48 <= (c as u32) && (c as u32) <= 57
}

/// The value of an ASCII digit.
pub open spec fn digit_value(c: char) -> int {
    (c as u32) as int - 48
}

/// The value of a sequence of decimal digits, most significant first.
pub open spec fn digits_value(s: Seq<char>) -> int
    decreases s.len(),
{
    if s.len() == 0 {
        0
    } else {
        digits_value(s.drop_last()) * 10 + digit_value(s.last())
    }
}

/// Tells whether `s` is one or more ASCII digits.
pub open spec fn all_digits(s: Seq<char>) -> bool {
    s.len() > 0 && forall|k: int| 0 <= k < s.len() ==> is_digit(#[trigger] s[k])
}

/// The integer that `s` writes in decimal: an optional sign (`+`, or `-`
/// where negative numbers are `signed`), then one or more ASCII digits and
/// nothing else; `None` for any other text.
pub open spec fn decimal_value(s: Seq<char>, signed: bool) -> Option<int> {
    if s.len() > 0 && s[0] == '+' && all_digits(s.drop_first()) {
        Some(digits_value(s.drop_first()))
    } else if signed && s.len() > 0 && s[0] == '-' && all_digits(s.drop_first()) {
        Some(-digits_value(s.drop_first()))
    } else if all_digits(s) {
        Some(digits_value(s))
    } else {
        None
    }
}

/// The decimal value of `s` where it lies within `lo` and `hi`, for a type
/// whose negative numbers are `signed`; `None` otherwise.
pub open spec fn decimal_within(s: Seq<char>, signed: bool, lo: int, hi: int) -> Option<int> {
    match decimal_value(s, signed) {
        Some(v) => if lo <= v && v <= hi {
            Some(v)
        } else {
            None
        },
        None => None,
    }
}

/// The value that `s` gives as a number of the integer type `T`.
pub open spec fn parsed<T: PromptInt>(s: Seq<char>) -> Option<int> {
    decimal_within(s, T::signed(), T::lowest(), T::highest())
}

/// An integer type that the prompts can read from a line and compare.
pub trait PromptInt: Sized + Copy {
    /// The integer that a value stands for.
    spec fn value(&self) -> int;

    /// Whether the type has negative values.
    spec fn signed() -> bool;

    /// The least value of the type.
    spec fn lowest() -> int;

    /// The greatest value of the type.
    spec fn highest() -> int;

    /// Every value lies within the type's bounds.
    proof fn lemma_bounds(x: Self)
        ensures
            Self::lowest() <= x.value() <= Self::highest(),
    ;

    /// The type's bounds hold zero; an unsigned type starts at zero.
    proof fn lemma_type_bounds()
        ensures
            Self::lowest() <= 0 < Self::highest(),
            !Self::signed() ==> Self::lowest() == 0,
    ;

    /// Reads `s` as a decimal number of this type.
    fn parse_decimal(s: &str) -> (r: Option<Self>)
        ensures
            match r {
                Some(x) => decimal_within(s@, Self::signed(), Self::lowest(), Self::highest())
                    == Some(x.value()),
                None => decimal_within(
                    s@,
                    Self::signed(),
                    Self::lowest(),
                    Self::highest(),
                ) is None,
            },
    ;

    /// Tells whether `self` is at most `other`.
    fn at_most(&self, other: &Self) -> (r: bool)
        ensures
            r == (self.value() <= other.value()),
    ;
}

/// Relies on `u8`'s `FromStr` (`u8::from_str_radix` in base 10): an
/// optional sign (`+` only), then ASCII digits only, and a value within `u8`;
/// any other text is an error.
#[verifier::external_body]
fn parse_u8(s: &str) -> (r: Option<u8>)
    ensures
        match r {
            Some(x) => decimal_within(s@, false, u8::MIN as int, u8::MAX as int) == Some(x as int),
            None => decimal_within(s@, false, u8::MIN as int, u8::MAX as int) is None,
        },
{
    s.parse::<u8>().ok()
}

impl PromptInt for u8 {
    open spec fn value(&self) -> int {
        *self as int
    }

    open spec fn signed() -> bool {
        false
    }

    open spec fn lowest() -> int {
        u8::MIN as int
    }

    open spec fn highest() -> int {
        u8::MAX as int
    }

    proof fn lemma_bounds(x: u8) {
    }

    proof fn lemma_type_bounds() {
    }

    fn parse_decimal(s: &str) -> (r: Option<u8>) {
        parse_u8(s)
    }

    fn at_most(&self, other: &u8) -> (r: bool) {
        *self <= *other
    }
}

/// Relies on `u16`'s `FromStr` (`u16::from_str_radix` in base 10): an
/// optional sign (`+` only), then ASCII digits only, and a value within `u16`;
/// any other text is an error.
#[verifier::external_body]
fn parse_u16(s: &str) -> (r: Option<u16>)
    ensures
        match r {
            Some(x) => decimal_within(s@, false, u16::MIN as int, u16::MAX as int) == Some(x as int),
            None => decimal_within(s@, false, u16::MIN as int, u16::MAX as int) is None,
        },
{
    s.parse::<u16>().ok()
}

impl PromptInt for u16 {
    open spec fn value(&self) -> int {
        *self as int
    }

    open spec fn signed() -> bool {
        false
    }

    open spec fn lowest() -> int {
        u16::MIN as int
    }

    open spec fn highest() -> int {
        u16::MAX as int
    }

    proof fn lemma_bounds(x: u16) {
    }

    proof fn lemma_type_bounds() {
    }

    fn parse_decimal(s: &str) -> (r: Option<u16>) {
        parse_u16(s)
    }

    fn at_most(&self, other: &u16) -> (r: bool) {
        *self <= *other
    }
}

/// Relies on `u32`'s `FromStr` (`u32::from_str_radix` in base 10): an
/// optional sign (`+` only), then ASCII digits only, and a value within `u32`;
/// any other text is an error.
#[verifier::external_body]
fn parse_u32(s: &str) -> (r: Option<u32>)
    ensures
        match r {
            Some(x) => decimal_within(s@, false, u32::MIN as int, u32::MAX as int) == Some(x as int),
            None => decimal_within(s@, false, u32::MIN as int, u32::MAX as int) is None,
        },
{
    s.parse::<u32>().ok()
}

impl PromptInt for u32 {
    open spec fn value(&self) -> int {
        *self as int
    }

    open spec fn signed() -> bool {
        false
    }

    open spec fn lowest() -> int {
        u32::MIN as int
    }

    open spec fn highest() -> int {
        u32::MAX as int
    }

    proof fn lemma_bounds(x: u32) {
    }

    proof fn lemma_type_bounds() {
    }

    fn parse_decimal(s: &str) -> (r: Option<u32>) {
        parse_u32(s)
    }

    fn at_most(&self, other: &u32) -> (r: bool) {
        *self <= *other
    }
}

/// Relies on `u64`'s `FromStr` (`u64::from_str_radix` in base 10): an
/// optional sign (`+` only), then ASCII digits only, and a value within `u64`;
/// any other text is an error.
#[verifier::external_body]
fn parse_u64(s: &str) -> (r: Option<u64>)
    ensures
        match r {
            Some(x) => decimal_within(s@, false, u64::MIN as int, u64::MAX as int) == Some(x as int),
            None => decimal_within(s@, false, u64::MIN as int, u64::MAX as int) is None,
        },
{
    s.parse::<u64>().ok()
}

impl PromptInt for u64 {
    open spec fn value(&self) -> int {
        *self as int
    }

    open spec fn signed() -> bool {
        false
    }

    open spec fn lowest() -> int {
        u64::MIN as int
    }

    open spec fn highest() -> int {
        u64::MAX as int
    }

    proof fn lemma_bounds(x: u64) {
    }

    proof fn lemma_type_bounds() {
    }

    fn parse_decimal(s: &str) -> (r: Option<u64>) {
        parse_u64(s)
    }

    fn at_most(&self, other: &u64) -> (r: bool) {
        *self <= *other
    }
}

/// Relies on `usize`'s `FromStr` (`usize::from_str_radix` in base 10): an
/// optional sign (`+` only), then ASCII digits only, and a value within `usize`;
/// any other text is an error.
#[verifier::external_body]
fn parse_usize(s: &str) -> (r: Option<usize>)
    ensures
        match r {
            Some(x) => decimal_within(s@, false, usize::MIN as int, usize::MAX as int) == Some(x as int),
            None => decimal_within(s@, false, usize::MIN as int, usize::MAX as int) is None,
        },
{
    s.parse::<usize>().ok()
}

impl PromptInt for usize {
    open spec fn value(&self) -> int {
        *self as int
    }

    open spec fn signed() -> bool {
        false
    }

    open spec fn lowest() -> int {
        usize::MIN as int
    }

    open spec fn highest() -> int {
        usize::MAX as int
    }

    proof fn lemma_bounds(x: usize) {
    }

    proof fn lemma_type_bounds() {
    }

    fn parse_decimal(s: &str) -> (r: Option<usize>) {
        parse_usize(s)
    }

    fn at_most(&self, other: &usize) -> (r: bool) {
        *self <= *other
    }
}

/// Relies on `i8`'s `FromStr` (`i8::from_str_radix` in base 10): an
/// optional sign (`+` or `-`), then ASCII digits only, and a value within `i8`;
/// any other text is an error.
#[verifier::external_body]
fn parse_i8(s: &str) -> (r: Option<i8>)
    ensures
        match r {
            Some(x) => decimal_within(s@, true, i8::MIN as int, i8::MAX as int) == Some(x as int),
            None => decimal_within(s@, true, i8::MIN as int, i8::MAX as int) is None,
        },
{
    s.parse::<i8>().ok()
}

impl PromptInt for i8 {
    open spec fn value(&self) -> int {
        *self as int
    }

    open spec fn signed() -> bool {
        true
    }

    open spec fn lowest() -> int {
        i8::MIN as int
    }

    open spec fn highest() -> int {
        i8::MAX as int
    }

    proof fn lemma_bounds(x: i8) {
    }

    proof fn lemma_type_bounds() {
    }

    fn parse_decimal(s: &str) -> (r: Option<i8>) {
        parse_i8(s)
    }

    fn at_most(&self, other: &i8) -> (r: bool) {
        *self <= *other
    }
}

/// Relies on `i16`'s `FromStr` (`i16::from_str_radix` in base 10): an
/// optional sign (`+` or `-`), then ASCII digits only, and a value within `i16`;
/// any other text is an error.
#[verifier::external_body]
fn parse_i16(s: &str) -> (r: Option<i16>)
    ensures
        match r {
            Some(x) => decimal_within(s@, true, i16::MIN as int, i16::MAX as int) == Some(x as int),
            None => decimal_within(s@, true, i16::MIN as int, i16::MAX as int) is None,
        },
{
    s.parse::<i16>().ok()
}

impl PromptInt for i16 {
    open spec fn value(&self) -> int {
        *self as int
    }

    open spec fn signed() -> bool {
        true
    }

    open spec fn lowest() -> int {
        i16::MIN as int
    }

    open spec fn highest() -> int {
        i16::MAX as int
    }

    proof fn lemma_bounds(x: i16) {
    }

    proof fn lemma_type_bounds() {
    }

    fn parse_decimal(s: &str) -> (r: Option<i16>) {
        parse_i16(s)
    }

    fn at_most(&self, other: &i16) -> (r: bool) {
        *self <= *other
    }
}

/// Relies on `i32`'s `FromStr` (`i32::from_str_radix` in base 10): an
/// optional sign (`+` or `-`), then ASCII digits only, and a value within `i32`;
/// any other text is an error.
#[verifier::external_body]
fn parse_i32(s: &str) -> (r: Option<i32>)
    ensures
        match r {
            Some(x) => decimal_within(s@, true, i32::MIN as int, i32::MAX as int) == Some(x as int),
            None => decimal_within(s@, true, i32::MIN as int, i32::MAX as int) is None,
        },
{
    s.parse::<i32>().ok()
}

impl PromptInt for i32 {
    open spec fn value(&self) -> int {
        *self as int
    }

    open spec fn signed() -> bool {
        true
    }

    open spec fn lowest() -> int {
        i32::MIN as int
    }

    open spec fn highest() -> int {
        i32::MAX as int
    }

    proof fn lemma_bounds(x: i32) {
    }

    proof fn lemma_type_bounds() {
    }

    fn parse_decimal(s: &str) -> (r: Option<i32>) {
        parse_i32(s)
    }

    fn at_most(&self, other: &i32) -> (r: bool) {
        *self <= *other
    }
}

/// Relies on `i64`'s `FromStr` (`i64::from_str_radix` in base 10): an
/// optional sign (`+` or `-`), then ASCII digits only, and a value within `i64`;
/// any other text is an error.
#[verifier::external_body]
fn parse_i64(s: &str) -> (r: Option<i64>)
    ensures
        match r {
            Some(x) => decimal_within(s@, true, i64::MIN as int, i64::MAX as int) == Some(x as int),
            None => decimal_within(s@, true, i64::MIN as int, i64::MAX as int) is None,
        },
{
    s.parse::<i64>().ok()
}

impl PromptInt for i64 {
    open spec fn value(&self) -> int {
        *self as int
    }

    open spec fn signed() -> bool {
        true
    }

    open spec fn lowest() -> int {
        i64::MIN as int
    }

    open spec fn highest() -> int {
        i64::MAX as int
    }

    proof fn lemma_bounds(x: i64) {
    }

    proof fn lemma_type_bounds() {
    }

    fn parse_decimal(s: &str) -> (r: Option<i64>) {
        parse_i64(s)
    }

    fn at_most(&self, other: &i64) -> (r: bool) {
        *self <= *other
    }
}

/// Relies on `isize`'s `FromStr` (`isize::from_str_radix` in base 10): an
/// optional sign (`+` or `-`), then ASCII digits only, and a value within `isize`;
/// any other text is an error.
#[verifier::external_body]
fn parse_isize(s: &str) -> (r: Option<isize>)
    ensures
        match r {
            Some(x) => decimal_within(s@, true, isize::MIN as int, isize::MAX as int) == Some(x as int),
            None => decimal_within(s@, true, isize::MIN as int, isize::MAX as int) is None,
        },
{
    s.parse::<isize>().ok()
}

impl PromptInt for isize {
    open spec fn value(&self) -> int {
        *self as int
    }

    open spec fn signed() -> bool {
        true
    }

    open spec fn lowest() -> int {
        isize::MIN as int
    }

    open spec fn highest() -> int {
        isize::MAX as int
    }

    proof fn lemma_bounds(x: isize) {
    }

    proof fn lemma_type_bounds() {
    }

    fn parse_decimal(s: &str) -> (r: Option<isize>) {
        parse_isize(s)
    }

    fn at_most(&self, other: &isize) -> (r: bool) {
        *self <= *other
    }
}

/// Reads a normalised line as a number of type `T`.
pub fn read_number<T: PromptInt>(line: &str) -> (r: Option<T>)
    ensures
        match r {
            Some(x) => parsed::<T>(line@) == Some(x.value()),
            None => parsed::<T>(line@) is None,
        },
{
    T::parse_decimal(line)
}

/// The ASCII digit of `d`, for `d` from 0 to 9.
pub open spec fn digit_char(d: int) -> char {
    seq!['0', '1', '2', '3', '4', '5', '6', '7', '8', '9'][d]
}

/// The decimal digits of `n`, most significant first, without leading zeros.
pub open spec fn digits_text(n: nat) -> Seq<char>
    decreases n,
{
    if n < 10 {
        seq![digit_char(n as int)]
    } else {
        digits_text(n / 10).push(digit_char((n % 10) as int))
    }
}

/// How `n` is written in decimal: a minus sign where it is negative, then its
/// digits.
pub open spec fn decimal_text(n: int) -> Seq<char> {
    if n < 0 {
        seq!['-'] + digits_text((-n) as nat)
    } else {
        digits_text(n as nat)
    }
}

proof fn lemma_digit_char(d: int)
    requires
        0 <= d < 10,
    ensures
        is_digit(digit_char(d)),
        digit_value(digit_char(d)) == d,
{
}

proof fn lemma_digits_text(n: nat)
    ensures
        all_digits(digits_text(n)),
        digits_value(digits_text(n)) == n,
    decreases n,
{
    if n < 10 {
        lemma_digit_char(n as int);
        assert(digits_text(n).drop_last() =~= Seq::<char>::empty());
        assert(digits_value(Seq::<char>::empty()) == 0);
        assert(digits_value(digits_text(n)) == n);
    } else {
        lemma_digits_text(n / 10);
        lemma_digit_char((n % 10) as int);
        let s = digits_text(n);
        assert(s.drop_last() =~= digits_text(n / 10));
        assert(s.last() == digit_char((n % 10) as int));
        assert(n == (n / 10) * 10 + n % 10) by (nonlinear_arith);
        assert(digits_value(s) == digits_value(s.drop_last()) * 10 + digit_value(s.last()));
        assert(digits_value(s) == n);
        assert forall|k: int| 0 <= k < s.len() implies is_digit(#[trigger] s[k]) by {
            if k < s.len() - 1 {
                assert(s[k] == digits_text(n / 10)[k]);
            }
        }
    }
}

/// Writing an integer in decimal and reading it back gives the integer, for
/// every integer that the type can hold with its sign.
pub proof fn lemma_decimal_round_trip(n: int, signed: bool)
    requires
        signed || n >= 0,
    ensures
        decimal_value(decimal_text(n), signed) == Some(n),
{
    let d = digits_text(if n < 0 {
        (-n) as nat
    } else {
        n as nat
    });
    lemma_digits_text(if n < 0 {
        (-n) as nat
    } else {
        n as nat
    });
    let s = decimal_text(n);
    if n < 0 {
        assert(s.drop_first() =~= d);
        assert(s[0] == '-');
    } else {
        assert(is_digit(s[0]));
    }
}

/// A text that starts with a minus sign is no number of an unsigned type.
proof fn lemma_unsigned_refuses_minus(s: Seq<char>)
    requires
        s.len() > 0,
        s[0] == '-',
    ensures
        decimal_value(s, false) is None,
{
    assert(!is_digit(s[0]));
}

/// The text of an integer reads as that integer wherever the type holds it,
/// and as no number of the type otherwise.
pub proof fn lemma_parsed_decimal<T: PromptInt>(n: int)
    ensures
        parsed::<T>(decimal_text(n)) == if T::lowest() <= n <= T::highest() {
            Some(n)
        } else {
            None::<int>
        },
{
    if n < 0 && !T::signed() {
        lemma_digits_text((-n) as nat);
        lemma_unsigned_refuses_minus(decimal_text(n));
        T::lemma_type_bounds();
    } else {
        lemma_decimal_round_trip(n, T::signed());
    }
}

} // verus!
