//! What each prompt decides about one normalised line: the value that it
//! accepts, or the corrective message that is due before the prompt repeats.
use vstd::prelude::*;
use std::ops::RangeInclusive;
use crate::number::{PromptInt, decimal_text, lemma_parsed_decimal, parsed, read_number};
use crate::text::{same_text, split_line, split_text, texts};

verus! {

/// Relies on `RangeInclusive::start`: the lower bound that the range holds.
pub assume_specification<Idx>[ RangeInclusive::<Idx>::start ](r: &RangeInclusive<Idx>) -> (ret:
    &Idx)
    ensures
        *ret == r@.start,
;

/// Relies on `RangeInclusive::end`: the upper bound that the range holds.
pub assume_specification<Idx>[ RangeInclusive::<Idx>::end ](r: &RangeInclusive<Idx>) -> (ret:
    &Idx)
    ensures
        *ret == r@.end,
;

/// How many units a multiple answer must hold: an exact amount, or an amount
/// within an inclusive range.
pub enum PromptMultiOption {
    UnitAmount(usize),
    UnitAmountRange(RangeInclusive<usize>),
}

/// Why the amount of units of a multiple answer was refused.
#[derive(Debug, Clone, Copy, PartialEq, Eq, Structural)]
pub enum CountRejection {
    /// "THERE MUST BE {amount} UNITS"
    MustBe(usize),
    /// "AMOUNT OF UNITS MUST BE WITHIN {low} AND {high}"
    MustBeWithin(usize, usize),
}

/// Why a yes/no answer was refused.
#[derive(Debug, Clone, Copy, PartialEq, Eq, Structural)]
pub enum BoolRejection {
    /// "ENTER (Y)ES OR (N)O"
    EnterYesOrNo,
    /// "ENTER 1 (YES) OR 0 (NO)"
    EnterOneOrZero,
    /// "ENTER A NUMBER (1 OR 0)"
    EnterANumber,
}

/// Why a single number was refused.
#[derive(Debug, PartialEq, Eq)]
pub enum NumberRejection<T> {
    /// "ENTER A VALID NUMBER"
    InvalidNumber,
    /// "ENTER A NUMBER WITHIN {low}, AND {high}"
    NotWithin(T, T),
}

/// Why a multiple number answer was refused.
#[derive(Debug, PartialEq, Eq)]
pub enum MultiRejection<T> {
    /// The amount of units was refused.
    Count(CountRejection),
    /// "ENTER ONLY NUMBERS"
    OnlyNumbers,
    /// "NUMBER MUST BE WITHIN {low} AND {high}"
    NotWithin(T, T),
}

/// The verdict of a count constraint on `len` units.
pub open spec fn count_check(o: PromptMultiOption, len: nat) -> Result<(), CountRejection> {
    match o {
        PromptMultiOption::UnitAmount(a) => if len == a {
            Ok(())
        } else {
            Err(CountRejection::MustBe(a))
        },
        PromptMultiOption::UnitAmountRange(r) => if r@.start <= len && len <= r@.end {
            Ok(())
        } else {
            Err(CountRejection::MustBeWithin(r@.start, r@.end))
        },
    }
}

/// Checks that `len` units meet the count constraint `o`.
pub fn check_multi_option(o: &PromptMultiOption, len: usize) -> (r: Result<(), CountRejection>)
    ensures
        r == count_check(*o, len as nat),
{
    match o {
        PromptMultiOption::UnitAmount(a) => {
            if len == *a {
                Ok(())
            } else {
                Err(CountRejection::MustBe(*a))
            }
        },
        PromptMultiOption::UnitAmountRange(r) => {
            let low = *r.start();
            let high = *r.end();
            if low <= len && len <= high {
                Ok(())
            } else {
                Err(CountRejection::MustBeWithin(low, high))
            }
        },
    }
}

/// The verdict on a yes/no answer. In numeric mode the line is read as a
/// `u8`, and 1 means yes, 0 no; otherwise YES or Y means yes, NO or N no.
pub open spec fn bool_answer(line: Seq<char>, numeric: bool) -> Result<bool, BoolRejection> {
    if numeric {
        match parsed::<u8>(line) {
            Some(n) => if n == 1 {
                Ok(true)
            } else if n == 0 {
                Ok(false)
            } else {
                Err(BoolRejection::EnterOneOrZero)
            },
            None => Err(BoolRejection::EnterANumber),
        }
    } else if line == seq!['Y', 'E', 'S'] || line == seq!['Y'] {
        Ok(true)
    } else if line == seq!['N', 'O'] || line == seq!['N'] {
        Ok(false)
    } else {
        Err(BoolRejection::EnterYesOrNo)
    }
}

/// Decides a yes/no answer on a normalised line.
pub fn answer_bool(line: &str, numeric: bool) -> (r: Result<bool, BoolRejection>)
    ensures
        r == bool_answer(line@, numeric),
{
    if numeric {
        match read_number::<u8>(line) {
            Some(n) => {
                if n == 1 {
                    Ok(true)
                } else if n == 0 {
                    Ok(false)
                } else {
                    Err(BoolRejection::EnterOneOrZero)
                }
            },
            None => Err(BoolRejection::EnterANumber),
        }
    } else {
        proof {
            reveal_strlit("YES");
            reveal_strlit("Y");
            reveal_strlit("NO");
            reveal_strlit("N");
        }
        assert("YES"@ =~= seq!['Y', 'E', 'S']);
        assert("Y"@ =~= seq!['Y']);
        assert("NO"@ =~= seq!['N', 'O']);
        assert("N"@ =~= seq!['N']);
        if same_text(line, "YES") || same_text(line, "Y") {
            Ok(true)
        } else if same_text(line, "NO") || same_text(line, "N") {
            Ok(false)
        } else {
            Err(BoolRejection::EnterYesOrNo)
        }
    }
}

/// A single number's verdict over integers.
pub open spec fn number_view<T: PromptInt>(r: Result<T, NumberRejection<T>>) -> Result<
    int,
    NumberRejection<int>,
> {
    match r {
        Ok(x) => Ok(x.value()),
        Err(NumberRejection::InvalidNumber) => Err(NumberRejection::InvalidNumber),
        Err(NumberRejection::NotWithin(a, b)) => Err(NumberRejection::NotWithin(a.value(), b.value())),
    }
}

/// The verdict on a number of type `T` that must lie within `low` and `high`.
pub open spec fn number_answer<T: PromptInt>(line: Seq<char>, low: int, high: int) -> Result<
    int,
    NumberRejection<int>,
> {
    match parsed::<T>(line) {
        Some(v) => if low <= v && v <= high {
            Ok(v)
        } else {
            Err(NumberRejection::NotWithin(low, high))
        },
        None => Err(NumberRejection::InvalidNumber),
    }
}

/// Decides an answer that must be a number of type `T`.
pub fn answer_number<T: PromptInt>(line: &str) -> (r: Result<T, NumberRejection<T>>)
    ensures
        number_view(r) == number_answer::<T>(line@, T::lowest(), T::highest()),
{
    match read_number::<T>(line) {
        Some(n) => {
            proof {
                T::lemma_bounds(n);
            }
            Ok(n)
        },
        None => Err(NumberRejection::InvalidNumber),
    }
}

/// Decides an answer that must be a number of type `T` within `range`.
pub fn answer_number_range<T: PromptInt>(line: &str, range: &RangeInclusive<T>) -> (r: Result<
    T,
    NumberRejection<T>,
>)
    ensures
        number_view(r) == number_answer::<T>(line@, range@.start.value(), range@.end.value()),
{
    match read_number::<T>(line) {
        Some(n) => {
            let low = *range.start();
            let high = *range.end();
            if low.at_most(&n) && n.at_most(&high) {
                Ok(n)
            } else {
                Err(NumberRejection::NotWithin(low, high))
            }
        },
        None => Err(NumberRejection::InvalidNumber),
    }
}

/// The verdict on a multiple string answer: the pieces of the line, where
/// their amount meets the constraint, if any.
pub open spec fn multi_string_answer(
    line: Seq<char>,
    separator: Seq<char>,
    option: Option<PromptMultiOption>,
) -> Result<Seq<Seq<char>>, CountRejection> {
    let pieces = split_text(line, separator);
    match option {
        Some(o) => match count_check(o, pieces.len()) {
            Ok(_) => Ok(pieces),
            Err(e) => Err(e),
        },
        None => Ok(pieces),
    }
}

/// A multiple string verdict over texts.
pub open spec fn strings_view(r: Result<Vec<String>, CountRejection>) -> Result<
    Seq<Seq<char>>,
    CountRejection,
> {
    match r {
        Ok(v) => Ok(texts(v@)),
        Err(e) => Err(e),
    }
}

/// Decides an answer of several units parted by `separator`.
pub fn answer_multi_string(line: &str, separator: &str, option: &Option<PromptMultiOption>) -> (r:
    Result<Vec<String>, CountRejection>)
    ensures
        strings_view(r) == multi_string_answer(line@, separator@, *option),
{
    let pieces = split_line(line, separator);
    match option {
        Some(o) => match check_multi_option(o, pieces.len()) {
            Ok(()) => Ok(pieces),
            Err(e) => Err(e),
        },
        None => Ok(pieces),
    }
}

/// The bounds of an optional range, as integers.
pub open spec fn range_bounds<T: PromptInt>(range: Option<RangeInclusive<T>>) -> Option<
    (int, int),
> {
    match range {
        Some(r) => Some((r@.start.value(), r@.end.value())),
        None => None,
    }
}

/// The verdict on one unit of a multiple number answer.
pub open spec fn unit_answer<T: PromptInt>(piece: Seq<char>, bounds: Option<(int, int)>) -> Result<
    int,
    MultiRejection<int>,
> {
    match parsed::<T>(piece) {
        Some(v) => match bounds {
            Some((low, high)) => if low <= v && v <= high {
                Ok(v)
            } else {
                Err(MultiRejection::NotWithin(low, high))
            },
            None => Ok(v),
        },
        None => Err(MultiRejection::OnlyNumbers),
    }
}

/// The verdict on the units of a multiple number answer, taken in order: the
/// first refused unit decides, and nothing of the others is kept.
pub open spec fn units_answer<T: PromptInt>(pieces: Seq<Seq<char>>, bounds: Option<(int, int)>) -> Result<
    Seq<int>,
    MultiRejection<int>,
>
    decreases pieces.len(),
{
    if pieces.len() == 0 {
        Ok(Seq::empty())
    } else {
        match units_answer::<T>(pieces.drop_last(), bounds) {
            Ok(vs) => match unit_answer::<T>(pieces.last(), bounds) {
                Ok(v) => Ok(vs.push(v)),
                Err(e) => Err(e),
            },
            Err(e) => Err(e),
        }
    }
}

/// The verdict on a multiple number answer: the count constraint, if any,
/// is checked first, then each unit.
pub open spec fn multi_number_answer<T: PromptInt>(
    line: Seq<char>,
    separator: Seq<char>,
    option: Option<PromptMultiOption>,
    bounds: Option<(int, int)>,
) -> Result<Seq<int>, MultiRejection<int>> {
    let pieces = split_text(line, separator);
    match option {
        Some(o) => match count_check(o, pieces.len()) {
            Ok(_) => units_answer::<T>(pieces, bounds),
            Err(e) => Err(MultiRejection::Count(e)),
        },
        None => units_answer::<T>(pieces, bounds),
    }
}

/// The integers that a sequence of values stands for.
pub open spec fn values<T: PromptInt>(v: Seq<T>) -> Seq<int> {
    v.map_values(|x: T| x.value())
}

/// A multiple number verdict over integers.
pub open spec fn numbers_view<T: PromptInt>(r: Result<Vec<T>, MultiRejection<T>>) -> Result<
    Seq<int>,
    MultiRejection<int>,
> {
    match r {
        Ok(v) => Ok(values(v@)),
        Err(MultiRejection::Count(e)) => Err(MultiRejection::Count(e)),
        Err(MultiRejection::OnlyNumbers) => Err(MultiRejection::OnlyNumbers),
        Err(MultiRejection::NotWithin(a, b)) => Err(MultiRejection::NotWithin(a.value(), b.value())),
    }
}

/// Once a prefix of the units is refused, the whole answer is refused for
/// the same reason.
proof fn lemma_refusal_persists<T: PromptInt>(
    pieces: Seq<Seq<char>>,
    bounds: Option<(int, int)>,
    k: int,
)
    requires
        0 <= k <= pieces.len(),
        units_answer::<T>(pieces.take(k), bounds) is Err,
    ensures
        units_answer::<T>(pieces, bounds) == units_answer::<T>(pieces.take(k), bounds),
    decreases pieces.len() - k,
{
    if k == pieces.len() {
        assert(pieces.take(k) =~= pieces);
    } else {
        assert(pieces.take(k + 1).drop_last() =~= pieces.take(k));
        lemma_refusal_persists::<T>(pieces, bounds, k + 1);
    }
}

/// Decides an answer of several numbers of type `T` parted by `separator`,
/// with an optional count constraint and an optional range for each number.
pub fn answer_multi_number<T: PromptInt>(
    line: &str,
    separator: &str,
    option: &Option<PromptMultiOption>,
    range: &Option<RangeInclusive<T>>,
) -> (r: Result<Vec<T>, MultiRejection<T>>)
    ensures
        numbers_view(r) == multi_number_answer::<T>(
            line@,
            separator@,
            *option,
            range_bounds(*range),
        ),
{
    let pieces = split_line(line, separator);
    if let Some(o) = option {
        if let Err(e) = check_multi_option(o, pieces.len()) {
            return Err(MultiRejection::Count(e));
        }
    }
    let ghost all = texts(pieces@);
    let ghost bounds = range_bounds(*range);
    let mut nums: Vec<T> = Vec::new();
    let mut i: usize = 0;
    assert(all.take(0) =~= Seq::<Seq<char>>::empty());
    assert(multi_number_answer::<T>(line@, separator@, *option, bounds) == units_answer::<T>(
        all,
        bounds,
    ));
    assert(values(nums@) =~= Seq::<int>::empty());
    while i < pieces.len()
        invariant
            all == texts(pieces@),
            bounds == range_bounds(*range),
            multi_number_answer::<T>(line@, separator@, *option, bounds) == units_answer::<T>(
                all,
                bounds,
            ),
            0 <= i <= pieces@.len(),
            units_answer::<T>(all.take(i as int), bounds) == Ok::<Seq<int>, MultiRejection<int>>(
                values(nums@),
            ),
        decreases pieces@.len() - i,
    {
        let ghost next = all.take(i + 1);
        assert(next.drop_last() =~= all.take(i as int));
        assert(next.last() == pieces@[i as int]@);
        let piece = pieces[i].as_str();
        let parsed_unit = read_number::<T>(piece);
        assert(units_answer::<T>(next, bounds) == match unit_answer::<T>(next.last(), bounds) {
            Ok(v) => Ok(values(nums@).push(v)),
            Err(e) => Err(e),
        });
        match parsed_unit {
            Some(n) => {
                let admitted = match range {
                    Some(r) => r.start().at_most(&n) && n.at_most(r.end()),
                    None => true,
                };
                if !admitted {
                    let (low, high) = match range {
                        Some(r) => (*r.start(), *r.end()),
                        None => (n, n),
                    };
                    proof {
                        lemma_refusal_persists::<T>(all, bounds, i + 1);
                    }
                    return Err(MultiRejection::NotWithin(low, high));
                }
                assert(unit_answer::<T>(next.last(), bounds) == Ok::<int, MultiRejection<int>>(
                    n.value(),
                ));
                let ghost before = nums@;
                nums.push(n);
                assert(values(nums@) =~= values(before).push(n.value()));
            },
            None => {
                assert(parsed::<T>(next.last()) is None);
                assert(unit_answer::<T>(next.last(), bounds) == Err::<int, MultiRejection<int>>(
                    MultiRejection::OnlyNumbers,
                ));
                proof {
                    lemma_refusal_persists::<T>(all, bounds, i + 1);
                }
                return Err(MultiRejection::OnlyNumbers);
            },
        }
        i = i + 1;
    }
    assert(all.take(i as int) =~= all);
    Ok(nums)
}

/// In token mode, YES and Y are accepted as yes and NO and N as no, with no
/// corrective message; every other line is refused with "ENTER (Y)ES OR (N)O".
pub proof fn lemma_token_answers(line: Seq<char>)
    ensures
        line == seq!['Y', 'E', 'S'] || line == seq!['Y'] ==> bool_answer(line, false) == Ok::<
            bool,
            BoolRejection,
        >(true),
        line == seq!['N', 'O'] || line == seq!['N'] ==> bool_answer(line, false) == Ok::<
            bool,
            BoolRejection,
        >(false),
        !(line == seq!['Y', 'E', 'S'] || line == seq!['Y'] || line == seq!['N', 'O'] || line
            == seq!['N']) ==> bool_answer(line, false) == Err::<bool, BoolRejection>(
            BoolRejection::EnterYesOrNo,
        ),
{
}

/// In numeric mode, a line is accepted exactly when it reads as 1 (yes) or
/// 0 (no); "1" gives yes and "0" gives no.
pub proof fn lemma_numeric_answers(line: Seq<char>)
    ensures
        bool_answer(line, true) is Ok <==> (parsed::<u8>(line) == Some(1int) || parsed::<u8>(line)
            == Some(0int)),
        parsed::<u8>(line) == Some(1int) ==> bool_answer(line, true) == Ok::<bool, BoolRejection>(
            true,
        ),
        parsed::<u8>(line) == Some(0int) ==> bool_answer(line, true) == Ok::<bool, BoolRejection>(
            false,
        ),
        bool_answer(decimal_text(1), true) == Ok::<bool, BoolRejection>(true),
        bool_answer(decimal_text(0), true) == Ok::<bool, BoolRejection>(false),
{
    lemma_parsed_decimal::<u8>(1);
    lemma_parsed_decimal::<u8>(0);
}

/// Every integer within the bounds of a ranged number prompt is accepted at
/// once as itself; one outside them is refused, with "ENTER A NUMBER WITHIN"
/// the bounds where the type can hold it.
pub proof fn lemma_range_answers<T: PromptInt>(n: int, low: T, high: T)
    ensures
        low.value() <= n <= high.value() ==> number_answer::<T>(
            decimal_text(n),
            low.value(),
            high.value(),
        ) == Ok::<int, NumberRejection<int>>(n),
        !(low.value() <= n <= high.value()) ==> number_answer::<T>(
            decimal_text(n),
            low.value(),
            high.value(),
        ) is Err,
        !(low.value() <= n <= high.value()) && T::lowest() <= n <= T::highest()
            ==> number_answer::<T>(decimal_text(n), low.value(), high.value()) == Err::<
            int,
            NumberRejection<int>,
        >(NumberRejection::NotWithin(low.value(), high.value())),
{
    T::lemma_bounds(low);
    T::lemma_bounds(high);
    lemma_parsed_decimal::<T>(n);
}

/// A yes/no prompt given the same line twice decides the same both times.
pub proof fn lemma_bool_repeats(
    line: Seq<char>,
    numeric: bool,
    first: Result<bool, BoolRejection>,
    second: Result<bool, BoolRejection>,
)
    requires
        first == bool_answer(line, numeric),
        second == bool_answer(line, numeric),
    ensures
        first == second,
{
}

/// A multiple string prompt given the same line twice decides the same both
/// times.
pub proof fn lemma_strings_repeat(
    line: Seq<char>,
    separator: Seq<char>,
    option: Option<PromptMultiOption>,
    first: Result<Vec<String>, CountRejection>,
    second: Result<Vec<String>, CountRejection>,
)
    requires
        strings_view(first) == multi_string_answer(line, separator, option),
        strings_view(second) == multi_string_answer(line, separator, option),
    ensures
        strings_view(first) == strings_view(second),
{
}

/// A number prompt, ranged or not, given the same line twice decides the same
/// both times.
pub proof fn lemma_number_repeats<T: PromptInt>(
    line: Seq<char>,
    low: int,
    high: int,
    first: Result<T, NumberRejection<T>>,
    second: Result<T, NumberRejection<T>>,
)
    requires
        number_view(first) == number_answer::<T>(line, low, high),
        number_view(second) == number_answer::<T>(line, low, high),
    ensures
        number_view(first) == number_view(second),
{
}

/// A multiple number prompt given the same line twice decides the same both
/// times.
pub proof fn lemma_numbers_repeat<T: PromptInt>(
    line: Seq<char>,
    separator: Seq<char>,
    option: Option<PromptMultiOption>,
    bounds: Option<(int, int)>,
    first: Result<Vec<T>, MultiRejection<T>>,
    second: Result<Vec<T>, MultiRejection<T>>,
)
    requires
        numbers_view(first) == multi_number_answer::<T>(line, separator, option, bounds),
        numbers_view(second) == multi_number_answer::<T>(line, separator, option, bounds),
    ensures
        numbers_view(first) == numbers_view(second),
{
}

} // verus!
