use game_prompts::answer::{
    answer_bool, answer_multi_number, answer_multi_string, answer_number, answer_number_range,
    check_multi_option, BoolRejection, CountRejection, MultiRejection, NumberRejection,
    PromptMultiOption,
};
use game_prompts::instructions::{intro_banner, Instructions};
use game_prompts::number::read_number;
use game_prompts::text::{normalize_line, same_text, split_line, trim_line};

fn strings(v: &[&str]) -> Vec<String> {
    v.iter().map(|s| s.to_string()).collect()
}

#[test]
fn token_answers_in_any_case() {
    for raw in ["YES", "yes", "Yes", "y", "Y"] {
        let line = normalize_line(raw);
        assert_eq!(answer_bool(&line, false), Ok(true));
    }
    for raw in ["NO", "no", "nO", "n", "N"] {
        let line = normalize_line(raw);
        assert_eq!(answer_bool(&line, false), Ok(false));
    }
}

#[test]
fn token_answer_refusals() {
    for line in ["", "YE", "YESS", "1", "NOPE", "Y E S"] {
        assert_eq!(answer_bool(line, false), Err(BoolRejection::EnterYesOrNo));
    }
}

#[test]
fn numeric_answers() {
    assert_eq!(answer_bool("1", true), Ok(true));
    assert_eq!(answer_bool("0", true), Ok(false));
    assert_eq!(answer_bool("+1", true), Ok(true));
    assert_eq!(answer_bool("2", true), Err(BoolRejection::EnterOneOrZero));
    assert_eq!(answer_bool("255", true), Err(BoolRejection::EnterOneOrZero));
    assert_eq!(answer_bool("256", true), Err(BoolRejection::EnterANumber));
    assert_eq!(answer_bool("YES", true), Err(BoolRejection::EnterANumber));
    assert_eq!(answer_bool("", true), Err(BoolRejection::EnterANumber));
    assert_eq!(answer_bool("-1", true), Err(BoolRejection::EnterANumber));
}

#[test]
fn numeric_answer_after_refusals() {
    let lines = ["X", "7", "1"];
    let mut verdicts = Vec::new();
    for line in lines {
        verdicts.push(answer_bool(line, true));
    }
    assert_eq!(
        verdicts,
        vec![
            Err(BoolRejection::EnterANumber),
            Err(BoolRejection::EnterOneOrZero),
            Ok(true)
        ]
    );
}

#[test]
fn range_accepts_every_number_within() {
    let range = 3i32..=9;
    for n in 3..=9 {
        assert_eq!(answer_number_range(&n.to_string(), &range), Ok(n));
    }
    for n in [-4, 0, 2, 10, 100] {
        assert_eq!(
            answer_number_range(&n.to_string(), &range),
            Err(NumberRejection::NotWithin(3, 9))
        );
    }
    assert_eq!(
        answer_number_range::<i32>("X", &range),
        Err(NumberRejection::InvalidNumber)
    );
}

#[test]
fn range_on_unsigned_type() {
    let range = 1u8..=10;
    assert_eq!(answer_number_range("10", &range), Ok(10u8));
    assert_eq!(
        answer_number_range::<u8>("-1", &range),
        Err(NumberRejection::InvalidNumber)
    );
    assert_eq!(
        answer_number_range::<u8>("300", &range),
        Err(NumberRejection::InvalidNumber)
    );
    assert_eq!(
        answer_number_range::<u8>("0", &range),
        Err(NumberRejection::NotWithin(1, 10))
    );
}

#[test]
fn single_numbers() {
    assert_eq!(answer_number::<i64>("-42"), Ok(-42));
    assert_eq!(answer_number::<u32>("007"), Ok(7));
    assert_eq!(answer_number::<u32>(""), Err(NumberRejection::InvalidNumber));
    assert_eq!(answer_number::<u32>("1.5"), Err(NumberRejection::InvalidNumber));
    assert_eq!(answer_number::<i8>("-129"), Err(NumberRejection::InvalidNumber));
    assert_eq!(answer_number::<i8>("-128"), Ok(-128));
}

#[test]
fn numbers_of_every_type() {
    assert_eq!(read_number::<u8>("200"), Some(200u8));
    assert_eq!(read_number::<u16>("65535"), Some(65535u16));
    assert_eq!(read_number::<u16>("65536"), None);
    assert_eq!(read_number::<u32>("+4000000000"), Some(4000000000u32));
    assert_eq!(read_number::<u64>("18446744073709551615"), Some(u64::MAX));
    assert_eq!(read_number::<usize>("12"), Some(12usize));
    assert_eq!(read_number::<usize>("-12"), None);
    assert_eq!(read_number::<i8>("-7"), Some(-7i8));
    assert_eq!(read_number::<i16>("-32768"), Some(i16::MIN));
    assert_eq!(read_number::<i32>("+15"), Some(15i32));
    assert_eq!(read_number::<i64>("-9000000000"), Some(-9000000000i64));
    assert_eq!(read_number::<isize>("-3"), Some(-3isize));
    assert_eq!(read_number::<i32>("-"), None);
    assert_eq!(read_number::<i32>("+"), None);
    assert_eq!(read_number::<i32>(" 5"), None);
}

#[test]
fn multi_string_split() {
    assert_eq!(
        answer_multi_string("A,B,C", ",", &None),
        Ok(strings(&["A", "B", "C"]))
    );
}

#[test]
fn multi_string_exact_count() {
    let option = Some(PromptMultiOption::UnitAmount(2));
    assert_eq!(
        answer_multi_string("A,B,C", ",", &option),
        Err(CountRejection::MustBe(2))
    );
    assert_eq!(
        answer_multi_string("A,B", ",", &option),
        Ok(strings(&["A", "B"]))
    );
}

#[test]
fn multi_string_count_range() {
    let option = Some(PromptMultiOption::UnitAmountRange(2..=3));
    assert_eq!(
        answer_multi_string("A", ",", &option),
        Err(CountRejection::MustBeWithin(2, 3))
    );
    assert_eq!(
        answer_multi_string("A,,C", ",", &option),
        Ok(strings(&["A", "", "C"]))
    );
    assert_eq!(
        answer_multi_string("A,B,C,D", ",", &option),
        Err(CountRejection::MustBeWithin(2, 3))
    );
}

#[test]
fn multi_string_empty_line() {
    assert_eq!(answer_multi_string("", ",", &None), Ok(strings(&[""])));
    let option = Some(PromptMultiOption::UnitAmount(2));
    assert_eq!(
        answer_multi_string("", ",", &option),
        Err(CountRejection::MustBe(2))
    );
}

#[test]
fn multi_number_discards_failed_attempt() {
    let range = Some(0u32..=10);
    assert_eq!(
        answer_multi_number::<u32>("1 2 X", " ", &None, &range),
        Err(MultiRejection::OnlyNumbers)
    );
    assert_eq!(
        answer_multi_number::<u32>("1 2 3", " ", &None, &range),
        Ok(vec![1, 2, 3])
    );
}

#[test]
fn multi_number_first_refusal_decides() {
    let range = Some(0i32..=10);
    assert_eq!(
        answer_multi_number::<i32>("1,11,X", ",", &None, &range),
        Err(MultiRejection::NotWithin(0, 10))
    );
    assert_eq!(
        answer_multi_number::<i32>("1,X,11", ",", &None, &range),
        Err(MultiRejection::OnlyNumbers)
    );
    assert_eq!(
        answer_multi_number::<i32>("-3,4", ",", &None, &None),
        Ok(vec![-3, 4])
    );
}

#[test]
fn multi_number_count_before_units() {
    let option = Some(PromptMultiOption::UnitAmount(2));
    assert_eq!(
        answer_multi_number::<u8>("X,Y,Z", ",", &option, &None),
        Err(MultiRejection::Count(CountRejection::MustBe(2)))
    );
    assert_eq!(
        answer_multi_number::<u8>("4,5", ",", &option, &Some(1..=3)),
        Err(MultiRejection::NotWithin(1, 3))
    );
    assert_eq!(
        answer_multi_number::<u8>("3,1", ",", &option, &Some(1..=3)),
        Ok(vec![3, 1])
    );
    assert_eq!(
        answer_multi_number::<u8>("", ",", &None, &None),
        Err(MultiRejection::OnlyNumbers)
    );
}

#[test]
fn same_line_same_verdict() {
    assert_eq!(answer_bool("Y", false), answer_bool("Y", false));
    let range = 1i16..=6;
    assert_eq!(
        answer_number_range("4", &range),
        answer_number_range("4", &range)
    );
    let option = Some(PromptMultiOption::UnitAmount(3));
    assert_eq!(
        answer_multi_string("A B C", " ", &option),
        answer_multi_string("A B C", " ", &option)
    );
    assert_eq!(
        answer_multi_number::<u64>("5 6 7", " ", &option, &None),
        answer_multi_number::<u64>("5 6 7", " ", &option, &None)
    );
}

#[test]
fn padded_yes_reads_as_yes() {
    assert_eq!(normalize_line(" yes \n"), normalize_line("YES"));
    assert_eq!(normalize_line(" yes \n"), "YES");
    assert_eq!(answer_bool(&normalize_line(" yes \n"), false), Ok(true));
}

#[test]
fn normalization() {
    assert_eq!(normalize_line("\t abc def \r\n"), "ABC DEF");
    assert_eq!(normalize_line(""), "");
    assert_eq!(normalize_line("   "), "");
    assert_eq!(normalize_line("stra\u{df}e"), "STRASSE");
    assert_eq!(trim_line("\u{3000}a b\u{a0}\u{2009}"), "a b");
    assert_eq!(trim_line("x"), "x");
}

#[test]
fn splitting() {
    assert_eq!(split_line("aaa", "aa"), strings(&["", "a"]));
    assert_eq!(split_line("A--B--", "--"), strings(&["A", "B", ""]));
    assert_eq!(split_line("AB", ""), strings(&["", "A", "B", ""]));
    assert_eq!(split_line("", ""), strings(&["", ""]));
    assert_eq!(split_line("AB", "ABC"), strings(&["AB"]));
    assert_eq!(split_line("\u{e9},\u{e8}", ","), strings(&["\u{e9}", "\u{e8}"]));
}

#[test]
fn text_equality() {
    assert!(same_text("ABC", "ABC"));
    assert!(!same_text("ABC", "ABD"));
    assert!(!same_text("AB", "ABC"));
    assert!(same_text("", ""));
}

#[test]
fn count_checks() {
    assert_eq!(check_multi_option(&PromptMultiOption::UnitAmount(0), 0), Ok(()));
    assert_eq!(
        check_multi_option(&PromptMultiOption::UnitAmount(1), 0),
        Err(CountRejection::MustBe(1))
    );
    let r = PromptMultiOption::UnitAmountRange(1..=1);
    assert_eq!(check_multi_option(&r, 1), Ok(()));
    assert_eq!(check_multi_option(&r, 2), Err(CountRejection::MustBeWithin(1, 1)));
}

#[test]
fn instructions_lines() {
    let one = Instructions::new(true, false, "INSTRUCTIONS?", "PLAY WELL");
    assert!(one.asks_to_show());
    assert!(!one.is_numeric());
    assert_eq!(one.question(), "INSTRUCTIONS?");
    assert_eq!(one.lines_to_show(true), vec!["PLAY WELL"]);
    assert!(one.lines_to_show(false).is_empty());

    let many = Instructions::new_multiline(true, true, "SHOW?", vec!["ONE", "TWO", "THREE"]);
    assert!(many.is_numeric());
    assert_eq!(many.lines_to_show(true), vec!["ONE", "TWO", "THREE"]);
    assert!(many.lines_to_show(false).is_empty());

    let silent = Instructions::new(false, false, "SHOW?", "TEXT");
    assert!(!silent.asks_to_show());
    assert!(silent.lines_to_show(true).is_empty());
}

#[test]
fn intro_banner_text() {
    assert_eq!(
        intro_banner("BATNUM"),
        "\n\n\t\tBATNUM\nCREATIVE COMPUTING MORRISTOWN, NEW JERSEY\n"
    );
}
