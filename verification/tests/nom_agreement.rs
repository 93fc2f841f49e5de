use nom::branch::alt;
use nom::bytes::complete::{tag, tag_no_case, take_while1};
use nom::character::complete::{digit1, i64 as nom_i64, multispace0};
use nom::combinator::{opt, recognize};
use nom::sequence::{delimited, tuple};
use nom::IResult;
use query_parser::common_parser::{
    parse_comma, parse_float, parse_identifier, parse_integer, parse_keyword, parse_string,
    parse_symbol, ws,
};
use query_parser::dml_parser::parse_comparator;
use query_parser::query::{Operator, Value};

const SAMPLES: [&str; 44] = [
    "",
    " ",
    "\t\r\n ",
    "select * from t",
    "  SELECT\n*",
    "Select",
    "selec",
    "selectx",
    "INSERT INTO t",
    "insert into",
    "insert  into",
    "where a = 1",
    "a",
    "user_id, b",
    "  __x__  ",
    "größe = 3",
    "цена>1",
    "a1b",
    "1a",
    "42",
    "  -17  ,",
    "+5)",
    "-",
    "+",
    "007",
    "9223372036854775807",
    "9223372036854775808",
    "-9223372036854775808",
    "-9223372036854775809",
    "30.65 and",
    "-0.5",
    "1.",
    ".5",
    "1.2.3",
    "+1.5",
    "'book' ",
    "  'a b'x",
    "''",
    "'open",
    ", x",
    ">= 3",
    "> =3",
    "!= 'x'",
    "<=<",
];

fn rest_after(input: &str, end: usize) -> String {
    input.chars().skip(end).collect()
}

fn chars(input: &str) -> Vec<char> {
    input.chars().collect()
}

fn integer(value: Value) -> i64 {
    match value {
        Value::Integer(number) => number,
        other => panic!("no integer: {:?}", other),
    }
}

fn float_text(value: Value) -> String {
    match value {
        Value::Float(text) => text,
        other => panic!("no floating-point literal: {:?}", other),
    }
}

fn string_text(value: Value) -> String {
    match value {
        Value::String(text) => text,
        other => panic!("no string: {:?}", other),
    }
}

#[test]
fn whitespace_agrees_with_multispace() {
    for input in SAMPLES {
        let theirs: IResult<&str, &str> = multispace0(input);
        let ours = ws(&chars(input), 0);
        assert_eq!(theirs.map(|(rest, _)| rest.to_string()), Ok(rest_after(input, ours)), "{:?}", input);
    }
}

#[test]
fn keywords_agree_with_tag_no_case() {
    for word in ["SELECT", "INSERT INTO", "WHERE", "FROM", "AND", "TRUE"] {
        for input in SAMPLES {
            let theirs: IResult<&str, &str> =
                delimited(multispace0, tag_no_case(word), multispace0)(input);
            let ours = parse_keyword(&chars(input), 0, word);
            assert_eq!(
                theirs.ok().map(|(rest, _)| rest.to_string()),
                ours.map(|end| rest_after(input, end)),
                "{:?} in {:?}",
                word,
                input
            );
        }
    }
}

#[test]
fn symbols_agree_with_tag() {
    for mark in [",", "(", ">=", ">", "=", "!=", "<=", "<", "*"] {
        for input in SAMPLES {
            let theirs: IResult<&str, &str> = delimited(multispace0, tag(mark), multispace0)(input);
            let ours = parse_symbol(&chars(input), 0, mark);
            assert_eq!(
                theirs.ok().map(|(rest, _)| rest.to_string()),
                ours.map(|end| rest_after(input, end)),
                "{:?} in {:?}",
                mark,
                input
            );
        }
    }
    for input in SAMPLES {
        let theirs: IResult<&str, &str> = delimited(multispace0, tag(","), multispace0)(input);
        let ours = parse_comma(&chars(input), 0);
        assert_eq!(
            theirs.ok().map(|(rest, _)| rest.to_string()),
            ours.map(|end| rest_after(input, end)),
            "{:?}",
            input
        );
    }
}

#[test]
fn identifiers_agree_with_take_while() {
    for input in SAMPLES {
        let theirs: IResult<&str, &str> = delimited(
            multispace0,
            take_while1(|c: char| c.is_alphabetic() || c == '_'),
            multispace0,
        )(input);
        let ours = parse_identifier(&chars(input), 0);
        assert_eq!(
            theirs.ok().map(|(rest, name)| (name.to_string(), rest.to_string())),
            ours.map(|(name, end)| (name, rest_after(input, end))),
            "{:?}",
            input
        );
    }
}

#[test]
fn integers_agree_with_the_integer_parser() {
    for input in SAMPLES {
        let theirs: IResult<&str, i64> = delimited(multispace0, nom_i64, multispace0)(input);
        let ours = parse_integer(&chars(input), 0);
        assert_eq!(
            theirs.ok().map(|(rest, number)| (number, rest.to_string())),
            ours.map(|(number, end)| (integer(number), rest_after(input, end))),
            "{:?}",
            input
        );
    }
}

#[test]
fn floats_agree_with_the_recognizer() {
    for input in SAMPLES {
        let theirs: IResult<&str, &str> = delimited(
            multispace0,
            recognize(tuple((opt(tag("-")), digit1, tag("."), digit1))),
            multispace0,
        )(input);
        let ours = parse_float(&chars(input), 0);
        assert_eq!(
            theirs.ok().map(|(rest, text)| (text.to_string(), rest.to_string())),
            ours.map(|(literal, end)| (float_text(literal), rest_after(input, end))),
            "{:?}",
            input
        );
    }
}

#[test]
fn float_literals_are_numbers() {
    for input in SAMPLES {
        if let Some((Value::Float(text), _)) = parse_float(&chars(input), 0) {
            assert!(text.parse::<f64>().is_ok(), "{:?}", text);
        }
    }
    match parse_float(&chars("30.65"), 0) {
        Some((Value::Float(text), _)) => assert_eq!(text.parse::<f64>(), Ok(30.65)),
        other => panic!("no floating-point literal: {:?}", other),
    }
}

#[test]
fn strings_agree_with_the_delimited_parser() {
    for input in SAMPLES {
        let theirs: IResult<&str, &str> = delimited(
            multispace0,
            delimited(tag("'"), take_while1(|c: char| c != '\''), tag("'")),
            multispace0,
        )(input);
        let ours = parse_string(&chars(input), 0);
        assert_eq!(
            theirs.ok().map(|(rest, text)| (text.to_string(), rest.to_string())),
            ours.map(|(literal, end)| (string_text(literal), rest_after(input, end))),
            "{:?}",
            input
        );
    }
}

#[test]
fn comparators_agree_with_the_ordered_choice() {
    for input in SAMPLES {
        let theirs: IResult<&str, Operator> = alt((
            nom::combinator::map(delimited(multispace0, tag(">="), multispace0), |_| Operator::GreaterOrEquals),
            nom::combinator::map(delimited(multispace0, tag("<="), multispace0), |_| Operator::LessOrEquals),
            nom::combinator::map(delimited(multispace0, tag(">"), multispace0), |_| Operator::Greater),
            nom::combinator::map(delimited(multispace0, tag("<"), multispace0), |_| Operator::Less),
            nom::combinator::map(delimited(multispace0, tag("="), multispace0), |_| Operator::Equals),
            nom::combinator::map(delimited(multispace0, tag("!="), multispace0), |_| Operator::NotEquals),
        ))(input);
        let ours = parse_comparator(&chars(input), 0);
        assert_eq!(
            theirs.ok().map(|(rest, operator)| (operator, rest.to_string())),
            ours.map(|(operator, end)| (operator, rest_after(input, end))),
            "{:?}",
            input
        );
    }
}
