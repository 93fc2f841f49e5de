use query_parser::common_parser::{
    literal_end, parse_comma, parse_float, parse_identifier, parse_integer, parse_keyword,
    parse_string, parse_symbol, parse_value, syntax_error, word_end, ws,
};
use query_parser::query::{QueryParsingError, Value};
use query_parser::text::{char_in, collect, letters_match, scan, to_chars, CharClass};

// Statements and values have no `==`: a floating-point literal is kept as it
// is written, and two of them are the same when their numbers are.

trait Same {
    fn same(&self, other: &Self) -> bool;
}

impl Same for query_parser::query::Value {
    fn same(&self, other: &Self) -> bool {
        match (self, other) {
            (Self::Integer(x), Self::Integer(y)) => x == y,
            (Self::Float(x), Self::Float(y)) => match (x.parse::<f64>(), y.parse::<f64>()) {
                (Ok(x), Ok(y)) => x == y,
                _ => false,
            },
            (Self::String(x), Self::String(y)) => x == y,
            (Self::Bool(x), Self::Bool(y)) => x == y,
            _ => false,
        }
    }
}

impl Same for query_parser::query::Condition {
    fn same(&self, other: &Self) -> bool {
        self.column == other.column
            && self.operator == other.operator
            && self.value.same(&other.value)
    }
}

impl Same for query_parser::query::DataManipulationQuery {
    fn same(&self, other: &Self) -> bool {
        match (self, other) {
            (Self::Select(x), Self::Select(y)) => {
                x.columns == y.columns && x.table == y.table && x.conditions.same(&y.conditions)
            }
            (Self::Insert(x), Self::Insert(y)) => {
                x.columns == y.columns && x.table == y.table && x.values.same(&y.values)
            }
            (Self::Update(x), Self::Update(y)) => {
                x.table == y.table
                    && x.values.same(&y.values)
                    && x.conditions.same(&y.conditions)
            }
            (Self::Delete(x), Self::Delete(y)) => {
                x.columns == y.columns && x.table == y.table && x.conditions.same(&y.conditions)
            }
            _ => false,
        }
    }
}

impl Same for query_parser::query::Query {
    fn same(&self, other: &Self) -> bool {
        match (self, other) {
            (Self::DataManipulationQuery(x), Self::DataManipulationQuery(y)) => x.same(y),
            (Self::DataDefinitionQuery(x), Self::DataDefinitionQuery(y)) => x == y,
            _ => false,
        }
    }
}

impl Same for query_parser::query::QueryParsingError {
    fn same(&self, other: &Self) -> bool {
        self == other
    }
}

impl Same for query_parser::builder::BuilderError {
    fn same(&self, other: &Self) -> bool {
        self == other
    }
}

impl Same for String {
    fn same(&self, other: &Self) -> bool {
        self == other
    }
}

impl Same for usize {
    fn same(&self, other: &Self) -> bool {
        self == other
    }
}

impl<T: Same> Same for Vec<T> {
    fn same(&self, other: &Self) -> bool {
        self.len() == other.len() && self.iter().zip(other).all(|(x, y)| x.same(y))
    }
}

impl<T: Same> Same for Option<T> {
    fn same(&self, other: &Self) -> bool {
        match (self, other) {
            (Some(x), Some(y)) => x.same(y),
            (None, None) => true,
            _ => false,
        }
    }
}

impl<T: Same, E: Same> Same for Result<T, E> {
    fn same(&self, other: &Self) -> bool {
        match (self, other) {
            (Ok(x), Ok(y)) => x.same(y),
            (Err(x), Err(y)) => x.same(y),
            _ => false,
        }
    }
}

impl<A: Same, B: Same> Same for (A, B) {
    fn same(&self, other: &Self) -> bool {
        self.0.same(&other.0) && self.1.same(&other.1)
    }
}

impl<T: Same> Same for &T {
    fn same(&self, other: &Self) -> bool {
        (**self).same(&**other)
    }
}

fn assert_same<T: Same + std::fmt::Debug>(actual: T, expected: T) {
    assert!(actual.same(&expected), "\n  left: {:?}\n right: {:?}", actual, expected);
}

fn chars(text: &str) -> Vec<char> {
    text.chars().collect()
}

#[test]
fn to_chars_gives_the_characters_in_order() {
    assert_eq!(to_chars("aé京 b"), vec!['a', 'é', '京', ' ', 'b']);
    assert_eq!(to_chars(""), Vec::<char>::new());
}

#[test]
fn collect_copies_a_range() {
    let input = chars("hello world");
    assert_eq!(collect(&input, 6, 11), "world");
    assert_eq!(collect(&input, 3, 3), "");
    assert_eq!(collect(&input, 0, 11), "hello world");
}

#[test]
fn character_classes() {
    for c in [' ', '\t', '\r', '\n'] {
        assert!(char_in(CharClass::Space, c));
    }
    assert!(!char_in(CharClass::Space, '\u{a0}'));
    assert!(!char_in(CharClass::Space, 'x'));
    assert!(char_in(CharClass::Digit, '0'));
    assert!(char_in(CharClass::Digit, '9'));
    assert!(!char_in(CharClass::Digit, '٣'));
    assert!(!char_in(CharClass::Digit, 'a'));
    assert!(char_in(CharClass::Name, 'a'));
    assert!(char_in(CharClass::Name, 'Z'));
    assert!(char_in(CharClass::Name, '_'));
    assert!(char_in(CharClass::Name, 'ß'));
    assert!(char_in(CharClass::Name, '京'));
    assert!(!char_in(CharClass::Name, '1'));
    assert!(!char_in(CharClass::Name, '-'));
    assert!(!char_in(CharClass::Name, ' '));
    assert!(!char_in(CharClass::Name, '💝'));
    assert!(char_in(CharClass::Quoted, 'a'));
    assert!(char_in(CharClass::Quoted, '"'));
    assert!(!char_in(CharClass::Quoted, '\''));
}

#[test]
fn letters_match_without_case() {
    assert!(letters_match('a', 'A'));
    assert!(letters_match('Z', 'z'));
    assert!(letters_match('q', 'q'));
    assert!(letters_match(' ', ' '));
    assert!(!letters_match('a', 'b'));
    assert!(!letters_match('@', '`'));
    assert!(!letters_match('[', '{'));
    assert!(!letters_match('é', 'É'));
    assert!(!letters_match('k', '\u{212a}'));
}

#[test]
fn scan_finds_the_end_of_a_run() {
    let input = chars("  \t\nab12 ");
    assert_eq!(scan(&input, 0, CharClass::Space), 4);
    assert_eq!(scan(&input, 4, CharClass::Space), 4);
    assert_eq!(scan(&input, 4, CharClass::Name), 6);
    assert_eq!(scan(&input, 6, CharClass::Digit), 8);
    assert_eq!(scan(&input, 8, CharClass::Quoted), 9);
    assert_eq!(scan(&input, 9, CharClass::Space), 9);
}

#[test]
fn ws_passes_over_whitespace_only() {
    let input = chars(" \r\n\t x ");
    assert_eq!(ws(&input, 0), 5);
    assert_eq!(ws(&input, 5), 5);
    assert_eq!(ws(&input, 6), 7);
    assert_eq!(ws(&input, 7), 7);
}

#[test]
fn literal_and_word_matching() {
    let input = chars("Select>=");
    assert_eq!(word_end(&input, 0, "SELECT"), Some(6));
    assert_eq!(word_end(&input, 0, "select"), Some(6));
    assert_eq!(word_end(&input, 1, "SELECT"), None);
    assert_eq!(word_end(&input, 0, "SELECTS"), None);
    assert_eq!(literal_end(&input, 0, "SELECT"), None);
    assert_eq!(literal_end(&input, 0, "Select"), Some(6));
    assert_eq!(literal_end(&input, 6, ">="), Some(8));
    assert_eq!(literal_end(&input, 6, ">"), Some(7));
    assert_eq!(literal_end(&input, 7, ">="), None);
    assert_eq!(literal_end(&input, 8, ""), Some(8));
}

#[test]
fn keyword_is_read_in_any_case_with_whitespace_around() {
    for text in ["select x", "Select x", "SELECT x", "  sElEcT \n\t x"] {
        let input = chars(text);
        let end = parse_keyword(&input, 0, "SELECT");
        assert_eq!(end, Some(input.len() - 1));
    }
    assert_eq!(parse_keyword(&chars("selec"), 0, "SELECT"), None);
    assert_eq!(parse_keyword(&chars("xselect"), 0, "SELECT"), None);
    assert_eq!(parse_keyword(&chars(""), 0, "SELECT"), None);
    assert_eq!(parse_keyword(&chars("selectx"), 0, "SELECT"), Some(6));
    assert_eq!(parse_keyword(&chars("insert into t"), 0, "INSERT INTO"), Some(12));
    assert_eq!(parse_keyword(&chars("insert  into t"), 0, "INSERT INTO"), None);
    assert_eq!(parse_keyword(&chars("insert\ninto t"), 0, "INSERT INTO"), None);
}

#[test]
fn symbol_is_read_exactly() {
    assert_eq!(parse_symbol(&chars("  >= 1"), 0, ">="), Some(5));
    assert_eq!(parse_symbol(&chars(">= 1"), 0, ">"), Some(1));
    assert_eq!(parse_symbol(&chars("= 1"), 0, ">="), None);
    assert_eq!(parse_comma(&chars(" , a"), 0), Some(3));
    assert_eq!(parse_comma(&chars(" ; a"), 0), None);
    assert_eq!(parse_comma(&chars(""), 0), None);
}

#[test]
fn identifier_is_letters_and_underscores() {
    assert_eq!(parse_identifier(&chars(" user_id , x"), 0), Some(("user_id".to_string(), 9)));
    assert_eq!(parse_identifier(&chars("a1"), 0), Some(("a".to_string(), 1)));
    assert_eq!(parse_identifier(&chars("_"), 0), Some(("_".to_string(), 1)));
    assert_eq!(parse_identifier(&chars("größe="), 0), Some(("größe".to_string(), 5)));
    assert_eq!(parse_identifier(&chars("1a"), 0), None);
    assert_eq!(parse_identifier(&chars(""), 0), None);
    assert_eq!(parse_identifier(&chars("   "), 0), None);
    assert_eq!(parse_identifier(&chars("'a'"), 0), None);
    assert_eq!(parse_identifier(&chars("ab cd"), 3), Some(("cd".to_string(), 5)));
}

#[test]
fn value_literal_discrimination() {
    assert_same(parse_value(&chars("10"), 0), Some((Value::Integer(10), 2)));
    assert_same(parse_value(&chars("30.65"), 0), Some((Value::Float("30.65".to_string()), 5)));
    assert_same(parse_value(&chars("'book'"), 0), Some((Value::String("book".to_string()), 6)));
    assert_same(parse_value(&chars("TRUE"), 0), Some((Value::Bool(true), 4)));
    assert_same(parse_value(&chars("FALSE"), 0), Some((Value::Bool(false), 5)));
    assert_same(parse_value(&chars("true"), 0), Some((Value::Bool(true), 4)));
    assert_same(parse_value(&chars("False"), 0), Some((Value::Bool(false), 5)));
    assert_same(parse_value(&chars("book"), 0), None);
    assert_same(parse_value(&chars(""), 0), None);
}

#[test]
fn float_needs_digits_on_both_sides_of_the_point() {
    assert_same(parse_float(&chars(" -0.5 "), 0), Some((Value::Float("-0.5".to_string()), 6)));
    assert_same(parse_float(&chars("007.250"), 0), Some((Value::Float("007.250".to_string()), 7)));
    assert_same(parse_float(&chars("1."), 0), None);
    assert_same(parse_float(&chars(".5"), 0), None);
    assert_same(parse_float(&chars("1"), 0), None);
    assert_same(parse_float(&chars("+1.5"), 0), None);
    assert_same(parse_float(&chars("-.5"), 0), None);
    assert_same(parse_float(&chars("1.2.3"), 0), Some((Value::Float("1.2".to_string()), 3)));
    assert_same(parse_value(&chars("1."), 0), Some((Value::Integer(1), 1)));
    assert_same(parse_value(&chars("+1.5"), 0), Some((Value::Integer(1), 2)));
}

#[test]
fn integer_is_a_signed_number_of_64_bits() {
    assert_same(parse_integer(&chars("0"), 0), Some((Value::Integer(0), 1)));
    assert_same(parse_integer(&chars("-0"), 0), Some((Value::Integer(0), 2)));
    assert_same(parse_integer(&chars("+42 "), 0), Some((Value::Integer(42), 4)));
    assert_same(parse_integer(&chars(" -17x"), 0), Some((Value::Integer(-17), 4)));
    assert_same(parse_integer(&chars("000123"), 0), Some((Value::Integer(123), 6)));
    assert_same(
        parse_integer(&chars("9223372036854775807"), 0),
        Some((Value::Integer(i64::MAX), 19))
    );
    assert_same(
        parse_integer(&chars("-9223372036854775808"), 0),
        Some((Value::Integer(i64::MIN), 20))
    );
    assert_same(
        parse_integer(&chars("0000000000000000000009223372036854775807"), 0),
        Some((Value::Integer(i64::MAX), 40))
    );
    assert_same(parse_integer(&chars("9223372036854775808"), 0), None);
    assert_same(parse_integer(&chars("-9223372036854775809"), 0), None);
    assert_same(parse_integer(&chars("99999999999999999999999999999"), 0), None);
    assert_same(parse_integer(&chars("-"), 0), None);
    assert_same(parse_integer(&chars("+"), 0), None);
    assert_same(parse_integer(&chars("- 1"), 0), None);
    assert_same(parse_integer(&chars("a"), 0), None);
    assert_same(parse_integer(&chars(""), 0), None);
    assert_same(parse_value(&chars("9223372036854775808"), 0), None);
    assert_same(
        parse_value(&chars("9223372036854775808.0"), 0),
        Some((Value::Float("9223372036854775808.0".to_string()), 21))
    );
}

#[test]
fn string_is_what_stands_between_two_quotes() {
    assert_same(parse_string(&chars(" 'a b' "), 0), Some((Value::String("a b".to_string()), 7)));
    assert_same(parse_string(&chars("'1'"), 0), Some((Value::String("1".to_string()), 3)));
    assert_same(parse_string(&chars("'it''s'"), 0), Some((Value::String("it".to_string()), 4)));
    assert_same(parse_string(&chars("''"), 0), None);
    assert_same(parse_string(&chars("'open"), 0), None);
    assert_same(parse_string(&chars("'"), 0), None);
    assert_same(parse_string(&chars("\"a\""), 0), None);
    assert_same(parse_string(&chars(""), 0), None);
}

#[test]
fn values_of_different_variants_are_not_the_same() {
    assert!(!Value::Integer(1).same(&Value::Float("1.0".to_string())));
    assert!(!Value::Integer(1).same(&Value::String("1".to_string())));
    assert!(!Value::Integer(1).same(&Value::Bool(true)));
    assert!(!Value::Float("1.0".to_string()).same(&Value::String("1.0".to_string())));
    assert!(!Value::String("true".to_string()).same(&Value::Bool(true)));
    assert!(Value::Integer(7).same(&Value::Integer(7)));
    assert!(!Value::Integer(7).same(&Value::Integer(8)));
    assert!(Value::Float("2.50".to_string()).same(&Value::Float("2.5".to_string())));
    assert!(Value::Float("0.0".to_string()).same(&Value::Float("-0.0".to_string())));
    assert!(!Value::Float("2.5".to_string()).same(&Value::Float("2.6".to_string())));
    assert!(Value::String("a".to_string()).same(&Value::String("a".to_string())));
    assert!(!Value::String("a".to_string()).same(&Value::String("b".to_string())));
    assert!(Value::Bool(false).same(&Value::Bool(false)));
    assert!(!Value::Bool(false).same(&Value::Bool(true)));
}

#[test]
fn same_literal_compares_what_is_written() {
    assert!(Value::Integer(7).same_literal(&Value::Integer(7)));
    assert!(!Value::Integer(7).same_literal(&Value::Integer(8)));
    assert!(Value::Float("2.50".to_string()).same_literal(&Value::Float("2.50".to_string())));
    assert!(!Value::Float("2.50".to_string()).same_literal(&Value::Float("2.5".to_string())));
    assert!(Value::String("a".to_string()).same_literal(&Value::String("a".to_string())));
    assert!(!Value::String("a".to_string()).same_literal(&Value::String("A".to_string())));
    assert!(Value::Bool(true).same_literal(&Value::Bool(true)));
    assert!(!Value::Bool(true).same_literal(&Value::Bool(false)));
    assert!(!Value::Integer(1).same_literal(&Value::Float("1.0".to_string())));
    assert!(!Value::Float("1.0".to_string()).same_literal(&Value::String("1.0".to_string())));
    assert!(!Value::String("true".to_string()).same_literal(&Value::Bool(true)));
    assert!(!Value::Bool(true).same_literal(&Value::Integer(1)));
}

fn written(read: Option<(Value, usize)>) -> Option<String> {
    match read {
        Some((Value::Float(text), _)) => Some(text),
        _ => None,
    }
}

#[test]
fn float_literal_is_kept_as_it_is_written() {
    assert_eq!(written(parse_float(&chars(" -0.5 "), 0)), Some("-0.5".to_string()));
    assert_eq!(written(parse_float(&chars("007.250"), 0)), Some("007.250".to_string()));
    assert_eq!(written(parse_value(&chars("30.65"), 0)), Some("30.65".to_string()));
    assert_eq!(written(parse_float(&chars("1.2.3"), 0)), Some("1.2".to_string()));
    assert_eq!(written(parse_value(&chars("10"), 0)), None);
}

#[test]
fn syntax_error_carries_the_rest_of_the_input() {
    let input = chars("abc def");
    assert_eq!(
        syntax_error("expected x", &input, 4),
        QueryParsingError::QuerySyntaxError("expected x".to_string(), "def".to_string())
    );
    assert_eq!(
        syntax_error("expected x", &input, 7),
        QueryParsingError::QuerySyntaxError("expected x".to_string(), "".to_string())
    );
}

#[test]
fn ascii_names_are_letters_and_underscores() {
    for code in 0u8..128 {
        let c = code as char;
        assert_eq!(char_in(CharClass::Name, c), c.is_ascii_alphabetic() || c == '_', "{:?}", c);
    }
}

#[test]
fn identifier_collects_the_characters_that_it_read() {
    let (name, end) = parse_identifier(&chars("  ab_cd  efg"), 0).unwrap();
    assert_eq!(name, "ab_cd");
    assert_eq!(name.chars().count(), 5);
    assert_eq!(end, 9);
}
