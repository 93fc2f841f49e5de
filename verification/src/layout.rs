use vstd::prelude::*;
use crate::grammar::{
    column_type, comparator, float_literal, integer_literal, keyword, literal_at, skip_spaces,
    string_literal, symbol, value, word_at,
};
use crate::keyword::{
    AND, BOOL, COMMA, DOUBLE, EQUALS, FALSE, FLOAT, GREATER, GREATER_OR_EQUALS, INT, LESS,
    LESS_OR_EQUALS, LONG, NOT_EQUALS, TEXT, TIMESTAMP, TRUE, UUID, WHERE,
};
use crate::laws::{lemma_keyword_absent, lemma_keyword_differs, lemma_symbol_absent, quiet};
use crate::query::{ColumnType, Operator, ValueModel};
use crate::text::{
    decimal, in_class, is_ascii_letter, is_digit, is_float_text, is_name, is_name_char, is_space,
    lemma_run_bounds, lemma_run_content, lemma_run_found, run_end, same_letter, CharClass,
};
use crate::token::{read_all, read_token, Token};

verus! {

/// A token as it is written: its characters and the whitespace behind it.
pub struct Lexeme {
    pub text: Seq<char>,
    pub gap: Seq<char>,
}

/// Nothing but whitespace.
pub open spec fn is_blank(gap: Seq<char>) -> bool {
    forall|i: int| 0 <= i < gap.len() ==> is_space(#[trigger] gap[i])
}

/// The text is the word in some case of its letters.
pub open spec fn same_word(text: Seq<char>, word: Seq<char>) -> bool {
    &&& text.len() == word.len()
    &&& forall|i: int| 0 <= i < word.len() ==> same_letter(text[i], #[trigger] word[i])
}

/// The characters of a comparison operator.
pub open spec fn operator_text(operator: Operator) -> Seq<char> {
    match operator {
        Operator::Equals => EQUALS@,
        Operator::NotEquals => NOT_EQUALS@,
        Operator::Greater => GREATER@,
        Operator::GreaterOrEquals => GREATER_OR_EQUALS@,
        Operator::Less => LESS@,
        Operator::LessOrEquals => LESS_OR_EQUALS@,
    }
}

/// The keyword of a column type.
pub open spec fn type_word(column_type: ColumnType) -> Seq<char> {
    match column_type {
        ColumnType::Uuid => UUID@,
        ColumnType::Int => INT@,
        ColumnType::Long => LONG@,
        ColumnType::Float => FLOAT@,
        ColumnType::Double => DOUBLE@,
        ColumnType::Timestamp => TIMESTAMP@,
        ColumnType::Text => TEXT@,
        ColumnType::Bool => BOOL@,
    }
}

/// The keyword of a truth value.
pub open spec fn truth_word(flag: bool) -> Seq<char> {
    if flag {
        TRUE@
    } else {
        FALSE@
    }
}

/// One or more decimal digits.
pub open spec fn all_digits(digits: Seq<char>) -> bool {
    &&& digits.len() > 0
    &&& forall|i: int| 0 <= i < digits.len() ==> is_digit(#[trigger] digits[i])
}

/// The text is an optional sign and digits that spell the number.
pub open spec fn is_integer_text(text: Seq<char>, number: i64) -> bool {
    if text.len() > 0 && text[0] == '-' {
        all_digits(text.skip(1)) && number as int == -decimal(text.skip(1))
    } else if text.len() > 0 && text[0] == '+' {
        all_digits(text.skip(1)) && number as int == decimal(text.skip(1))
    } else {
        all_digits(text) && number as int == decimal(text)
    }
}

/// The text is the content between two single quotes; the content is not
/// empty and holds no single quote.
pub open spec fn is_quoted(text: Seq<char>, content: Seq<char>) -> bool {
    &&& content.len() > 0
    &&& forall|i: int| 0 <= i < content.len() ==> #[trigger] content[i] != '\''
    &&& text == seq!['\''] + content + seq!['\'']
}

/// The text is a way to write the token: a keyword, a type, `TRUE` and
/// `FALSE` in any case of their letters, an integer with any sign and leading
/// zeros, everything else in one way only.
pub open spec fn spells(token: Token, text: Seq<char>) -> bool {
    match token {
        Token::Keyword(word) => word.len() > 0 && is_ascii_letter(word[0]) && same_word(
            text,
            word,
        ),
        Token::Mark(mark) => mark.len() > 0 && !is_space(mark[0]) && text == mark,
        Token::Name(name) => is_name(name) && text == name,
        Token::Comparison(operator) => text == operator_text(operator),
        Token::Type(column_type) => same_word(text, type_word(column_type)),
        Token::Literal(ValueModel::Integer(number)) => is_integer_text(text, number),
        Token::Literal(ValueModel::Float(literal)) => is_float_text(literal) && text == literal,
        Token::Literal(ValueModel::String(content)) => is_quoted(text, content),
        Token::Literal(ValueModel::Bool(flag)) => same_word(text, truth_word(flag)),
    }
}

/// The character would be read as a part of the token if it stood right
/// behind it.
pub open spec fn glues(token: Token, c: char) -> bool {
    match token {
        Token::Name(_) => is_name_char(c),
        Token::Literal(ValueModel::Integer(_)) => is_digit(c) || c == '.',
        Token::Literal(ValueModel::Float(_)) => is_digit(c),
        Token::Comparison(Operator::Greater) => c == '=',
        Token::Comparison(Operator::Less) => c == '=',
        _ => false,
    }
}

/// What the lemmas on single tokens ask of the text: the token is written at
/// `pos`, only whitespace stands between it and `next`, and what stands at
/// `next` is neither whitespace nor a character that the token would take in.
pub open spec fn stands_at(
    s: Seq<char>,
    pos: int,
    token: Token,
    text: Seq<char>,
    next: int,
) -> bool {
    &&& 0 <= pos
    &&& pos + text.len() <= next <= s.len()
    &&& spells(token, text)
    &&& literal_at(s, pos, text)
    &&& forall|k: int| pos + text.len() <= k < next ==> is_space(#[trigger] s[k])
    &&& next < s.len() ==> !is_space(s[next])
    &&& next == pos + text.len() && next < s.len() ==> !glues(token, s[next])
}

/// A way to write a token is not empty and does not start with whitespace.
pub proof fn lemma_spelling_starts(token: Token, text: Seq<char>)
    requires
        spells(token, text),
    ensures
        text.len() > 0,
        !is_space(text[0]),
{
    reveal_strlit("=");
    reveal_strlit("!=");
    reveal_strlit(">");
    reveal_strlit(">=");
    reveal_strlit("<");
    reveal_strlit("<=");
    reveal_strlit("UUID");
    reveal_strlit("INT");
    reveal_strlit("LONG");
    reveal_strlit("FLOAT");
    reveal_strlit("DOUBLE");
    reveal_strlit("TIMESTAMP");
    reveal_strlit("TEXT");
    reveal_strlit("BOOL");
    reveal_strlit("TRUE");
    reveal_strlit("FALSE");
    match token {
        Token::Keyword(word) => {
            assert(same_letter(text[0], word[0]));
        },
        Token::Mark(mark) => {},
        Token::Name(name) => {
            assert(is_name_char(name[0]));
        },
        Token::Comparison(operator) => {},
        Token::Type(column_type) => {
            assert(same_letter(text[0], type_word(column_type)[0]));
        },
        Token::Literal(ValueModel::Integer(number)) => {
            if text.len() > 0 && (text[0] == '-' || text[0] == '+') {
            } else {
                assert(is_digit(text[0]));
            }
        },
        Token::Literal(ValueModel::Float(literal)) => {
            if text[0] != '-' {
                lemma_run_content(text, 0, CharClass::Digit);
                assert(in_class(CharClass::Digit, text[0]));
            }
        },
        Token::Literal(ValueModel::String(content)) => {
            assert(text[0] == '\'');
        },
        Token::Literal(ValueModel::Bool(flag)) => {
            assert(same_letter(text[0], truth_word(flag)[0]));
        },
    }
}

/// Where a token stands, the whitespace rule stays at its start and passes
/// from its end to the next token.
proof fn lemma_spaces_around(s: Seq<char>, pos: int, token: Token, text: Seq<char>, next: int)
    requires
        stands_at(s, pos, token, text, next),
    ensures
        text.len() > 0,
        !is_space(s[pos]),
        skip_spaces(s, pos) == pos,
        skip_spaces(s, pos + text.len()) == next,
{
    lemma_spelling_starts(token, text);
    assert(s[pos + 0] == text[0]);
    lemma_run_found(s, pos, pos, CharClass::Space);
    lemma_run_found(s, pos + text.len(), next, CharClass::Space);
}

/// A word that stands in the text in some case is read as that keyword.
proof fn lemma_word_reads(
    s: Seq<char>,
    pos: int,
    token: Token,
    text: Seq<char>,
    next: int,
    word: Seq<char>,
)
    requires
        stands_at(s, pos, token, text, next),
        same_word(text, word),
    ensures
        keyword(s, pos, word) == Some(next),
{
    lemma_spaces_around(s, pos, token, text, next);
    assert forall|i: int| 0 <= i < word.len() implies same_letter(
        s[pos + i],
        #[trigger] word[i],
    ) by {
        assert(s[pos + i] == text[i]);
    }
}

/// No number is read where neither a digit nor a sign stands.
proof fn lemma_no_number(s: Seq<char>, pos: int)
    requires
        0 <= pos < s.len(),
        skip_spaces(s, pos) == pos,
        !is_digit(s[pos]),
        s[pos] != '-',
        s[pos] != '+',
    ensures
        float_literal(s, pos) is None,
        integer_literal(s, pos) is None,
{
    lemma_run_found(s, pos, pos, CharClass::Digit);
}

/// A type word that stands in the text is read as that type.
proof fn lemma_type_reads(
    s: Seq<char>,
    pos: int,
    column_type: ColumnType,
    text: Seq<char>,
    next: int,
)
    requires
        stands_at(s, pos, Token::Type(column_type), text, next),
    ensures
        read_token(s, pos, Token::Type(column_type)) == Some(next),
{
    reveal_strlit("UUID");
    reveal_strlit("INT");
    reveal_strlit("LONG");
    reveal_strlit("FLOAT");
    reveal_strlit("DOUBLE");
    reveal_strlit("TIMESTAMP");
    reveal_strlit("TEXT");
    reveal_strlit("BOOL");
    let word = type_word(column_type);
    lemma_word_reads(s, pos, Token::Type(column_type), text, next, word);
    match column_type {
        ColumnType::Uuid => {},
        ColumnType::Int => {
            lemma_keyword_differs(s, pos, word, UUID@, 0);
        },
        ColumnType::Long => {
            lemma_keyword_differs(s, pos, word, UUID@, 0);
            lemma_keyword_differs(s, pos, word, INT@, 0);
        },
        ColumnType::Float => {
            lemma_keyword_differs(s, pos, word, UUID@, 0);
            lemma_keyword_differs(s, pos, word, INT@, 0);
            lemma_keyword_differs(s, pos, word, LONG@, 0);
        },
        ColumnType::Double => {
            lemma_keyword_differs(s, pos, word, UUID@, 0);
            lemma_keyword_differs(s, pos, word, INT@, 0);
            lemma_keyword_differs(s, pos, word, LONG@, 0);
            lemma_keyword_differs(s, pos, word, FLOAT@, 0);
        },
        ColumnType::Timestamp => {
            lemma_keyword_differs(s, pos, word, UUID@, 0);
            lemma_keyword_differs(s, pos, word, INT@, 0);
            lemma_keyword_differs(s, pos, word, LONG@, 0);
            lemma_keyword_differs(s, pos, word, FLOAT@, 0);
            lemma_keyword_differs(s, pos, word, DOUBLE@, 0);
        },
        ColumnType::Text => {
            lemma_keyword_differs(s, pos, word, UUID@, 0);
            lemma_keyword_differs(s, pos, word, INT@, 0);
            lemma_keyword_differs(s, pos, word, LONG@, 0);
            lemma_keyword_differs(s, pos, word, FLOAT@, 0);
            lemma_keyword_differs(s, pos, word, DOUBLE@, 0);
            lemma_keyword_differs(s, pos, word, TIMESTAMP@, 1);
        },
        ColumnType::Bool => {
            lemma_keyword_differs(s, pos, word, UUID@, 0);
            lemma_keyword_differs(s, pos, word, INT@, 0);
            lemma_keyword_differs(s, pos, word, LONG@, 0);
            lemma_keyword_differs(s, pos, word, FLOAT@, 0);
            lemma_keyword_differs(s, pos, word, DOUBLE@, 0);
            lemma_keyword_differs(s, pos, word, TIMESTAMP@, 0);
            lemma_keyword_differs(s, pos, word, TEXT@, 0);
        },
    }
}

/// An operator that stands in the text is read as that operator.
proof fn lemma_operator_reads(
    s: Seq<char>,
    pos: int,
    operator: Operator,
    text: Seq<char>,
    next: int,
)
    requires
        stands_at(s, pos, Token::Comparison(operator), text, next),
    ensures
        read_token(s, pos, Token::Comparison(operator)) == Some(next),
{
    reveal_strlit("=");
    reveal_strlit("!=");
    reveal_strlit(">");
    reveal_strlit(">=");
    reveal_strlit("<");
    reveal_strlit("<=");
    lemma_spaces_around(s, pos, Token::Comparison(operator), text, next);
    assert(s[pos + 0] == text[0]);
    assert(symbol(s, pos, text) == Some(next));
    if text.len() == 2 {
        assert(s[pos + 1] == text[1]);
    }
    match operator {
        Operator::GreaterOrEquals => {},
        Operator::LessOrEquals => {
            lemma_symbol_absent(s, pos, GREATER_OR_EQUALS@);
        },
        Operator::Greater => {
            if symbol(s, pos, GREATER_OR_EQUALS@) is Some {
                assert(s[pos + 1] == GREATER_OR_EQUALS@[1]);
            }
            lemma_symbol_absent(s, pos, LESS_OR_EQUALS@);
        },
        Operator::Less => {
            lemma_symbol_absent(s, pos, GREATER_OR_EQUALS@);
            if symbol(s, pos, LESS_OR_EQUALS@) is Some {
                assert(s[pos + 1] == LESS_OR_EQUALS@[1]);
            }
            lemma_symbol_absent(s, pos, GREATER@);
        },
        Operator::Equals => {
            lemma_symbol_absent(s, pos, GREATER_OR_EQUALS@);
            lemma_symbol_absent(s, pos, LESS_OR_EQUALS@);
            lemma_symbol_absent(s, pos, GREATER@);
            lemma_symbol_absent(s, pos, LESS@);
        },
        Operator::NotEquals => {
            lemma_symbol_absent(s, pos, GREATER_OR_EQUALS@);
            lemma_symbol_absent(s, pos, LESS_OR_EQUALS@);
            lemma_symbol_absent(s, pos, GREATER@);
            lemma_symbol_absent(s, pos, LESS@);
            lemma_symbol_absent(s, pos, EQUALS@);
        },
    }
}

/// A run inside a text that stands in `s` ends in `s` where it ends in the
/// text, if it ends before the end of the text or if `s` does not go on with
/// a character of the class.
proof fn lemma_run_in_text(s: Seq<char>, pos: int, text: Seq<char>, from: int, class: CharClass)
    requires
        literal_at(s, pos, text),
        0 <= from <= text.len(),
        run_end(text, from, class) < text.len() || pos + text.len() == s.len() || !in_class(
            class,
            s[pos + text.len()],
        ),
    ensures
        run_end(s, pos + from, class) == pos + run_end(text, from, class),
{
    lemma_run_bounds(text, from, class);
    lemma_run_content(text, from, class);
    let end = run_end(text, from, class);
    assert forall|i: int| pos + from <= i < pos + end implies in_class(class, #[trigger] s[i]) by {
        assert(s[pos + (i - pos)] == text[i - pos]);
    }
    if end < text.len() {
        assert(s[pos + end] == text[end]);
    }
    lemma_run_found(s, pos + from, pos + end, class);
}

/// A literal that stands in the text is read as that literal.
proof fn lemma_literal_reads(
    s: Seq<char>,
    pos: int,
    literal: ValueModel,
    text: Seq<char>,
    next: int,
)
    requires
        stands_at(s, pos, Token::Literal(literal), text, next),
    ensures
        value(s, pos) == Some((literal, next)),
{
    reveal_strlit("TRUE");
    reveal_strlit("FALSE");
    let token = Token::Literal(literal);
    lemma_spaces_around(s, pos, token, text, next);
    let end = pos + text.len();
    assert(s[pos + 0] == text[0]);
    match literal {
        ValueModel::Integer(number) => {
            let signed = text[0] == '-' || text[0] == '+';
            let skipped: int = if signed {
                1
            } else {
                0
            };
            let digits = text.skip(skipped);
            assert(text.skip(0) =~= text);
            assert(all_digits(digits));
            assert forall|i: int| pos + skipped <= i < end implies in_class(
                CharClass::Digit,
                #[trigger] s[i],
            ) by {
                assert(s[pos + (i - pos)] == text[i - pos]);
                assert(is_digit(digits[i - pos - skipped]));
                assert(digits[i - pos - skipped] == text[i - pos]);
            }
            lemma_run_found(s, pos + skipped, end, CharClass::Digit);
            assert(s.subrange(pos + skipped, end) =~= digits);
            if text[0] == '+' {
                lemma_run_found(s, pos, pos, CharClass::Digit);
            }
            assert(float_literal(s, pos) is None);
            assert(integer_literal(s, pos) == Some((number, next)));
        },
        ValueModel::Float(written) => {
            let start: int = if text[0] == '-' {
                1
            } else {
                0
            };
            lemma_run_in_text(s, pos, text, start, CharClass::Digit);
            let dot = run_end(text, start, CharClass::Digit);
            lemma_run_in_text(s, pos, text, dot + 1, CharClass::Digit);
            assert(s[pos + dot] == text[dot]);
            assert(s.subrange(pos, end) =~= text);
            assert(float_literal(s, pos) == Some((written, next)));
        },
        ValueModel::String(content) => {
            lemma_no_number(s, pos);
            lemma_keyword_absent(s, pos, FALSE@);
            lemma_keyword_absent(s, pos, TRUE@);
            assert forall|i: int| pos + 1 <= i < end - 1 implies in_class(
                CharClass::Quoted,
                #[trigger] s[i],
            ) by {
                assert(s[pos + (i - pos)] == text[i - pos]);
                assert(text[i - pos] == content[i - pos - 1]);
            }
            assert(s[pos + (text.len() - 1)] == text[text.len() - 1]);
            lemma_run_found(s, pos + 1, end - 1, CharClass::Quoted);
            assert(s.subrange(pos + 1, end - 1) =~= content) by {
                assert forall|i: int| 0 <= i < content.len() implies s[pos + 1 + i]
                    == content[i] by {
                    assert(s[pos + (i + 1)] == text[i + 1]);
                }
            }
            assert(string_literal(s, pos) == Some((content, next)));
        },
        ValueModel::Bool(flag) => {
            assert(same_letter(text[0], truth_word(flag)[0]));
            lemma_no_number(s, pos);
            lemma_word_reads(s, pos, token, text, next, truth_word(flag));
            if flag {
                lemma_keyword_differs(s, pos, TRUE@, FALSE@, 0);
            }
        },
    }
}

/// A token that stands in the text is read by its rule, which ends at the
/// next token.
pub proof fn lemma_lexeme_reads(s: Seq<char>, pos: int, token: Token, text: Seq<char>, next: int)
    requires
        stands_at(s, pos, token, text, next),
    ensures
        read_token(s, pos, token) == Some(next),
{
    lemma_spaces_around(s, pos, token, text, next);
    match token {
        Token::Keyword(word) => {
            lemma_word_reads(s, pos, token, text, next, word);
        },
        Token::Mark(mark) => {},
        Token::Name(name) => {
            assert forall|i: int| pos <= i < pos + text.len() implies in_class(
                CharClass::Name,
                #[trigger] s[i],
            ) by {
                assert(s[pos + (i - pos)] == text[i - pos]);
            }
            lemma_run_found(s, pos, pos + text.len(), CharClass::Name);
            assert(s.subrange(pos, pos + text.len()) =~= name);
        },
        Token::Comparison(operator) => {
            lemma_operator_reads(s, pos, operator, text, next);
        },
        Token::Type(column_type) => {
            lemma_type_reads(s, pos, column_type, text, next);
        },
        Token::Literal(literal) => {
            lemma_literal_reads(s, pos, literal, text, next);
        },
    }
}

/// The lead and the first `count` lexemes, written one after the other.
pub open spec fn written(lead: Seq<char>, lexemes: Seq<Lexeme>, count: int) -> Seq<char>
    decreases count,
{
    if count <= 0 {
        lead
    } else {
        written(lead, lexemes, count - 1) + lexemes[count - 1].text + lexemes[count - 1].gap
    }
}

/// The text that is written with these lexemes: the whitespace `lead`, then
/// for each lexeme its characters and the whitespace behind it.
pub open spec fn document(lead: Seq<char>, lexemes: Seq<Lexeme>) -> Seq<char> {
    written(lead, lexemes, lexemes.len() as int)
}

/// The lexemes write the tokens, one each, with whitespace where it pleases
/// and at least where a token would else take in the start of the next: a
/// name before a letter or an underscore, a number before a digit, an integer
/// before a point, `<` or `>` before `=`.
pub open spec fn well_spelled(tokens: Seq<Token>, lead: Seq<char>, lexemes: Seq<Lexeme>) -> bool {
    &&& lexemes.len() == tokens.len()
    &&& is_blank(lead)
    &&& forall|i: int|
        0 <= i < tokens.len() ==> spells(tokens[i], (#[trigger] lexemes[i]).text) && is_blank(
            lexemes[i].gap,
        )
    &&& forall|i: int|
        0 <= i && i + 1 < tokens.len() && (#[trigger] lexemes[i]).gap.len() == 0 ==> !glues(
            tokens[i],
            lexemes[i + 1].text[0],
        )
}

/// What is written with more lexemes starts with what is written with fewer.
proof fn lemma_written_grows(lead: Seq<char>, lexemes: Seq<Lexeme>, count: int, total: int)
    requires
        0 <= count <= total,
    ensures
        written(lead, lexemes, count).len() <= written(lead, lexemes, total).len(),
        forall|k: int|
            0 <= k < written(lead, lexemes, count).len() ==> #[trigger] written(
                lead,
                lexemes,
                total,
            )[k] == written(lead, lexemes, count)[k],
    decreases total - count,
{
    if count < total {
        lemma_written_grows(lead, lexemes, count, total - 1);
    }
}

/// What may stand behind the lexemes: nothing, or a text that starts neither
/// with whitespace, which belongs to the last lexeme, nor with a character
/// that the last token would take in where no whitespace is between them.
pub open spec fn follows(tokens: Seq<Token>, lexemes: Seq<Lexeme>, tail: Seq<char>) -> bool {
    tail.len() > 0 ==> {
        &&& !is_space(tail[0])
        &&& tokens.len() > 0 && lexemes.last().gap.len() == 0 ==> !glues(tokens.last(), tail[0])
    }
}

/// Every lexeme stands in the text where the lexemes before it end, and the
/// next lexeme, or what follows the last, stands behind its whitespace.
proof fn lemma_lexeme_stands(
    tokens: Seq<Token>,
    lead: Seq<char>,
    lexemes: Seq<Lexeme>,
    tail: Seq<char>,
    i: int,
)
    requires
        well_spelled(tokens, lead, lexemes),
        follows(tokens, lexemes, tail),
        0 <= i < tokens.len(),
    ensures
        stands_at(
            document(lead, lexemes) + tail,
            written(lead, lexemes, i).len() as int,
            tokens[i],
            lexemes[i].text,
            written(lead, lexemes, i + 1).len() as int,
        ),
{
    let whole = document(lead, lexemes);
    let s = whole + tail;
    let total = lexemes.len() as int;
    let before = written(lead, lexemes, i);
    let upto = written(lead, lexemes, i + 1);
    let pos = before.len() as int;
    let text = lexemes[i].text;
    let gap = lexemes[i].gap;
    let next = upto.len() as int;
    assert(upto == before + text + gap);
    lemma_written_grows(lead, lexemes, i + 1, total);
    assert forall|j: int| 0 <= j < text.len() implies s[pos + j] == #[trigger] text[j] by {
        assert(s[pos + j] == whole[pos + j]);
        assert(whole[pos + j] == upto[pos + j]);
    }
    assert forall|k: int| pos + text.len() <= k < next implies is_space(#[trigger] s[k]) by {
        assert(s[k] == whole[k]);
        assert(whole[k] == upto[k]);
        assert(upto[k] == gap[k - pos - text.len()]);
    }
    if i + 1 < total {
        let after = written(lead, lexemes, i + 2);
        let following = lexemes[i + 1].text;
        assert(after == upto + following + lexemes[i + 1].gap);
        lemma_spelling_starts(tokens[i + 1], following);
        lemma_written_grows(lead, lexemes, i + 2, total);
        assert(s[next] == whole[next]);
        assert(whole[next] == after[next]);
        assert(after[next] == following[0]);
    } else {
        assert(next == whole.len());
        assert(lexemes[i] == lexemes.last());
        assert(tokens[i] == tokens.last());
        if tail.len() > 0 {
            assert(s[next] == tail[0]);
        }
    }
}

/// From where the first `from` lexemes end, the tokens from `from` on are
/// read up to the end of the lexemes.
proof fn lemma_rest_reads(
    tokens: Seq<Token>,
    lead: Seq<char>,
    lexemes: Seq<Lexeme>,
    tail: Seq<char>,
    from: int,
)
    requires
        well_spelled(tokens, lead, lexemes),
        follows(tokens, lexemes, tail),
        0 <= from <= tokens.len(),
    ensures
        read_all(
            document(lead, lexemes) + tail,
            written(lead, lexemes, from).len() as int,
            tokens.skip(from),
        ) == Some(document(lead, lexemes).len() as int),
    decreases tokens.len() - from,
{
    let s = document(lead, lexemes) + tail;
    let pos = written(lead, lexemes, from).len() as int;
    if from < tokens.len() {
        let next = written(lead, lexemes, from + 1).len() as int;
        lemma_lexeme_stands(tokens, lead, lexemes, tail, from);
        lemma_lexeme_reads(s, pos, tokens[from], lexemes[from].text, next);
        lemma_rest_reads(tokens, lead, lexemes, tail, from + 1);
        assert(tokens.skip(from)[0] == tokens[from]);
        assert(tokens.skip(from).skip(1) =~= tokens.skip(from + 1));
    }
}

/// A rule reads from before whitespace what it reads from behind it.
proof fn lemma_lead_passed(s: Seq<char>, before: int, pos: int, token: Token)
    requires
        skip_spaces(s, before) == pos,
        skip_spaces(s, pos) == pos,
    ensures
        read_token(s, before, token) == read_token(s, pos, token),
{
    match token {
        Token::Keyword(word) => {},
        Token::Mark(mark) => {},
        Token::Name(name) => {},
        Token::Comparison(operator) => {
            assert(comparator(s, before) == comparator(s, pos));
        },
        Token::Type(column_type) => {
            assert(crate::grammar::column_type(s, before) == crate::grammar::column_type(s, pos));
        },
        Token::Literal(literal) => {
            assert(float_literal(s, before) == float_literal(s, pos));
            assert(integer_literal(s, before) == integer_literal(s, pos));
            assert(keyword(s, before, FALSE@) == keyword(s, pos, FALSE@));
            assert(keyword(s, before, TRUE@) == keyword(s, pos, TRUE@));
            assert(string_literal(s, before) == string_literal(s, pos));
        },
    }
}

/// A text that is written with lexemes that spell the tokens, and goes on
/// with what may follow them, starts with just these tokens: they are read
/// up to the end of the lexemes.
pub proof fn lemma_document_reads(
    tokens: Seq<Token>,
    lead: Seq<char>,
    lexemes: Seq<Lexeme>,
    tail: Seq<char>,
)
    requires
        tokens.len() > 0,
        well_spelled(tokens, lead, lexemes),
        follows(tokens, lexemes, tail),
    ensures
        read_all(document(lead, lexemes) + tail, 0, tokens) == Some(
            document(lead, lexemes).len() as int,
        ),
{
    let whole = document(lead, lexemes);
    let s = whole + tail;
    let start = lead.len() as int;
    let next = written(lead, lexemes, 1).len() as int;
    lemma_rest_reads(tokens, lead, lexemes, tail, 1);
    lemma_lexeme_stands(tokens, lead, lexemes, tail, 0);
    lemma_lexeme_reads(s, start, tokens[0], lexemes[0].text, next);
    lemma_spaces_around(s, start, tokens[0], lexemes[0].text, next);
    lemma_written_grows(lead, lexemes, 0, lexemes.len() as int);
    assert(skip_spaces(s, 0) == start) by {
        assert forall|k: int| 0 <= k < start implies in_class(
            CharClass::Space,
            #[trigger] s[k],
        ) by {
            assert(s[k] == whole[k]);
            assert(whole[k] == lead[k]);
        }
        lemma_run_found(s, 0, start, CharClass::Space);
    }
    lemma_lead_passed(s, 0, start, tokens[0]);
}

/// What follows a statement: a text that starts neither with whitespace,
/// which belongs to the last lexeme, nor with `WHERE` or `AND` in any case,
/// nor with a comma, with which the statement may go on.
pub open spec fn trails(tail: Seq<char>) -> bool {
    &&& tail.len() > 0 ==> !is_space(tail[0])
    &&& !word_at(tail, 0, WHERE@)
    &&& !word_at(tail, 0, AND@)
    &&& !literal_at(tail, 0, COMMA@)
}

/// Before a text that may follow a statement, the statement cannot go on.
pub proof fn lemma_tail_is_quiet(whole: Seq<char>, tail: Seq<char>)
    requires
        trails(tail),
    ensures
        quiet(whole + tail, whole.len() as int),
{
    let s = whole + tail;
    let end = whole.len() as int;
    if tail.len() > 0 {
        assert(s[end] == tail[0]);
    }
    lemma_run_found(s, end, end, CharClass::Space);
    if word_at(s, end, WHERE@) {
        assert forall|i: int| 0 <= i < WHERE@.len() implies same_letter(
            tail[0 + i],
            #[trigger] WHERE@[i],
        ) by {
            assert(s[end + i] == tail[i]);
        }
    }
    if word_at(s, end, AND@) {
        assert forall|i: int| 0 <= i < AND@.len() implies same_letter(
            tail[0 + i],
            #[trigger] AND@[i],
        ) by {
            assert(s[end + i] == tail[i]);
        }
    }
    if literal_at(s, end, COMMA@) {
        assert forall|i: int| 0 <= i < COMMA@.len() implies tail[0 + i] == #[trigger] COMMA@[i] by {
            assert(s[end + i] == tail[i]);
        }
    }
}

} // verus!
