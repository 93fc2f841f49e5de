use vstd::prelude::*;
use crate::grammar::{
    column_type, comparator, identifier, keyword, list_of, list_rest, symbol, value,
};
use crate::lexical::{lemma_keyword_within, lemma_rules_within, lemma_symbol_within};
use crate::query::{ColumnType, Operator, ValueModel};

verus! {

/// What a statement is made of, one after the other.
pub enum Token {
    /// A keyword, by the word that the grammar has for it.
    Keyword(Seq<char>),
    /// A punctuation mark or the `=` of an assignment, by its characters.
    Mark(Seq<char>),
    /// A name of a table or of a column.
    Name(Seq<char>),
    /// A comparison operator.
    Comparison(Operator),
    /// A column type.
    Type(ColumnType),
    /// A literal.
    Literal(ValueModel),
}

/// Where the text is after `token`, if the lexical rule for it reads just
/// that token at `pos`.
pub open spec fn read_token(s: Seq<char>, pos: int, token: Token) -> Option<int> {
    match token {
        Token::Keyword(word) => keyword(s, pos, word),
        Token::Mark(mark) => symbol(s, pos, mark),
        Token::Name(name) => match identifier(s, pos) {
            Some((found, end)) => if found == name {
                Some(end)
            } else {
                None
            },
            None => None,
        },
        Token::Comparison(operator) => match comparator(s, pos) {
            Some((found, end)) => if found == operator {
                Some(end)
            } else {
                None
            },
            None => None,
        },
        Token::Type(column_type) => match crate::grammar::column_type(s, pos) {
            Some((found, end)) => if found == column_type {
                Some(end)
            } else {
                None
            },
            None => None,
        },
        Token::Literal(literal) => match value(s, pos) {
            Some((found, end)) => if found == literal {
                Some(end)
            } else {
                None
            },
            None => None,
        },
    }
}

/// Where the text is after `tokens`, if they can be read one after the other
/// from `pos` on.
pub open spec fn read_all(s: Seq<char>, pos: int, tokens: Seq<Token>) -> Option<int>
    decreases tokens.len(),
{
    if tokens.len() == 0 {
        Some(pos)
    } else {
        match read_token(s, pos, tokens[0]) {
            None => None,
            Some(next) => read_all(s, next, tokens.skip(1)),
        }
    }
}

/// Reading two sequences of tokens in a row is reading the first and then,
/// from where it ended, the second.
pub proof fn lemma_read_concat(s: Seq<char>, pos: int, first: Seq<Token>, second: Seq<Token>)
    ensures
        read_all(s, pos, first + second) == match read_all(s, pos, first) {
            Some(middle) => read_all(s, middle, second),
            None => None,
        },
    decreases first.len(),
{
    if first.len() == 0 {
        assert(first + second =~= second);
    } else {
        assert((first + second)[0] == first[0]);
        assert((first + second).skip(1) =~= first.skip(1) + second);
        match read_token(s, pos, first[0]) {
            None => {},
            Some(next) => {
                lemma_read_concat(s, next, first.skip(1), second);
            },
        }
    }
}

/// Reading one token is reading the sequence that holds it alone.
pub proof fn lemma_read_one(s: Seq<char>, pos: int, token: Token)
    ensures
        read_all(s, pos, seq![token]) == read_token(s, pos, token),
{
    assert(seq![token].skip(1) =~= Seq::<Token>::empty());
    match read_token(s, pos, token) {
        None => {},
        Some(next) => {
            assert(read_all(s, next, Seq::<Token>::empty()) == Some(next));
        },
    }
}

/// The tokens of the items from the one at `from` on, each after a separator.
pub open spec fn more_tokens<T>(
    items: Seq<T>,
    from: int,
    item_tokens: spec_fn(T) -> Seq<Token>,
    separator: Token,
) -> Seq<Token>
    decreases items.len() - from,
{
    if 0 <= from < items.len() {
        seq![separator] + item_tokens(items[from]) + more_tokens(
            items,
            from + 1,
            item_tokens,
            separator,
        )
    } else {
        Seq::empty()
    }
}

/// The tokens of a list of one or more items with a separator between them.
pub open spec fn list_tokens<T>(
    items: Seq<T>,
    item_tokens: spec_fn(T) -> Seq<Token>,
    separator: Token,
) -> Seq<Token> {
    item_tokens(items[0]) + more_tokens(items, 1, item_tokens, separator)
}

/// Where its tokens can be read, the rule of an item reads that item and
/// ends where they end, which is further on.
pub open spec fn item_reads<T>(
    item: spec_fn(Seq<char>, int) -> Option<(T, int)>,
    item_tokens: spec_fn(T) -> Seq<Token>,
    s: Seq<char>,
) -> bool {
    forall|pos: int, x: T|
        0 <= pos <= s.len() && (#[trigger] read_all(s, pos, item_tokens(x))) is Some ==> {
            let end = read_all(s, pos, item_tokens(x))->0;
            item(s, pos) == Some((x, end)) && pos < end <= s.len()
        }
}

/// The rule of the separator reads just the separator's token and does not
/// go back.
pub open spec fn separator_reads(
    separator: spec_fn(Seq<char>, int) -> Option<int>,
    token: Token,
    s: Seq<char>,
) -> bool {
    forall|pos: int|
        0 <= pos <= s.len() ==> {
            &&& #[trigger] separator(s, pos) == read_token(s, pos, token)
            &&& separator(s, pos) matches Some(end) ==> pos <= end <= s.len()
        }
}

/// A list cannot go on at `pos`: no separator stands there, or no item
/// follows it.
pub open spec fn list_stops<T>(
    item: spec_fn(Seq<char>, int) -> Option<(T, int)>,
    separator: spec_fn(Seq<char>, int) -> Option<int>,
    s: Seq<char>,
    pos: int,
) -> bool {
    match separator(s, pos) {
        None => true,
        Some(after_separator) => item(s, after_separator) is None,
    }
}

/// Where the tokens of the items from `from` on can be read and the list
/// cannot go on behind them, the rest of the list adds just those items to
/// the ones found before.
pub proof fn lemma_list_rest_reads<T>(
    item: spec_fn(Seq<char>, int) -> Option<(T, int)>,
    separator: spec_fn(Seq<char>, int) -> Option<int>,
    item_tokens: spec_fn(T) -> Seq<Token>,
    separator_token: Token,
    s: Seq<char>,
    pos: int,
    items: Seq<T>,
    from: int,
    end: int,
    found: Seq<T>,
)
    requires
        0 <= pos <= s.len(),
        0 <= from <= items.len(),
        read_all(s, pos, more_tokens(items, from, item_tokens, separator_token)) == Some(end),
        item_reads(item, item_tokens, s),
        separator_reads(separator, separator_token, s),
        list_stops(item, separator, s, end),
    ensures
        list_rest(item, separator, s, pos, found) == (
            found + items.subrange(from, items.len() as int),
            end,
        ),
        pos <= end <= s.len(),
    decreases items.len() - from,
{
    if from < items.len() {
        let head = seq![separator_token];
        let body = item_tokens(items[from]);
        let tail = more_tokens(items, from + 1, item_tokens, separator_token);
        assert(more_tokens(items, from, item_tokens, separator_token) == head + body + tail);
        lemma_read_concat(s, pos, head + body, tail);
        lemma_read_concat(s, pos, head, body);
        lemma_read_one(s, pos, separator_token);
        let after_separator = read_token(s, pos, separator_token)->0;
        assert(separator(s, pos) == Some(after_separator));
        let after_item = read_all(s, after_separator, body)->0;
        assert(item(s, after_separator) == Some((items[from], after_item)));
        lemma_list_rest_reads(
            item,
            separator,
            item_tokens,
            separator_token,
            s,
            after_item,
            items,
            from + 1,
            end,
            found.push(items[from]),
        );
        assert(found.push(items[from]) + items.subrange(from + 1, items.len() as int) =~= found
            + items.subrange(from, items.len() as int));
    } else {
        assert(found + items.subrange(from, items.len() as int) =~= found);
    }
}

/// Where the tokens of a list can be read and the list cannot go on behind
/// them, the list rule reads the items in their order.
pub proof fn lemma_list_reads<T>(
    item: spec_fn(Seq<char>, int) -> Option<(T, int)>,
    separator: spec_fn(Seq<char>, int) -> Option<int>,
    item_tokens: spec_fn(T) -> Seq<Token>,
    separator_token: Token,
    s: Seq<char>,
    pos: int,
    items: Seq<T>,
    end: int,
)
    requires
        0 <= pos <= s.len(),
        items.len() > 0,
        read_all(s, pos, list_tokens(items, item_tokens, separator_token)) == Some(end),
        item_reads(item, item_tokens, s),
        separator_reads(separator, separator_token, s),
        list_stops(item, separator, s, end),
    ensures
        list_of(item, separator, s, pos) == Some((items, end)),
        pos < end <= s.len(),
{
    let first = item_tokens(items[0]);
    let others = more_tokens(items, 1, item_tokens, separator_token);
    lemma_read_concat(s, pos, first, others);
    let after_first = read_all(s, pos, first)->0;
    assert(item(s, pos) == Some((items[0], after_first)));
    lemma_list_rest_reads(
        item,
        separator,
        item_tokens,
        separator_token,
        s,
        after_first,
        items,
        1,
        end,
        seq![items[0]],
    );
    assert(seq![items[0]] + items.subrange(1, items.len() as int) =~= items);
}

/// Reading a token and then more tokens is reading the sequence that starts
/// with the token.
pub proof fn lemma_read_first(s: Seq<char>, pos: int, token: Token, others: Seq<Token>)
    ensures
        read_all(s, pos, seq![token] + others) == match read_token(s, pos, token) {
            Some(next) => read_all(s, next, others),
            None => None,
        },
{
    lemma_read_concat(s, pos, seq![token], others);
    lemma_read_one(s, pos, token);
}

/// Reading tokens does not go back and ends within the text.
pub proof fn lemma_reads_within(s: Seq<char>, pos: int, tokens: Seq<Token>)
    requires
        0 <= pos <= s.len(),
    ensures
        read_all(s, pos, tokens) matches Some(end) ==> pos <= end <= s.len(),
    decreases tokens.len(),
{
    if tokens.len() > 0 {
        match read_token(s, pos, tokens[0]) {
            None => {},
            Some(next) => {
                lemma_token_within(s, pos, tokens[0]);
                lemma_reads_within(s, next, tokens.skip(1));
            },
        }
    }
}

/// Reading a token does not go back and ends within the text.
pub proof fn lemma_token_within(s: Seq<char>, pos: int, token: Token)
    requires
        0 <= pos <= s.len(),
    ensures
        read_token(s, pos, token) matches Some(end) ==> pos <= end <= s.len(),
{
    lemma_rules_within(s, pos);
    match token {
        Token::Keyword(word) => {
            lemma_keyword_within(s, pos, word);
        },
        Token::Mark(mark) => {
            lemma_symbol_within(s, pos, mark);
        },
        _ => {},
    }
}

} // verus!
