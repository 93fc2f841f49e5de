use vstd::prelude::*;
use crate::grammar::{
    add_clause, added_all, alter_clause, alter_clauses_rest, alter_table_statement, and_rule,
    assignment, assignment_rule, column_definition, column_rule, comma_rule, comparator,
    composite_key, composite_key_columns, condition, condition_rule, create_table_statement,
    delete_statement, delete_target, drop_clause, drop_table_statement, dropped_all, flat_key,
    float_literal, identifier, identifier_rule, inline_key_ahead, inline_key_columns,
    insert_statement, keyword, lemma_list_not_empty, list_of, list_rest, optional_list_of,
    parenthesized, rest, select_columns, select_statement, skip_spaces, statement, statement_kind,
    symbol, table_body, update_statement, value, value_rule, where_clause,
};
use crate::keyword::{
    ADD, ALTER_TABLE, AND, CLOSE, COMMA, CREATE_TABLE, DELETE, DROP, DROP_TABLE, EQUALS, FROM,
    INSERT_INTO, OPEN, PRIMARY_KEY, SELECT, SET, STAR, UPDATE, VALUES, WHERE,
};
use crate::lexical::{lemma_keyword_within, lemma_rules_within, lemma_symbol_within};
use crate::query::{
    columns_well_formed, conditions_well_formed, entries_well_formed, names_well_formed, AlterModel,
    ColumnModel, ConditionModel, ErrorModel, ValueModel,
};
use crate::text::{
    in_class, is_float_text, is_name, is_name_char, lemma_run_bounds, lemma_run_content,
    lemma_run_found, run_end, CharClass,
};

verus! {

/// What the rule for floating-point literals reads is such a literal: an
/// optional `-`, one or more digits, a `.`, and one or more digits.
pub proof fn lemma_float_is_float_text(s: Seq<char>, pos: int)
    requires
        0 <= pos <= s.len(),
    ensures
        float_literal(s, pos) matches Some((text, _)) ==> is_float_text(text),
{
    if float_literal(s, pos) is Some {
        lemma_run_bounds(s, pos, CharClass::Space);
        let start = skip_spaces(s, pos);
        let digits = if s[start] == '-' {
            start + 1
        } else {
            start
        };
        lemma_run_bounds(s, digits, CharClass::Digit);
        lemma_run_content(s, digits, CharClass::Digit);
        let dot = run_end(s, digits, CharClass::Digit);
        lemma_run_bounds(s, dot + 1, CharClass::Digit);
        lemma_run_content(s, dot + 1, CharClass::Digit);
        let end = run_end(s, dot + 1, CharClass::Digit);
        let text = s.subrange(start, end);
        assert(text[0] == s[start]);
        assert forall|i: int| digits - start <= i < dot - start implies in_class(
            CharClass::Digit,
            #[trigger] text[i],
        ) by {
            assert(text[i] == s[start + i]);
        }
        assert(text[dot - start] == s[dot]);
        lemma_run_found(text, digits - start, dot - start, CharClass::Digit);
        assert forall|i: int| dot + 1 - start <= i < end - start implies in_class(
            CharClass::Digit,
            #[trigger] text[i],
        ) by {
            assert(text[i] == s[start + i]);
        }
        lemma_run_found(text, dot + 1 - start, end - start, CharClass::Digit);
    }
}

/// What the rule for names reads is a name, and the rule ends within the
/// text, after where it started.
pub proof fn lemma_identifier_is_name(s: Seq<char>, pos: int)
    requires
        0 <= pos <= s.len(),
    ensures
        identifier(s, pos) matches Some((name, end)) ==> is_name(name) && pos < end <= s.len(),
{
    lemma_rules_within(s, pos);
    if identifier(s, pos) is Some {
        lemma_run_bounds(s, pos, CharClass::Space);
        let start = skip_spaces(s, pos);
        lemma_run_bounds(s, start, CharClass::Name);
        lemma_run_content(s, start, CharClass::Name);
        let end = run_end(s, start, CharClass::Name);
        let name = s.subrange(start, end);
        assert forall|i: int| 0 <= i < name.len() implies is_name_char(
            #[trigger] name[i],
        ) by {
            assert(name[i] == s[start + i]);
            assert(in_class(CharClass::Name, s[start + i]));
        }
    }
}

/// What the rule for literals reads is well formed, and the rule ends within
/// the text, after where it started.
pub proof fn lemma_value_well_formed(s: Seq<char>, pos: int)
    requires
        0 <= pos <= s.len(),
    ensures
        value(s, pos) matches Some((literal, end)) ==> literal.well_formed() && pos < end
            <= s.len(),
{
    lemma_float_is_float_text(s, pos);
    lemma_rules_within(s, pos);
}

/// What the rule for conditions reads is well formed, and the rule ends
/// within the text, after where it started.
pub proof fn lemma_condition_well_formed(s: Seq<char>, pos: int)
    requires
        0 <= pos <= s.len(),
    ensures
        condition(s, pos) matches Some((read, end)) ==> read.well_formed() && pos < end
            <= s.len(),
{
    lemma_identifier_is_name(s, pos);
    if condition(s, pos) is Some {
        let after_column = (identifier(s, pos)->0).1;
        lemma_rules_within(s, after_column);
        let after_operator = (comparator(s, after_column)->0).1;
        lemma_value_well_formed(s, after_operator);
    }
}

/// What the rule for assignments reads is a name and a well-formed literal,
/// and the rule ends within the text, after where it started.
pub proof fn lemma_assignment_well_formed(s: Seq<char>, pos: int)
    requires
        0 <= pos <= s.len(),
    ensures
        assignment(s, pos) matches Some((read, end)) ==> is_name(read.0) && read.1.well_formed()
            && pos < end <= s.len(),
{
    lemma_identifier_is_name(s, pos);
    if assignment(s, pos) is Some {
        let after_column = (identifier(s, pos)->0).1;
        lemma_symbol_within(s, after_column, EQUALS@);
        let after_equals = symbol(s, after_column, EQUALS@)->0;
        lemma_value_well_formed(s, after_equals);
    }
}

/// What the rule for column definitions reads is well formed, and the rule
/// ends within the text, after where it started.
pub proof fn lemma_column_well_formed(s: Seq<char>, pos: int)
    requires
        0 <= pos <= s.len(),
    ensures
        column_definition(s, pos) matches Some((read, end)) ==> read.well_formed() && pos < end
            <= s.len(),
{
    lemma_identifier_is_name(s, pos);
    if column_definition(s, pos) is Some {
        let after_name = (identifier(s, pos)->0).1;
        lemma_rules_within(s, after_name);
    }
}

/// Whether every item that a rule reads within the text has a property and
/// ends within the text.
pub open spec fn reads_only<T>(
    item: spec_fn(Seq<char>, int) -> Option<(T, int)>,
    s: Seq<char>,
    good: spec_fn(T) -> bool,
) -> bool {
    forall|pos: int|
        0 <= pos <= s.len() ==> ((#[trigger] item(s, pos)) matches Some((read, end)) ==> good(
            read,
        ) && 0 <= end <= s.len())
}

/// Whether a separator that is read within the text ends within it.
pub open spec fn stays_within(
    separator: spec_fn(Seq<char>, int) -> Option<int>,
    s: Seq<char>,
) -> bool {
    forall|pos: int|
        0 <= pos <= s.len() ==> ((#[trigger] separator(s, pos)) matches Some(end) ==> 0 <= end
            <= s.len())
}

/// Whether every one of the items has a property.
pub open spec fn all_good<T>(items: Seq<T>, good: spec_fn(T) -> bool) -> bool {
    forall|i: int| 0 <= i < items.len() ==> good(#[trigger] items[i])
}

/// The items of the rest of a list have every property that the items found
/// before and the items which its rule reads have, and the rest ends within
/// the text.
pub proof fn lemma_list_rest_keeps<T>(
    item: spec_fn(Seq<char>, int) -> Option<(T, int)>,
    separator: spec_fn(Seq<char>, int) -> Option<int>,
    s: Seq<char>,
    pos: int,
    found: Seq<T>,
    good: spec_fn(T) -> bool,
)
    requires
        0 <= pos <= s.len(),
        reads_only(item, s, good),
        stays_within(separator, s),
        all_good(found, good),
    ensures
        all_good(list_rest(item, separator, s, pos, found).0, good),
        pos <= list_rest(item, separator, s, pos, found).1 <= s.len(),
    decreases s.len() - pos,
{
    let items = list_rest(item, separator, s, pos, found).0;
    let more = match separator(s, pos) {
        None => false,
        Some(after_separator) => match item(s, after_separator) {
            None => false,
            Some((_, end)) => pos < end <= s.len(),
        },
    };
    if more {
        let after_separator = separator(s, pos)->0;
        assert(0 <= after_separator <= s.len());
        let next = (item(s, after_separator)->0).0;
        let end = (item(s, after_separator)->0).1;
        assert(good(next));
        assert forall|i: int| 0 <= i < found.push(next).len() implies good(
            #[trigger] found.push(next)[i],
        ) by {
            if i < found.len() {
                assert(found.push(next)[i] == found[i]);
            }
        }
        lemma_list_rest_keeps(item, separator, s, end, found.push(next), good);
        assert(items == list_rest(item, separator, s, end, found.push(next)).0);
    } else {
        assert(items == found);
    }
}

/// The items of a list that is read have every property that the items
/// which its rule reads have, and the list ends within the text.
pub proof fn lemma_list_keeps<T>(
    item: spec_fn(Seq<char>, int) -> Option<(T, int)>,
    separator: spec_fn(Seq<char>, int) -> Option<int>,
    s: Seq<char>,
    pos: int,
    good: spec_fn(T) -> bool,
)
    requires
        0 <= pos <= s.len(),
        reads_only(item, s, good),
        stays_within(separator, s),
    ensures
        list_of(item, separator, s, pos) matches Some((items, end)) ==> all_good(items, good)
            && items.len() > 0 && 0 <= end <= s.len(),
        all_good(optional_list_of(item, separator, s, pos).0, good),
        0 <= optional_list_of(item, separator, s, pos).1 <= s.len(),
{
    lemma_list_not_empty(item, separator, s, pos);
    match item(s, pos) {
        None => {},
        Some((first, end)) => {
            lemma_list_rest_keeps(item, separator, s, end, seq![first], good);
        },
    }
}

/// The items of a list in parentheses that is read have every property that
/// the items which its rule reads have, and the list ends within the text.
pub proof fn lemma_group_keeps<T>(
    item: spec_fn(Seq<char>, int) -> Option<(T, int)>,
    s: Seq<char>,
    pos: int,
    good: spec_fn(T) -> bool,
)
    requires
        0 <= pos <= s.len(),
        reads_only(item, s, good),
    ensures
        parenthesized(item, s, pos) matches Some((items, end)) ==> all_good(items, good)
            && items.len() > 0 && 0 <= end <= s.len(),
{
    lemma_separators_stay(s);
    lemma_symbol_within(s, pos, OPEN@);
    if symbol(s, pos, OPEN@) is Some {
        let after_open = symbol(s, pos, OPEN@)->0;
        lemma_list_keeps(item, comma_rule(), s, after_open, good);
        if list_of(item, comma_rule(), s, after_open) is Some {
            let after_items = (list_of(item, comma_rule(), s, after_open)->0).1;
            lemma_symbol_within(s, after_items, CLOSE@);
        }
    }
}

/// Being a name, as a value.
pub open spec fn sound_name() -> spec_fn(Seq<char>) -> bool {
    |name: Seq<char>| is_name(name)
}

/// Being a well-formed literal, as a value.
pub open spec fn sound_value() -> spec_fn(ValueModel) -> bool {
    |literal: ValueModel| literal.well_formed()
}

/// Being a well-formed condition, as a value.
pub open spec fn sound_condition() -> spec_fn(ConditionModel) -> bool {
    |condition: ConditionModel| condition.well_formed()
}

/// Being an assignment of a name and a well-formed literal, as a value.
pub open spec fn sound_assignment() -> spec_fn((Seq<char>, ValueModel)) -> bool {
    |assignment: (Seq<char>, ValueModel)| is_name(assignment.0) && assignment.1.well_formed()
}

/// Being a well-formed column, as a value.
pub open spec fn sound_column() -> spec_fn(ColumnModel) -> bool {
    |column: ColumnModel| column.well_formed()
}

/// The separators of the lists end within the text.
pub proof fn lemma_separators_stay(s: Seq<char>)
    ensures
        stays_within(comma_rule(), s),
        stays_within(and_rule(), s),
{
    assert forall|pos: int| 0 <= pos <= s.len() implies ((#[trigger] comma_rule()(
        s,
        pos,
    )) matches Some(
        end,
    ) ==> 0 <= end <= s.len()) by {
        lemma_symbol_within(s, pos, COMMA@);
    }
    assert forall|pos: int| 0 <= pos <= s.len() implies ((#[trigger] and_rule()(
        s,
        pos,
    )) matches Some(
        end,
    ) ==> 0 <= end <= s.len()) by {
        lemma_keyword_within(s, pos, AND@);
    }
}

/// The rules for the items of lists read well-formed items only.
pub proof fn lemma_items_sound(s: Seq<char>)
    ensures
        reads_only(identifier_rule(), s, sound_name()),
        reads_only(value_rule(), s, sound_value()),
        reads_only(condition_rule(), s, sound_condition()),
        reads_only(assignment_rule(), s, sound_assignment()),
        reads_only(column_rule(), s, sound_column()),
{
    assert forall|pos: int| 0 <= pos <= s.len() implies ((#[trigger] identifier_rule()(
        s,
        pos,
    )) matches Some((read, end)) ==> sound_name()(read) && 0 <= end <= s.len()) by {
        lemma_identifier_is_name(s, pos);
    }
    assert forall|pos: int| 0 <= pos <= s.len() implies ((#[trigger] value_rule()(
        s,
        pos,
    )) matches Some(
        (read, end),
    ) ==> sound_value()(read) && 0 <= end <= s.len()) by {
        lemma_value_well_formed(s, pos);
    }
    assert forall|pos: int| 0 <= pos <= s.len() implies ((#[trigger] condition_rule()(
        s,
        pos,
    )) matches Some((read, end)) ==> sound_condition()(read) && 0 <= end <= s.len()) by {
        lemma_condition_well_formed(s, pos);
    }
    assert forall|pos: int| 0 <= pos <= s.len() implies ((#[trigger] assignment_rule()(
        s,
        pos,
    )) matches Some((read, end)) ==> sound_assignment()(read) && 0 <= end <= s.len()) by {
        lemma_assignment_well_formed(s, pos);
    }
    assert forall|pos: int| 0 <= pos <= s.len() implies ((#[trigger] column_rule()(
        s,
        pos,
    )) matches Some(
        (read, end),
    ) ==> sound_column()(read) && 0 <= end <= s.len()) by {
        lemma_column_well_formed(s, pos);
    }
}

/// The conditions that are read are well formed.
proof fn lemma_where_well_formed(s: Seq<char>, pos: int)
    requires
        0 <= pos <= s.len(),
    ensures
        where_clause(s, pos) matches Some((conditions, _)) ==> conditions_well_formed(conditions),
{
    lemma_items_sound(s);
    lemma_separators_stay(s);
    lemma_keyword_within(s, pos, WHERE@);
    if keyword(s, pos, WHERE@) is Some {
        let after_where = keyword(s, pos, WHERE@)->0;
        lemma_list_keeps(condition_rule(), and_rule(), s, after_where, sound_condition());
        if where_clause(s, pos) is Some {
            let conditions = (where_clause(s, pos)->0).0;
            assert forall|i: int| 0 <= i < conditions.len() implies (
            #[trigger] conditions[i]).well_formed() by {
                assert(sound_condition()(conditions[i]));
            }
        }
    }
}

/// The names of a list that is read are names.
proof fn lemma_names_well_formed(s: Seq<char>, pos: int)
    requires
        0 <= pos <= s.len(),
    ensures
        list_of(identifier_rule(), comma_rule(), s, pos) matches Some((names, end))
            ==> names_well_formed(names) && names.len() > 0 && 0 <= end <= s.len(),
        names_well_formed(optional_list_of(identifier_rule(), comma_rule(), s, pos).0),
        0 <= optional_list_of(identifier_rule(), comma_rule(), s, pos).1 <= s.len(),
        parenthesized(identifier_rule(), s, pos) matches Some((names, end)) ==> names_well_formed(
            names,
        ) && names.len() > 0 && 0 <= end <= s.len(),
{
    lemma_items_sound(s);
    lemma_separators_stay(s);
    lemma_list_keeps(identifier_rule(), comma_rule(), s, pos, sound_name());
    lemma_group_keeps(identifier_rule(), s, pos, sound_name());
    if list_of(identifier_rule(), comma_rule(), s, pos) is Some {
        let names = (list_of(identifier_rule(), comma_rule(), s, pos)->0).0;
        assert forall|i: int| 0 <= i < names.len() implies is_name(#[trigger] names[i]) by {
            assert(sound_name()(names[i]));
        }
    }
    let others = optional_list_of(identifier_rule(), comma_rule(), s, pos).0;
    assert forall|i: int| 0 <= i < others.len() implies is_name(#[trigger] others[i]) by {
        assert(sound_name()(others[i]));
    }
    if parenthesized(identifier_rule(), s, pos) is Some {
        let names = (parenthesized(identifier_rule(), s, pos)->0).0;
        assert forall|i: int| 0 <= i < names.len() implies is_name(#[trigger] names[i]) by {
            assert(sound_name()(names[i]));
        }
    }
}

/// The columns of a list that is read are well formed.
proof fn lemma_columns_well_formed(s: Seq<char>, pos: int)
    requires
        0 <= pos <= s.len(),
    ensures
        list_of(column_rule(), comma_rule(), s, pos) matches Some((columns, end))
            ==> columns_well_formed(columns) && columns.len() > 0 && 0 <= end <= s.len(),
        columns_well_formed(optional_list_of(column_rule(), comma_rule(), s, pos).0),
        0 <= optional_list_of(column_rule(), comma_rule(), s, pos).1 <= s.len(),
        parenthesized(column_rule(), s, pos) matches Some((columns, end)) ==> columns_well_formed(
            columns,
        ) && columns.len() > 0 && 0 <= end <= s.len(),
{
    lemma_items_sound(s);
    lemma_separators_stay(s);
    lemma_list_keeps(column_rule(), comma_rule(), s, pos, sound_column());
    lemma_group_keeps(column_rule(), s, pos, sound_column());
    if list_of(column_rule(), comma_rule(), s, pos) is Some {
        let columns = (list_of(column_rule(), comma_rule(), s, pos)->0).0;
        assert forall|i: int| 0 <= i < columns.len() implies (
        #[trigger] columns[i]).well_formed() by {
            assert(sound_column()(columns[i]));
        }
    }
    let others = optional_list_of(column_rule(), comma_rule(), s, pos).0;
    assert forall|i: int| 0 <= i < others.len() implies (#[trigger] others[i]).well_formed() by {
        assert(sound_column()(others[i]));
    }
    if parenthesized(column_rule(), s, pos) is Some {
        let columns = (parenthesized(column_rule(), s, pos)->0).0;
        assert forall|i: int| 0 <= i < columns.len() implies (
        #[trigger] columns[i]).well_formed() by {
            assert(sound_column()(columns[i]));
        }
    }
}

/// A `SELECT` that parses is well formed, and its error comes of the text.
proof fn lemma_select_sound(s: Seq<char>)
    ensures
        select_statement(s) matches Ok(query) ==> query.well_formed(),
        select_statement(s) matches Err(error) ==> error.comes_of(s),
{
    assert(rest(s, 0) == s.subrange(0, s.len() as int));
    lemma_keyword_within(s, 0, SELECT@);
    if keyword(s, 0, SELECT@) is Some {
        let at1 = keyword(s, 0, SELECT@)->0;
        assert(rest(s, at1) == s.subrange(at1, s.len() as int));
        lemma_symbol_within(s, at1, STAR@);
        lemma_names_well_formed(s, at1);
        if select_columns(s, at1) is Some {
            let at2 = (select_columns(s, at1)->0).1;
            assert(rest(s, at2) == s.subrange(at2, s.len() as int));
            lemma_keyword_within(s, at2, FROM@);
            if keyword(s, at2, FROM@) is Some {
                let at3 = keyword(s, at2, FROM@)->0;
                assert(rest(s, at3) == s.subrange(at3, s.len() as int));
                lemma_identifier_is_name(s, at3);
                if identifier(s, at3) is Some {
                    let at4 = (identifier(s, at3)->0).1;
                    assert(rest(s, at4) == s.subrange(at4, s.len() as int));
                    lemma_where_well_formed(s, at4);
                }
            }
        }
    }
}

/// An `INSERT` that parses is well formed, and its error comes of the text.
proof fn lemma_insert_sound(s: Seq<char>)
    ensures
        insert_statement(s) matches Ok(query) ==> query.well_formed(),
        insert_statement(s) matches Err(error) ==> error.comes_of(s),
{
    lemma_items_sound(s);
    assert(rest(s, 0) == s.subrange(0, s.len() as int));
    lemma_keyword_within(s, 0, INSERT_INTO@);
    if keyword(s, 0, INSERT_INTO@) is Some {
        let at1 = keyword(s, 0, INSERT_INTO@)->0;
        assert(rest(s, at1) == s.subrange(at1, s.len() as int));
        lemma_identifier_is_name(s, at1);
        if identifier(s, at1) is Some {
            let at2 = (identifier(s, at1)->0).1;
            assert(rest(s, at2) == s.subrange(at2, s.len() as int));
            lemma_names_well_formed(s, at2);
            if parenthesized(identifier_rule(), s, at2) is Some {
                let at3 = (parenthesized(identifier_rule(), s, at2)->0).1;
                assert(rest(s, at3) == s.subrange(at3, s.len() as int));
                lemma_keyword_within(s, at3, VALUES@);
                if keyword(s, at3, VALUES@) is Some {
                    let at4 = keyword(s, at3, VALUES@)->0;
                    assert(rest(s, at4) == s.subrange(at4, s.len() as int));
                    lemma_group_keeps(value_rule(), s, at4, sound_value());
                    if parenthesized(value_rule(), s, at4) is Some {
                        let values = (parenthesized(value_rule(), s, at4)->0).0;
                        assert forall|i: int| 0 <= i < values.len() implies (
                        #[trigger] values[i]).well_formed() by {
                            assert(sound_value()(values[i]));
                        }
                    }
                }
            }
        }
    }
}

/// An `UPDATE` that parses is well formed, and its error comes of the text.
proof fn lemma_update_sound(s: Seq<char>)
    ensures
        update_statement(s) matches Ok(query) ==> query.well_formed(),
        update_statement(s) matches Err(error) ==> error.comes_of(s),
{
    lemma_items_sound(s);
    lemma_separators_stay(s);
    assert(rest(s, 0) == s.subrange(0, s.len() as int));
    lemma_keyword_within(s, 0, UPDATE@);
    if keyword(s, 0, UPDATE@) is Some {
        let at1 = keyword(s, 0, UPDATE@)->0;
        assert(rest(s, at1) == s.subrange(at1, s.len() as int));
        lemma_identifier_is_name(s, at1);
        if identifier(s, at1) is Some {
            let at2 = (identifier(s, at1)->0).1;
            assert(rest(s, at2) == s.subrange(at2, s.len() as int));
            lemma_keyword_within(s, at2, SET@);
            if keyword(s, at2, SET@) is Some {
                let at3 = keyword(s, at2, SET@)->0;
                assert(rest(s, at3) == s.subrange(at3, s.len() as int));
                lemma_list_keeps(assignment_rule(), comma_rule(), s, at3, sound_assignment());
                if list_of(assignment_rule(), comma_rule(), s, at3) is Some {
                    let values = (list_of(assignment_rule(), comma_rule(), s, at3)->0).0;
                    let at4 = (list_of(assignment_rule(), comma_rule(), s, at3)->0).1;
                    assert(rest(s, at4) == s.subrange(at4, s.len() as int));
                    assert forall|i: int| 0 <= i < values.len() implies is_name(
                        (#[trigger] values[i]).0,
                    ) && values[i].1.well_formed() by {
                        assert(sound_assignment()(values[i]));
                    }
                    lemma_where_well_formed(s, at4);
                }
            }
        }
    }
}

/// What follows the `FROM` of a `DELETE`, where it parses, is well formed
/// with well-formed columns, and its error comes of the text.
proof fn lemma_delete_target_sound(s: Seq<char>, pos: int, columns: Seq<Seq<char>>)
    requires
        0 <= pos <= s.len(),
        names_well_formed(columns),
    ensures
        delete_target(s, pos, columns) matches Ok(query) ==> query.well_formed(),
        delete_target(s, pos, columns) matches Err(error) ==> error.comes_of(s),
{
    assert(rest(s, pos) == s.subrange(pos, s.len() as int));
    lemma_identifier_is_name(s, pos);
    if identifier(s, pos) is Some {
        let at1 = (identifier(s, pos)->0).1;
        assert(rest(s, at1) == s.subrange(at1, s.len() as int));
        lemma_where_well_formed(s, at1);
    }
}

/// A `DELETE` that parses is well formed, and its error comes of the text.
proof fn lemma_delete_sound(s: Seq<char>)
    ensures
        delete_statement(s) matches Ok(query) ==> query.well_formed(),
        delete_statement(s) matches Err(error) ==> error.comes_of(s),
{
    assert(rest(s, 0) == s.subrange(0, s.len() as int));
    lemma_keyword_within(s, 0, DELETE@);
    if keyword(s, 0, DELETE@) is Some {
        let at1 = keyword(s, 0, DELETE@)->0;
        assert(rest(s, at1) == s.subrange(at1, s.len() as int));
        lemma_keyword_within(s, at1, FROM@);
        if keyword(s, at1, FROM@) is Some {
            lemma_delete_target_sound(s, keyword(s, at1, FROM@)->0, Seq::empty());
        } else {
            lemma_names_well_formed(s, at1);
            if list_of(identifier_rule(), comma_rule(), s, at1) is Some {
                let columns = (list_of(identifier_rule(), comma_rule(), s, at1)->0).0;
                let at2 = (list_of(identifier_rule(), comma_rule(), s, at1)->0).1;
                assert(rest(s, at2) == s.subrange(at2, s.len() as int));
                lemma_keyword_within(s, at2, FROM@);
                if keyword(s, at2, FROM@) is Some {
                    lemma_delete_target_sound(s, keyword(s, at2, FROM@)->0, columns);
                }
            }
        }
    }
}

/// A primary key clause that is read is well formed.
proof fn lemma_key_well_formed(s: Seq<char>, pos: int)
    requires
        0 <= pos <= s.len(),
    ensures
        composite_key(s, pos) matches Some((key, _)) ==> key.well_formed(),
{
    lemma_symbol_within(s, pos, OPEN@);
    if symbol(s, pos, OPEN@) is Some {
        let at1 = symbol(s, pos, OPEN@)->0;
        lemma_names_well_formed(s, at1);
        if parenthesized(identifier_rule(), s, at1) is Some {
            let at2 = (parenthesized(identifier_rule(), s, at1)->0).1;
            lemma_symbol_within(s, at2, COMMA@);
            if symbol(s, at2, COMMA@) is Some {
                lemma_names_well_formed(s, symbol(s, at2, COMMA@)->0);
            }
        }
        if flat_key(s, at1) is Some {
            let names = (list_of(identifier_rule(), comma_rule(), s, at1)->0).0;
            let key = (flat_key(s, at1)->0).0;
            assert(names_well_formed(key.partition_key)) by {
                assert(is_name(names[0]));
            }
            assert forall|i: int| 0 <= i < key.clustering_key.len() implies is_name(
                #[trigger] key.clustering_key[i],
            ) by {
                assert(key.clustering_key[i] == names[i + 1]);
            }
        }
    }
}

/// The body of a table definition that is read is well formed.
proof fn lemma_table_body_well_formed(s: Seq<char>, pos: int, inline: bool)
    requires
        0 <= pos <= s.len(),
    ensures
        table_body(s, pos, inline) matches Some((columns, key)) ==> columns.len() > 0
            && columns_well_formed(columns) && key.well_formed(),
{
    lemma_symbol_within(s, pos, OPEN@);
    if symbol(s, pos, OPEN@) is Some {
        let at1 = symbol(s, pos, OPEN@)->0;
        lemma_column_well_formed(s, at1);
        lemma_columns_well_formed(s, at1);
        if inline {
            if inline_key_columns(s, at1) is Some {
                let first = (column_definition(s, at1)->0).0;
                let at2 = (column_definition(s, at1)->0).1;
                lemma_keyword_within(s, at2, PRIMARY_KEY@);
                let at3 = keyword(s, at2, PRIMARY_KEY@)->0;
                lemma_symbol_within(s, at3, COMMA@);
                let at4 = match symbol(s, at3, COMMA@) {
                    Some(after_comma) => after_comma,
                    None => at3,
                };
                lemma_columns_well_formed(s, at4);
                let others = optional_list_of(column_rule(), comma_rule(), s, at4).0;
                let columns = seq![first] + others;
                assert forall|i: int| 0 <= i < columns.len() implies (
                #[trigger] columns[i]).well_formed() by {
                    if i > 0 {
                        assert(columns[i] == others[i - 1]);
                    }
                }
                assert(names_well_formed(seq![first.name]));
                assert(names_well_formed(Seq::<Seq<char>>::empty()));
            }
        } else {
            if composite_key_columns(s, at1) is Some {
                let at2 = (list_of(column_rule(), comma_rule(), s, at1)->0).1;
                lemma_symbol_within(s, at2, COMMA@);
                let at3 = symbol(s, at2, COMMA@)->0;
                lemma_keyword_within(s, at3, PRIMARY_KEY@);
                let at4 = keyword(s, at3, PRIMARY_KEY@)->0;
                lemma_key_well_formed(s, at4);
            }
        }
    }
}

/// A `CREATE TABLE` that parses is well formed, and its error comes of the
/// text.
proof fn lemma_create_table_sound(s: Seq<char>)
    ensures
        create_table_statement(s) matches Ok(query) ==> query.well_formed(),
        create_table_statement(s) matches Err(error) ==> error.comes_of(s),
{
    assert(rest(s, 0) == s.subrange(0, s.len() as int));
    lemma_keyword_within(s, 0, CREATE_TABLE@);
    if keyword(s, 0, CREATE_TABLE@) is Some {
        let at1 = keyword(s, 0, CREATE_TABLE@)->0;
        assert(rest(s, at1) == s.subrange(at1, s.len() as int));
        lemma_identifier_is_name(s, at1);
        if identifier(s, at1) is Some {
            let at2 = (identifier(s, at1)->0).1;
            assert(rest(s, at2) == s.subrange(at2, s.len() as int));
            lemma_table_body_well_formed(s, at2, inline_key_ahead(s, at2));
        }
    }
}

/// The entries of a clause that is read are well formed, and the clause ends
/// within the text.
proof fn lemma_clause_well_formed(s: Seq<char>, pos: int)
    requires
        0 <= pos <= s.len(),
    ensures
        alter_clause(s, pos) matches Some((entries, end)) ==> entries_well_formed(entries) && 0
            <= end <= s.len(),
{
    lemma_keyword_within(s, pos, ADD@);
    lemma_keyword_within(s, pos, DROP@);
    if add_clause(s, pos) is Some {
        let at1 = keyword(s, pos, ADD@)->0;
        lemma_column_well_formed(s, at1);
        lemma_columns_well_formed(s, at1);
        if column_definition(s, at1) is None {
            let columns = (parenthesized(column_rule(), s, at1)->0).0;
            assert forall|i: int| 0 <= i < columns.len() implies (#[trigger] added_all(
                columns,
            )[i]).well_formed() by {
                assert(columns[i].well_formed());
            }
        }
    } else if drop_clause(s, pos) is Some {
        let at1 = keyword(s, pos, DROP@)->0;
        lemma_identifier_is_name(s, at1);
        lemma_names_well_formed(s, at1);
        if identifier(s, at1) is None {
            let names = (parenthesized(identifier_rule(), s, at1)->0).0;
            assert forall|i: int| 0 <= i < names.len() implies (#[trigger] dropped_all(
                names,
            )[i]).well_formed() by {
                assert(is_name(names[i]));
            }
        }
    }
}

/// The entries of the rest of the clauses are well formed where those found
/// before are.
proof fn lemma_clauses_rest_well_formed(s: Seq<char>, pos: int, found: Seq<AlterModel>)
    requires
        0 <= pos <= s.len(),
        entries_well_formed(found),
    ensures
        entries_well_formed(alter_clauses_rest(s, pos, found)),
    decreases s.len() - pos,
{
    lemma_symbol_within(s, pos, COMMA@);
    if symbol(s, pos, COMMA@) is Some {
        let after_comma = symbol(s, pos, COMMA@)->0;
        lemma_clause_well_formed(s, after_comma);
        if alter_clause(s, after_comma) is Some {
            let entries = (alter_clause(s, after_comma)->0).0;
            let end = (alter_clause(s, after_comma)->0).1;
            if pos < end <= s.len() {
                assert forall|i: int| 0 <= i < (found + entries).len() implies (#[trigger] (found
                    + entries)[i]).well_formed() by {
                    if i < found.len() {
                        assert((found + entries)[i] == found[i]);
                    } else {
                        assert((found + entries)[i] == entries[i - found.len()]);
                    }
                }
                lemma_clauses_rest_well_formed(s, end, found + entries);
            }
        }
    }
}

/// An `ALTER TABLE` that parses is well formed, and its error comes of the
/// text.
proof fn lemma_alter_table_sound(s: Seq<char>)
    ensures
        alter_table_statement(s) matches Ok(query) ==> query.well_formed(),
        alter_table_statement(s) matches Err(error) ==> error.comes_of(s),
{
    assert(rest(s, 0) == s.subrange(0, s.len() as int));
    lemma_keyword_within(s, 0, ALTER_TABLE@);
    if keyword(s, 0, ALTER_TABLE@) is Some {
        let at1 = keyword(s, 0, ALTER_TABLE@)->0;
        assert(rest(s, at1) == s.subrange(at1, s.len() as int));
        lemma_identifier_is_name(s, at1);
        if identifier(s, at1) is Some {
            let at2 = (identifier(s, at1)->0).1;
            assert(rest(s, at2) == s.subrange(at2, s.len() as int));
            lemma_clause_well_formed(s, at2);
            if alter_clause(s, at2) is Some {
                let entries = (alter_clause(s, at2)->0).0;
                let at3 = (alter_clause(s, at2)->0).1;
                lemma_clauses_rest_well_formed(s, at3, entries);
            }
        }
    }
}

/// A `DROP TABLE` that parses is well formed, and its error comes of the
/// text.
proof fn lemma_drop_table_sound(s: Seq<char>)
    ensures
        drop_table_statement(s) matches Ok(query) ==> query.well_formed(),
        drop_table_statement(s) matches Err(error) ==> error.comes_of(s),
{
    assert(rest(s, 0) == s.subrange(0, s.len() as int));
    lemma_keyword_within(s, 0, DROP_TABLE@);
    if keyword(s, 0, DROP_TABLE@) is Some {
        let at1 = keyword(s, 0, DROP_TABLE@)->0;
        assert(rest(s, at1) == s.subrange(at1, s.len() as int));
        lemma_identifier_is_name(s, at1);
    }
}

/// What parsing gives is sound. A statement that parses is well formed:
/// every name in it is a name, every floating-point literal is one, and a
/// table definition has at least one column and a partition key of at least
/// one name. A text is an unsupported request just when no statement keyword
/// leads it, and the error then carries the text. Every other error is a
/// syntax error and carries what was left of the text where a rule did not
/// match.
pub proof fn lemma_statement_sound(s: Seq<char>)
    ensures
        statement(s) matches Ok(query) ==> query.well_formed(),
        statement(s) matches Err(error) ==> error.comes_of(s),
        statement_kind(s) is None <==> statement(s) matches Err(ErrorModel::UnsupportedRequest(_)),
{
    lemma_select_sound(s);
    lemma_insert_sound(s);
    lemma_update_sound(s);
    lemma_delete_sound(s);
    lemma_create_table_sound(s);
    lemma_alter_table_sound(s);
    lemma_drop_table_sound(s);
    assert(s.subrange(0, s.len() as int) =~= s);
}

} // verus!
