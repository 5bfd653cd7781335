//! The four statements that the relay sends, built from structured inputs.
//!
//! The text of each statement is given as a value by a `spec` function, and
//! the builder returns exactly that text. Each statement is built in two
//! layers: `build_*` and [`complete_statement`] write the text from names
//! and numbers as they are given; the functions named `*_query` check and
//! trim what the caller supplies, apply the limits, and then build.

use crate::decimal::{decimal, push_decimal};
use crate::error::{outcome, Missing, RelayError, RelayFault};
use crate::escape::{doubled, escape_identifier, escape_literal};
use crate::model::text_of;
use crate::text::{
    chars_of, contains, is_blank, is_blank_text, occurs_in, starts_with, strip_trailing_char,
    trim, trim_end_char, trimmed, uppercase,
};
use vstd::prelude::*;

verus! {

/// Rows returned by a table preview when the caller names no limit.
pub const DEFAULT_PREVIEW_LIMIT: u32 = 200;

/// The most rows that a table preview returns.
pub const MAX_PREVIEW_LIMIT: u32 = 1000;

/// Rows returned by an arbitrary query when the caller names no limit.
pub const DEFAULT_QUERY_LIMIT: u32 = 500;

/// The most rows that a limit added to an arbitrary query allows.
pub const MAX_QUERY_LIMIT: u32 = 10000;

/// The order in which a table preview returns its rows.
#[derive(Debug, Clone, Copy, PartialEq, Eq, Structural)]
pub enum SortDirection {
    Ascending,
    Descending,
}

/// The limit that is applied: the one asked for, or `fallback` where none was,
/// brought into the range from 1 to `ceiling`.
pub open spec fn clamped_limit(requested: Option<u32>, fallback: u32, ceiling: u32) -> u32 {
    let wanted = match requested {
        Some(n) => n,
        None => fallback,
    };
    if wanted < 1 {
        1
    } else if wanted > ceiling {
        ceiling
    } else {
        wanted
    }
}

/// The limit applied to a table preview.
pub open spec fn preview_limit(requested: Option<u32>) -> u32 {
    clamped_limit(requested, DEFAULT_PREVIEW_LIMIT, MAX_PREVIEW_LIMIT)
}

/// The limit added to an arbitrary query.
pub open spec fn query_limit(requested: Option<u32>) -> u32 {
    clamped_limit(requested, DEFAULT_QUERY_LIMIT, MAX_QUERY_LIMIT)
}

/// The characters of an optional slice.
pub open spec fn slice_of(value: Option<&str>) -> Option<Seq<char>> {
    match value {
        Some(text) => Some(text@),
        None => None,
    }
}

/// An optional name as it counts: without the white space around it, and
/// absent where it is blank.
pub open spec fn named(value: Option<Seq<char>>) -> Option<Seq<char>> {
    match value {
        Some(text) => if is_blank(text) {
            None
        } else {
            Some(trimmed(text))
        },
        None => None,
    }
}

/// The statement that lists the tables of every schema but the server's own.
pub open spec fn all_schemas_statement() -> Seq<char> {
    "SELECT database, name, total_rows FROM system.tables WHERE database NOT IN ('INFORMATION_SCHEMA', 'information_schema', 'system') ORDER BY database, name FORMAT JSON"@
}

/// The statement that lists tables: those of `database` where one is given,
/// else those of every schema but the server's own.
pub open spec fn listing_statement(database: Option<Seq<char>>) -> Seq<char> {
    match database {
        Some(name) => "SELECT database, name, total_rows FROM system.tables WHERE database = '"@
            + doubled(name, '\'') + "' ORDER BY database, name FORMAT JSON"@,
        None => all_schemas_statement(),
    }
}

/// The statement that lists tables for a connection whose database is
/// `database`: those of the database where it is named and not blank.
pub open spec fn schema_listing_text(database: Option<Seq<char>>) -> Seq<char> {
    listing_statement(named(database))
}

/// Whether `word` is `desc`, in any mix of upper and lower case.
pub open spec fn is_desc_word(word: Seq<char>) -> bool {
    &&& word.len() == 4
    &&& (word[0] == 'd' || word[0] == 'D')
    &&& (word[1] == 'e' || word[1] == 'E')
    &&& (word[2] == 's' || word[2] == 'S')
    &&& (word[3] == 'c' || word[3] == 'C')
}

/// The direction that `word` asks for: descending only where it says so;
/// ascending is the default.
pub open spec fn direction_of(word: Option<Seq<char>>) -> SortDirection {
    match word {
        Some(text) => if is_desc_word(text) {
            SortDirection::Descending
        } else {
            SortDirection::Ascending
        },
        None => SortDirection::Ascending,
    }
}

/// The `ORDER BY` clause for `column`: empty where none is given.
pub open spec fn order_clause(column: Option<Seq<char>>, direction: SortDirection) -> Seq<char> {
    match column {
        Some(name) => " ORDER BY `"@ + doubled(name, '`') + "` "@ + match direction {
            SortDirection::Ascending => "ASC"@,
            SortDirection::Descending => "DESC"@,
        },
        None => Seq::empty(),
    }
}

/// The statement that reads at most `rows` rows of `table` of `schema`,
/// ordered by `column` where one is given.
pub open spec fn preview_statement(
    schema: Seq<char>,
    table: Seq<char>,
    column: Option<Seq<char>>,
    direction: SortDirection,
    rows: u32,
) -> Seq<char> {
    "SELECT * FROM `"@ + doubled(schema, '`') + "`.`"@ + doubled(table, '`') + "`"@
        + order_clause(column, direction) + " LIMIT "@ + decimal(rows as nat) + " FORMAT JSON"@
}

/// The statement of a table preview, or the input that is missing: the schema
/// and the table must not be blank. Names are taken without the white space
/// around them, and a blank sort column counts as none.
pub open spec fn table_preview_plan(
    schema: Seq<char>,
    table: Seq<char>,
    limit: Option<u32>,
    column: Option<Seq<char>>,
    direction: Option<Seq<char>>,
) -> Result<Seq<char>, RelayFault> {
    if is_blank(schema) {
        Err(RelayFault::Validation(Missing::Schema))
    } else if is_blank(table) {
        Err(RelayFault::Validation(Missing::Table))
    } else {
        Ok(
            preview_statement(
                trimmed(schema),
                trimmed(table),
                named(column),
                direction_of(direction),
                preview_limit(limit),
            ),
        )
    }
}

/// The statement proper of a query text: without the white space around it
/// and without the semicolons, and the white space before them, at its end.
pub open spec fn statement_of(query: Seq<char>) -> Seq<char> {
    trimmed(strip_trailing_char(trimmed(query), ';'))
}

/// Whether a limit is added to a statement: it is a `SELECT` and names no
/// limit, judged on its upper-case form `upper`.
pub open spec fn wants_limit(upper: Seq<char>) -> bool {
    "SELECT "@.is_prefix_of(upper) && !occurs_in(upper, " LIMIT "@)
}

/// Whether a format is added to a statement: it names none, judged on its
/// upper-case form `upper`.
pub open spec fn wants_format(upper: Seq<char>) -> bool {
    !occurs_in(upper, "FORMAT "@)
}

/// The statement `raw`, of upper-case form `upper`, with the clauses that it
/// lacks: a limit of `limit` rows, then the JSON format. A statement that has
/// a clause already keeps it as it is.
pub open spec fn completed_statement(raw: Seq<char>, upper: Seq<char>, limit: u32) -> Seq<char> {
    raw + (if wants_limit(upper) {
        " LIMIT "@ + decimal(limit as nat)
    } else {
        Seq::empty()
    }) + (if wants_format(upper) {
        " FORMAT JSON"@
    } else {
        Seq::empty()
    })
}

/// The statement sent for an arbitrary query, or the input that is missing:
/// the statement proper must not be empty.
pub open spec fn arbitrary_query_plan(query: Seq<char>, limit: Option<u32>) -> Result<
    Seq<char>,
    RelayFault,
> {
    let raw = statement_of(query);
    if raw.len() == 0 {
        Err(RelayFault::Validation(Missing::Query))
    } else {
        Ok(completed_statement(raw, uppercase(raw), query_limit(limit)))
    }
}

/// The statement of the status probe.
pub open spec fn status_probe_statement() -> Seq<char> {
    "SELECT version() AS version, currentDatabase() AS current_database FORMAT JSON"@
}

/// Law: a statement that names both a limit and a format is sent as it is.
pub proof fn law_complete_statement_keeps_clauses(raw: Seq<char>, upper: Seq<char>, limit: u32)
    requires
        occurs_in(upper, " LIMIT "@),
        occurs_in(upper, "FORMAT "@),
    ensures
        completed_statement(raw, upper, limit) == raw,
{
    assert(raw + Seq::<char>::empty() + Seq::<char>::empty() =~= raw);
}

/// Law: completing a statement only adds to its end.
pub proof fn law_complete_statement_extends(raw: Seq<char>, upper: Seq<char>, limit: u32)
    ensures
        raw.is_prefix_of(completed_statement(raw, upper, limit)),
{
    let done = completed_statement(raw, upper, limit);
    assert(done.take(raw.len() as int) =~= raw);
}

/// The limit that is applied: the one asked for, or `fallback` where none was,
/// brought into the range from 1 to `ceiling`.
pub fn effective_limit(requested: Option<u32>, fallback: u32, ceiling: u32) -> (limit: u32)
    ensures
        limit == clamped_limit(requested, fallback, ceiling),
        ceiling >= 1 ==> 1 <= limit <= ceiling,
{
    let wanted: u32 = match requested {
        Some(n) => n,
        None => fallback,
    };
    if wanted < 1 {
        1
    } else if wanted > ceiling {
        ceiling
    } else {
        wanted
    }
}

/// An optional name as it counts: without the white space around it, and
/// absent where it is blank.
pub fn named_text<'a>(value: &'a Option<String>) -> (name: Option<&'a str>)
    ensures
        slice_of(name) == named(text_of(*value)),
{
    match value {
        Some(text) => {
            if is_blank_text(text.as_str()) {
                None
            } else {
                Some(trim(text.as_str()))
            }
        },
        None => None,
    }
}

/// The direction that `word` asks for: descending for `desc` in any mix of
/// upper and lower case, ascending for anything else and for nothing.
pub fn sort_direction(word: &Option<String>) -> (direction: SortDirection)
    ensures
        direction == direction_of(text_of(*word)),
{
    match word {
        Some(text) => {
            let letters = chars_of(text.as_str());
            if letters.len() == 4 && (letters[0] == 'd' || letters[0] == 'D') && (letters[1] == 'e'
                || letters[1] == 'E') && (letters[2] == 's' || letters[2] == 'S') && (letters[3]
                == 'c' || letters[3] == 'C') {
                SortDirection::Descending
            } else {
                SortDirection::Ascending
            }
        },
        None => SortDirection::Ascending,
    }
}

/// The statement that lists tables: those of `database` where one is given,
/// else those of every schema but the server's own. The name is written as a
/// string literal, with its single quotes doubled.
pub fn build_listing(database: Option<&str>) -> (query: String)
    ensures
        query@ == listing_statement(slice_of(database)),
{
    let mut query = String::new();
    match database {
        Some(name) => {
            let literal = escape_literal(name);
            query.append(
                "SELECT database, name, total_rows FROM system.tables WHERE database = '",
            );
            query.append(literal.as_str());
            query.append("' ORDER BY database, name FORMAT JSON");
        },
        None => {
            query.append(
                "SELECT database, name, total_rows FROM system.tables WHERE database NOT IN ('INFORMATION_SCHEMA', 'information_schema', 'system') ORDER BY database, name FORMAT JSON",
            );
        },
    }
    assert(query@ =~= listing_statement(slice_of(database)));
    query
}

/// The statement that lists tables for a connection whose database is
/// `database`: those of the database where it is named and not blank, else
/// those of every schema but the server's own.
pub fn schema_listing_query(database: &Option<String>) -> (query: String)
    ensures
        query@ == schema_listing_text(text_of(*database)),
{
    build_listing(named_text(database))
}

/// Appends the `ORDER BY` clause for `column` to `query`.
fn push_order_clause(query: &mut String, column: Option<&str>, direction: SortDirection)
    ensures
        final(query)@ == old(query)@ + order_clause(slice_of(column), direction),
{
    match column {
        Some(name) => {
            let quoted = escape_identifier(name);
            query.append(" ORDER BY `");
            query.append(quoted.as_str());
            query.append("` ");
            match direction {
                SortDirection::Ascending => query.append("ASC"),
                SortDirection::Descending => query.append("DESC"),
            }
        },
        None => {},
    }
    assert(final(query)@ =~= old(query)@ + order_clause(slice_of(column), direction));
}

/// The statement that reads at most `rows` rows of `table` of `schema`,
/// ordered by `column` where one is given. The names are written between
/// backticks, with their backticks doubled.
pub fn build_preview(
    schema: &str,
    table: &str,
    column: Option<&str>,
    direction: SortDirection,
    rows: u32,
) -> (query: String)
    ensures
        query@ == preview_statement(schema@, table@, slice_of(column), direction, rows),
{
    let quoted_schema = escape_identifier(schema);
    let quoted_table = escape_identifier(table);
    let mut query = String::new();
    query.append("SELECT * FROM `");
    query.append(quoted_schema.as_str());
    query.append("`.`");
    query.append(quoted_table.as_str());
    query.append("`");
    push_order_clause(&mut query, column, direction);
    query.append(" LIMIT ");
    push_decimal(&mut query, rows as u64);
    query.append(" FORMAT JSON");
    assert(query@ =~= preview_statement(schema@, table@, slice_of(column), direction, rows));
    query
}

/// The statement that previews `table` of `schema`: at most `limit` rows (200
/// where none is named, never more than 1000), ordered by `column` where one
/// is named and not blank. Fails where the schema or the table is blank.
pub fn table_preview_query(
    schema: &str,
    table: &str,
    limit: Option<u32>,
    column: &Option<String>,
    direction: &Option<String>,
) -> (r: Result<String, RelayError>)
    ensures
        outcome(r) == table_preview_plan(
            schema@,
            table@,
            limit,
            text_of(*column),
            text_of(*direction),
        ),
{
    if is_blank_text(schema) {
        return Err(RelayError::Validation(Missing::Schema));
    }
    if is_blank_text(table) {
        return Err(RelayError::Validation(Missing::Table));
    }
    let rows: u32 = effective_limit(limit, DEFAULT_PREVIEW_LIMIT, MAX_PREVIEW_LIMIT);
    Ok(
        build_preview(
            trim(schema),
            trim(table),
            named_text(column),
            sort_direction(direction),
            rows,
        ),
    )
}

/// The statement `raw` with the clauses that it lacks, where `upper` is its
/// upper-case form: a limit of `limit` rows for a `SELECT` that names none,
/// then the JSON format for a statement that names none.
pub fn complete_statement(raw: &str, upper: &str, limit: u32) -> (query: String)
    ensures
        query@ == completed_statement(raw@, upper@, limit),
{
    let mut query = String::new();
    query.append(raw);
    if starts_with(upper, "SELECT ") && !contains(upper, " LIMIT ") {
        query.append(" LIMIT ");
        push_decimal(&mut query, limit as u64);
    }
    if !contains(upper, "FORMAT ") {
        query.append(" FORMAT JSON");
    }
    assert(query@ =~= completed_statement(raw@, upper@, limit));
    query
}

/// The statement sent for an arbitrary query: the statement proper, with a
/// limit (500 rows where none is named, never more than 10000) and the JSON
/// format where it lacks them. Fails where the statement proper is empty.
pub fn arbitrary_query(query: &str, limit: Option<u32>) -> (r: Result<String, RelayError>)
    ensures
        outcome(r) == arbitrary_query_plan(query@, limit),
{
    let raw = trim(trim_end_char(trim(query), ';'));
    if raw.is_empty() {
        return Err(RelayError::Validation(Missing::Query));
    }
    let upper = raw.to_uppercase();
    let rows: u32 = effective_limit(limit, DEFAULT_QUERY_LIMIT, MAX_QUERY_LIMIT);
    Ok(complete_statement(raw, upper.as_str(), rows))
}

/// The statement of the status probe.
pub fn status_probe_query() -> (query: String)
    ensures
        query@ == status_probe_statement(),
{
    let mut query = String::new();
    query.append(
        "SELECT version() AS version, currentDatabase() AS current_database FORMAT JSON",
    );
    assert(query@ =~= status_probe_statement());
    query
}

} // verus!
