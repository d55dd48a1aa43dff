//! The qualified keys that name tables and columns across databases:
//! `database___table` and `database___table.column`.

use vstd::prelude::*;
use vstd::string::*;
use crate::error::{Error, ErrorModel};
use crate::text::chars_of;

verus! {

/// What stands between the database and the table in a key.
pub open spec fn separator() -> Seq<char> {
    seq!['_', '_', '_']
}

/// Whether a separator starts at index `i` of `text`.
pub open spec fn separator_at(text: Seq<char>, i: int) -> bool {
    &&& 0 <= i
    &&& i + 3 <= text.len()
    &&& text[i] == '_'
    &&& text[i + 1] == '_'
    &&& text[i + 2] == '_'
}

/// The key of `table` in `database`.
pub open spec fn encode_table_key(database: Seq<char>, table: Seq<char>) -> Seq<char> {
    database + separator() + table
}

/// The key of `column` of `table` in `database`.
pub open spec fn encode_column_key(
    database: Seq<char>,
    table: Seq<char>,
    column: Seq<char>,
) -> Seq<char> {
    encode_table_key(database, table) + seq!['.'] + column
}

/// Whether a table key splits at `i`: the leftmost separator starts there, with
/// text on both sides of it.
pub open spec fn table_key_splits_at(key: Seq<char>, i: int) -> bool {
    &&& 0 < i
    &&& i + 3 < key.len()
    &&& separator_at(key, i)
    &&& forall|j: int| 0 <= j < i ==> !separator_at(key, j)
}

/// The database and the table that a table key names. The database ends
/// where the leftmost separator starts, so that a table's name may hold
/// separators itself; neither part is empty.
pub open spec fn parse_table_key_spec(key: Seq<char>) -> Option<(Seq<char>, Seq<char>)> {
    if exists|i: int| table_key_splits_at(key, i) {
        let i = choose|i: int| table_key_splits_at(key, i);
        Some((key.subrange(0, i), key.subrange(i + 3, key.len() as int)))
    } else {
        None
    }
}

/// Whether a column key splits at `i`: the last `.` stands there, with text
/// after it.
pub open spec fn column_key_splits_at(key: Seq<char>, i: int) -> bool {
    &&& 0 <= i
    &&& i + 1 < key.len()
    &&& key[i] == '.'
    &&& forall|j: int| i < j < key.len() ==> key[j] != '.'
}

/// The database, the table and the column that a column key names. The
/// column is what follows the last `.`; what precedes it is a table key whose
/// table holds no `.`.
pub open spec fn parse_column_key_spec(key: Seq<char>) -> Option<(Seq<char>, Seq<char>, Seq<char>)> {
    if exists|i: int| column_key_splits_at(key, i) {
        let i = choose|i: int| column_key_splits_at(key, i);
        match parse_table_key_spec(key.subrange(0, i)) {
            Some((database, table)) => if table.contains('.') {
                None
            } else {
                Some((database, table, key.subrange(i + 1, key.len() as int)))
            },
            None => None,
        }
    } else {
        None
    }
}

/// The key of the table that a column key belongs to.
pub open spec fn table_key_of(column_key: Seq<char>) -> Option<Seq<char>> {
    match parse_column_key_spec(column_key) {
        Some((database, table, _)) => Some(encode_table_key(database, table)),
        None => None,
    }
}

/// A table key splits at one index at most.
pub proof fn lemma_table_split_unique(key: Seq<char>, i: int, j: int)
    requires
        table_key_splits_at(key, i),
        table_key_splits_at(key, j),
    ensures
        i == j,
{
}

/// A column key splits at one index at most.
pub proof fn lemma_column_split_unique(key: Seq<char>, i: int, j: int)
    requires
        column_key_splits_at(key, i),
        column_key_splits_at(key, j),
    ensures
        i == j,
{
}

/// The parts of a table key that splits at `i`.
pub proof fn lemma_table_key_parts(key: Seq<char>, i: int)
    requires
        table_key_splits_at(key, i),
    ensures
        parse_table_key_spec(key) == Some(
            (key.subrange(0, i), key.subrange(i + 3, key.len() as int)),
        ),
{
    let chosen = choose|k: int| table_key_splits_at(key, k);
    lemma_table_split_unique(key, i, chosen);
}

/// Whether `database`, `table` and `column` can be read back from their key:
/// none is empty, the database holds no separator and does not end in `_`
/// (which would move the leftmost separator), and neither the table nor the
/// column holds a `.`.
pub open spec fn key_parts_valid(database: Seq<char>, table: Seq<char>, column: Seq<char>) -> bool {
    &&& table_parts_valid(database, table)
    &&& column.len() > 0
    &&& !table.contains('.')
    &&& !column.contains('.')
}

/// Whether `database` and `table` can be read back from their table key.
pub open spec fn table_parts_valid(database: Seq<char>, table: Seq<char>) -> bool {
    &&& database.len() > 0
    &&& table.len() > 0
    &&& forall|i: int| !separator_at(database, i)
    &&& database.last() != '_'
}

/// Encoding a database and a table, then parsing the key, gives them back.
pub proof fn table_key_round_trip(database: Seq<char>, table: Seq<char>)
    requires
        table_parts_valid(database, table),
    ensures
        parse_table_key_spec(encode_table_key(database, table)) == Some((database, table)),
{
    let key = encode_table_key(database, table);
    let at = database.len() as int;
    assert(separator_at(key, at));
    assert forall|j: int| 0 <= j < at implies !separator_at(key, j) by {
        if separator_at(key, j) {
            if j + 3 <= at {
                assert(database[j] == key[j]);
                assert(database[j + 1] == key[j + 1]);
                assert(database[j + 2] == key[j + 2]);
                assert(separator_at(database, j));
            } else {
                assert(key[at - 1] == '_');
                assert(database[at - 1] == key[at - 1]);
            }
        }
    }
    assert(table_key_splits_at(key, at));
    lemma_table_key_parts(key, at);
    assert(key.subrange(0, at) =~= database);
    assert(key.subrange(at + 3, key.len() as int) =~= table);
}

/// Encoding a database, a table and a column, then parsing the key, gives
/// them back.
pub proof fn column_key_round_trip(database: Seq<char>, table: Seq<char>, column: Seq<char>)
    requires
        key_parts_valid(database, table, column),
    ensures
        parse_column_key_spec(encode_column_key(database, table, column)) == Some(
            (database, table, column),
        ),
{
    let prefix = encode_table_key(database, table);
    let key = encode_column_key(database, table, column);
    let at = prefix.len() as int;
    assert(key[at] == '.');
    assert forall|j: int| at < j < key.len() implies key[j] != '.' by {
        assert(key[j] == column[j - at - 1]);
        assert(column.contains(column[j - at - 1]));
    }
    assert(column_key_splits_at(key, at));
    let chosen = choose|k: int| column_key_splits_at(key, k);
    lemma_column_split_unique(key, at, chosen);
    assert(key.subrange(0, at) =~= prefix);
    assert(key.subrange(at + 1, key.len() as int) =~= column);
    table_key_round_trip(database, table);
}

/// A table key is the encoding of the parts that it parses to.
pub proof fn table_key_parse_then_encode(key: Seq<char>)
    ensures
        match parse_table_key_spec(key) {
            Some((database, table)) => encode_table_key(database, table) == key
                && database.len() > 0 && table.len() > 0,
            None => true,
        },
{
    if exists|i: int| table_key_splits_at(key, i) {
        let i = choose|i: int| table_key_splits_at(key, i);
        assert(key.subrange(0, i) + separator() + key.subrange(i + 3, key.len() as int) =~= key);
    }
}

/// A column key is the encoding of the parts that it parses to.
pub proof fn column_key_parse_then_encode(key: Seq<char>)
    ensures
        match parse_column_key_spec(key) {
            Some((database, table, column)) => encode_column_key(database, table, column) == key
                && column.len() > 0,
            None => true,
        },
{
    if exists|i: int| column_key_splits_at(key, i) {
        let i = choose|i: int| column_key_splits_at(key, i);
        let prefix = key.subrange(0, i);
        table_key_parse_then_encode(prefix);
        assert(prefix + seq!['.'] + key.subrange(i + 1, key.len() as int) =~= key);
    }
}

/// The table key of the parts of a column key parses to those parts.
pub proof fn lemma_table_key_of_column_key(key: Seq<char>)
    ensures
        match parse_column_key_spec(key) {
            Some((database, table, _)) => parse_table_key_spec(encode_table_key(database, table))
                == Some((database, table)),
            None => true,
        },
{
    if exists|i: int| column_key_splits_at(key, i) {
        let i = choose|i: int| column_key_splits_at(key, i);
        table_key_parse_then_encode(key.subrange(0, i));
    }
}

/// Builds the key of `table` in `database`.
pub fn encode_table_key_string(database: &str, table: &str) -> (key: String)
    ensures
        key@ == encode_table_key(database@, table@),
{
    proof {
        reveal_strlit("___");
        assert("___"@ =~= separator());
    }
    let mut key = String::from_str(database);
    key.append("___");
    key.append(table);
    key
}

/// Builds the key of `column` of `table` in `database`.
pub fn encode_column_key_string(database: &str, table: &str, column: &str) -> (key: String)
    ensures
        key@ == encode_column_key(database@, table@, column@),
{
    proof {
        reveal_strlit(".");
        assert("."@ =~= seq!['.']);
    }
    let mut key = encode_table_key_string(database, table);
    key.append(".");
    key.append(column);
    key
}

/// The index at which the leftmost separator of `chars[..end]` starts.
fn leftmost_separator(chars: &Vec<char>, end: usize) -> (found: Option<usize>)
    requires
        end <= chars.len(),
    ensures
        match found {
            Some(i) => separator_at(chars@.take(end as int), i as int) && forall|j: int|
                0 <= j < i ==> !separator_at(chars@.take(end as int), j),
            None => forall|j: int| !separator_at(chars@.take(end as int), j),
        },
{
    let mut i: usize = 0;
    while end - i >= 3
        invariant
            i <= end <= chars.len(),
            forall|j: int| 0 <= j < i ==> !separator_at(chars@.take(end as int), j),
        decreases end - i,
    {
        if chars[i] == '_' && chars[i + 1] == '_' && chars[i + 2] == '_' {
            return Some(i);
        }
        i = i + 1;
    }
    None
}

/// Whether `chars[from..to]` holds a `.`.
fn holds_dot(chars: &Vec<char>, from: usize, to: usize) -> (found: bool)
    requires
        from <= to <= chars.len(),
    ensures
        found == chars@.subrange(from as int, to as int).contains('.'),
{
    let mut i: usize = from;
    while i < to
        invariant
            from <= i <= to <= chars.len(),
            forall|j: int| from <= j < i ==> chars@[j] != '.',
        decreases to - i,
    {
        if chars[i] == '.' {
            assert(chars@.subrange(from as int, to as int)[i - from] == '.');
            return true;
        }
        i = i + 1;
    }
    false
}

/// Reads a table key: `DATABASE___TABLE`, split at the leftmost separator.
pub fn parse_table_key(key: &str) -> (parts: Result<(String, String), Error>)
    ensures
        match parts {
            Ok((database, table)) => parse_table_key_spec(key@) == Some((database@, table@)),
            Err(error) => parse_table_key_spec(key@) is None && error.deep_view()
                == ErrorModel::MalformedKey(key@),
        },
{
    let chars = chars_of(key);
    let end = chars.len();
    assert(chars@.take(end as int) =~= key@);
    match leftmost_separator(&chars, end) {
        Some(i) => {
            if i > 0 && i + 3 < end {
                proof {
                    lemma_table_key_parts(key@, i as int);
                }
                let database = key.substring_char(0, i).to_owned();
                let table = key.substring_char(i + 3, end).to_owned();
                Ok((database, table))
            } else {
                Err(Error::MalformedKey(key.to_owned()))
            }
        },
        None => Err(Error::MalformedKey(key.to_owned())),
    }
}

/// Reads a column key: `DATABASE___TABLE.COLUMN`, where the column is what
/// follows the last `.`.
pub fn parse_column_key(key: &str) -> (parts: Result<(String, String, String), Error>)
    ensures
        match parts {
            Ok((database, table, column)) => parse_column_key_spec(key@) == Some(
                (database@, table@, column@),
            ),
            Err(error) => parse_column_key_spec(key@) is None && error.deep_view()
                == ErrorModel::MalformedKey(key@),
        },
{
    let chars = chars_of(key);
    let end = chars.len();
    let mut dot: usize = end;
    while dot > 0 && chars[dot - 1] != '.'
        invariant
            dot <= end == chars.len(),
            forall|j: int| dot <= j < end ==> chars@[j] != '.',
        decreases dot,
    {
        dot = dot - 1;
    }
    if dot == 0 || dot == end {
        return Err(Error::MalformedKey(key.to_owned()));
    }
    let at = dot - 1;
    proof {
        assert(column_key_splits_at(key@, at as int));
        let chosen = choose|k: int| column_key_splits_at(key@, k);
        lemma_column_split_unique(key@, at as int, chosen);
        assert(chars@.take(at as int) =~= key@.subrange(0, at as int));
    }
    match leftmost_separator(&chars, at) {
        Some(i) => {
            if i > 0 && i + 3 < at && !holds_dot(&chars, i + 3, at) {
                proof {
                    let prefix = key@.subrange(0, at as int);
                    lemma_table_key_parts(prefix, i as int);
                    assert(prefix.subrange(i + 3, at as int) =~= key@.subrange(i + 3, at as int));
                    assert(prefix.subrange(0, i as int) =~= key@.subrange(0, i as int));
                }
                let database = key.substring_char(0, i).to_owned();
                let table = key.substring_char(i + 3, at).to_owned();
                let column = key.substring_char(dot, end).to_owned();
                Ok((database, table, column))
            } else {
                proof {
                    let prefix = key@.subrange(0, at as int);
                    if i > 0 && i + 3 < at {
                        lemma_table_key_parts(prefix, i as int);
                        assert(prefix.subrange(i + 3, at as int) =~= key@.subrange(
                            i + 3,
                            at as int,
                        ));
                    }
                }
                Err(Error::MalformedKey(key.to_owned()))
            }
        },
        None => Err(Error::MalformedKey(key.to_owned())),
    }
}

} // verus!
