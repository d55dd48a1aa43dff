//! The DBML text of tables and references.

use vstd::prelude::*;
use vstd::string::*;
use crate::config::{
    ColumnModel, IndexModel, ProjectDatabaseColumn, ProjectDatabaseIndex, ProjectDatabaseTable,
    TableModel,
};
use crate::key::{encode_table_key, encode_table_key_string};
use crate::names::NameMap;
use crate::text::{join, join_strings, str_equal};

verus! {

/// The number of slots in which columns are laid out: one for each ordinal.
pub const SLOTS: usize = 256;

/// The slot in which a column of this ordinal renders. Ordinals count from 1;
/// ordinal 0 takes the last slot.
pub open spec fn slot_of(ordinal: u8) -> int {
    if ordinal == 0 {
        255
    } else {
        ordinal - 1
    }
}

/// The column that renders in `slot`: the last one, in the order of the map,
/// whose ordinal asks for it.
pub open spec fn occupant(columns: Seq<(Seq<char>, ColumnModel)>, slot: int) -> Option<int>
    decreases columns.len(),
{
    if columns.len() == 0 {
        None
    } else if slot_of(columns.last().1.ordinal_position) == slot {
        Some(columns.len() - 1)
    } else {
        occupant(columns.drop_last(), slot)
    }
}

/// What `occupant` means: the index it gives is the last whose column asks
/// for the slot; without an index no column asks for it.
pub proof fn lemma_occupant(columns: Seq<(Seq<char>, ColumnModel)>, slot: int)
    ensures
        match occupant(columns, slot) {
            Some(i) => {
                &&& 0 <= i < columns.len()
                &&& slot_of(columns[i].1.ordinal_position) == slot
                &&& forall|j: int|
                    i < j < columns.len() ==> slot_of(columns[j].1.ordinal_position) != slot
            },
            None => forall|i: int|
                0 <= i < columns.len() ==> slot_of(columns[i].1.ordinal_position) != slot,
        },
    decreases columns.len(),
{
    if columns.len() > 0 && slot_of(columns.last().1.ordinal_position) != slot {
        let rest = columns.drop_last();
        lemma_occupant(rest, slot);
        match occupant(rest, slot) {
            Some(i) => {
                assert(rest[i] == columns[i]);
                assert forall|j: int| i < j < columns.len() implies slot_of(
                    columns[j].1.ordinal_position,
                ) != slot by {
                    if j < rest.len() {
                        assert(rest[j] == columns[j]);
                    }
                }
            },
            None => {
                assert forall|i: int| 0 <= i < columns.len() implies slot_of(
                    columns[i].1.ordinal_position,
                ) != slot by {
                    if i < rest.len() {
                        assert(rest[i] == columns[i]);
                    }
                }
            },
        }
    }
}

/// The options of a column, in the order in which they are written.
pub open spec fn column_options(column: ColumnModel) -> Seq<Seq<char>> {
    let primary = if column.is_primary_key {
        seq!["pk"@]
    } else {
        seq![]
    };
    let nullable = if column.is_nullable {
        seq!["null"@]
    } else {
        seq!["not null"@]
    };
    let unique = if column.is_unique {
        seq!["unique"@]
    } else {
        seq![]
    };
    let increment = if column.is_auto_increment {
        seq!["increment"@]
    } else {
        seq![]
    };
    let default = match column.default_value {
        Some(value) => seq!["default: \""@ + value + "\""@],
        None => seq![],
    };
    primary + nullable + unique + increment + default
}

/// The precision as it follows the type: in round brackets, or nothing where
/// there is none or it is `0`.
pub open spec fn precision_text(column: ColumnModel) -> Seq<char> {
    match column.data_precision {
        Some(precision) => if precision == "0"@ {
            Seq::empty()
        } else {
            "("@ + precision + ")"@
        },
        None => Seq::empty(),
    }
}

/// The line of one column.
pub open spec fn column_line(name: Seq<char>, column: ColumnModel) -> Seq<char> {
    "\t"@ + name + " "@ + column.data_type + precision_text(column) + " "@ + "[ "@ + join(
        column_options(column),
        ", "@,
    ) + " ]"@ + "\n"@
}

/// The lines of the columns in the slots below `slots`, in the order of the
/// slots. An empty slot gives no line.
pub open spec fn column_lines(columns: Seq<(Seq<char>, ColumnModel)>, slots: int) -> Seq<char>
    decreases slots,
{
    if slots <= 0 {
        Seq::empty()
    } else {
        column_lines(columns, slots - 1) + match occupant(columns, slots - 1) {
            Some(i) => column_line(columns[i].0, columns[i].1),
            None => Seq::empty(),
        }
    }
}

/// Whether no two columns share an ordinal.
pub open spec fn ordinals_differ(columns: Seq<(Seq<char>, ColumnModel)>) -> bool {
    forall|i: int, j: int|
        0 <= i < columns.len() && 0 <= j < columns.len() && i != j
            ==> columns[i].1.ordinal_position != columns[j].1.ordinal_position
}

/// Whether two maps hold the same columns under the same names, in whatever
/// order.
pub open spec fn same_columns(
    left: Seq<(Seq<char>, ColumnModel)>,
    right: Seq<(Seq<char>, ColumnModel)>,
) -> bool {
    forall|entry: (Seq<char>, ColumnModel)| left.contains(entry) <==> right.contains(entry)
}

/// The same columns fill each slot alike, in whatever order they stand,
/// where no two of them share an ordinal.
pub proof fn lemma_same_occupant(
    left: Seq<(Seq<char>, ColumnModel)>,
    right: Seq<(Seq<char>, ColumnModel)>,
    slot: int,
)
    requires
        same_columns(left, right),
        ordinals_differ(right),
    ensures
        match occupant(left, slot) {
            Some(i) => occupant(right, slot) is Some && right[occupant(right, slot)->0] == left[i],
            None => occupant(right, slot) is None,
        },
{
    lemma_occupant(left, slot);
    lemma_occupant(right, slot);
    match occupant(left, slot) {
        Some(i) => {
            assert(left.contains(left[i]));
            assert(right.contains(left[i]));
            let j = choose|j: int| 0 <= j < right.len() && right[j] == left[i];
            assert(slot_of(right[j].1.ordinal_position) == slot);
        },
        None => {
            if occupant(right, slot) is Some {
                let j = occupant(right, slot)->0;
                assert(right.contains(right[j]));
                assert(left.contains(right[j]));
                let i = choose|i: int| 0 <= i < left.len() && left[i] == right[j];
                assert(slot_of(left[i].1.ordinal_position) == slot);
            }
        },
    }
}

/// The lines of the columns do not depend on the order of the map, where no
/// two columns share an ordinal.
pub proof fn lemma_column_lines_ignore_order(
    left: Seq<(Seq<char>, ColumnModel)>,
    right: Seq<(Seq<char>, ColumnModel)>,
    slots: int,
)
    requires
        same_columns(left, right),
        ordinals_differ(right),
    ensures
        column_lines(left, slots) == column_lines(right, slots),
    decreases slots,
{
    if slots > 0 {
        lemma_column_lines_ignore_order(left, right, slots - 1);
        lemma_same_occupant(left, right, slots - 1);
    }
}

/// Columns render by their ordinals, not by their place in the map: two
/// tables that hold the same columns in different orders, no two columns
/// sharing an ordinal, and the same indexes, render alike.
pub proof fn rendering_ignores_map_order(
    left: TableModel,
    right: TableModel,
    database: Seq<char>,
    name: Seq<char>,
)
    requires
        same_columns(left.columns, right.columns),
        ordinals_differ(right.columns),
        left.indexes == right.indexes,
    ensures
        render_table(left, database, name) == render_table(right, database, name),
{
    lemma_column_lines_ignore_order(left.columns, right.columns, SLOTS as int);
}

/// One index: its columns, in round brackets where there are several, and
/// its options.
pub open spec fn index_text(index: IndexModel) -> Seq<char> {
    let list = join(index.columns, ", "@);
    let columns = if index.columns.len() > 1 {
        "("@ + list + ")"@
    } else {
        list
    };
    if index.is_primary_key {
        columns + " [ pk ]"@
    } else {
        columns
    }
}

/// The lines of the indexes, in order.
pub open spec fn index_lines(indexes: Seq<IndexModel>) -> Seq<char>
    decreases indexes.len(),
{
    if indexes.len() == 0 {
        Seq::empty()
    } else {
        index_lines(indexes.drop_last()) + "\t\t"@ + index_text(indexes.last()) + "\n"@
    }
}

/// The block of the indexes; nothing where the table has none.
pub open spec fn index_block(indexes: Option<Seq<IndexModel>>) -> Seq<char> {
    match indexes {
        Some(list) => if list.len() > 0 {
            "\n\tindexes {\n"@ + index_lines(list) + "\t}\n"@
        } else {
            Seq::empty()
        },
        None => Seq::empty(),
    }
}

/// The block of a table: its header, its columns by ordinal, its indexes,
/// and a blank line after the closing bracket.
pub open spec fn render_table(table: TableModel, database: Seq<char>, name: Seq<char>) -> Seq<char> {
    "Table "@ + encode_table_key(database, name) + " {\n"@ + column_lines(
        table.columns,
        SLOTS as int,
    ) + index_block(table.indexes) + "}\n\n"@
}

/// The path of the output file of `project` below the directory `home`.
pub open spec fn file_path(home: Seq<char>, project: Seq<char>) -> Seq<char> {
    home + "/.dbml/"@ + project + ".dbml"@
}

/// Builds the path of the output file of `project` below the directory `home`.
pub fn get_file_path(home: &str, project: &str) -> (path: String)
    ensures
        path@ == file_path(home@, project@),
{
    let mut path = String::from_str(home);
    path.append("/.dbml/");
    path.append(project);
    path.append(".dbml");
    path
}

/// The line of one reference.
pub open spec fn render_reference(key: Seq<char>, referenced_key: Seq<char>) -> Seq<char> {
    "Ref: "@ + key + " - "@ + referenced_key + "\n"@
}

/// Writes the line of one reference.
pub fn reference_to_dbml(key: &str, referenced_key: &str) -> (line: String)
    ensures
        line@ == render_reference(key@, referenced_key@),
{
    let mut line = String::from_str("Ref: ");
    line.append(key);
    line.append(" - ");
    line.append(referenced_key);
    line.append("\n");
    line
}

fn column_options_of(column: &ProjectDatabaseColumn) -> (options: Vec<String>)
    ensures
        options.deep_view() == column_options(column.deep_view()),
{
    let mut options: Vec<String> = Vec::new();
    if column.is_primary_key {
        options.push(String::from_str("pk"));
    }
    if column.is_nullable {
        options.push(String::from_str("null"));
    } else {
        options.push(String::from_str("not null"));
    }
    if column.is_unique {
        options.push(String::from_str("unique"));
    }
    if column.is_auto_increment {
        options.push(String::from_str("increment"));
    }
    match &column.default_value {
        Some(value) => {
            let mut default = String::from_str("default: \"");
            default.append(value.as_str());
            default.append("\"");
            options.push(default);
        },
        None => {},
    }
    assert(options.deep_view() =~= column_options(column.deep_view()));
    options
}

fn column_to_dbml(name: &str, column: &ProjectDatabaseColumn) -> (line: String)
    ensures
        line@ == column_line(name@, column.deep_view()),
{
    let mut line = String::from_str("\t");
    line.append(name);
    line.append(" ");
    line.append(column.data_type.as_str());
    match &column.data_precision {
        Some(precision) => {
            if !str_equal(precision.as_str(), "0") {
                let mut text = String::from_str("(");
                text.append(precision.as_str());
                text.append(")");
                line.append(text.as_str());
            } else {
                assert(line@ + Seq::<char>::empty() =~= line@);
            }
        },
        None => {
            assert(line@ + Seq::<char>::empty() =~= line@);
        },
    }
    line.append(" ");
    line.append("[ ");
    let options = column_options_of(column);
    line.append(join_strings(&options, ", ").as_str());
    line.append(" ]");
    line.append("\n");
    line
}

fn index_to_dbml(index: &ProjectDatabaseIndex) -> (text: String)
    ensures
        text@ == index_text(index.deep_view()),
{
    let list = join_strings(&index.columns, ", ");
    let mut text = if index.columns.len() > 1 {
        let mut bracketed = String::from_str("(");
        bracketed.append(list.as_str());
        bracketed.append(")");
        bracketed
    } else {
        list
    };
    if index.is_primary_key {
        text.append(" [ pk ]");
    }
    text
}

/// For each slot, the index of the column that renders there.
fn lay_out(columns: &NameMap<ProjectDatabaseColumn>) -> (slots: Vec<Option<usize>>)
    ensures
        slots@.len() == SLOTS,
        forall|slot: int|
            0 <= slot < SLOTS ==> match #[trigger] slots@[slot] {
                Some(i) => occupant(columns.deep_view(), slot) == Some(i as int),
                None => occupant(columns.deep_view(), slot) is None,
            },
{
    let mut slots: Vec<Option<usize>> = Vec::new();
    while slots.len() < SLOTS
        invariant
            slots@.len() <= SLOTS,
            forall|slot: int| 0 <= slot < slots@.len() ==> slots@[slot] is None,
        decreases SLOTS - slots@.len(),
    {
        slots.push(None);
    }
    let count = columns.len();
    let mut i: usize = 0;
    while i < count
        invariant
            i <= count == columns.deep_view().len(),
            slots@.len() == SLOTS,
            forall|slot: int|
                0 <= slot < SLOTS ==> match #[trigger] slots@[slot] {
                    Some(k) => occupant(columns.deep_view().take(i as int), slot) == Some(k as int),
                    None => occupant(columns.deep_view().take(i as int), slot) is None,
                },
        decreases count - i,
    {
        let ordinal = columns.value_at(i).ordinal_position;
        let slot: usize = if ordinal == 0 {
            255
        } else {
            (ordinal - 1) as usize
        };
        proof {
            let before = columns.deep_view().take(i as int);
            let after = columns.deep_view().take(i + 1);
            assert(after.drop_last() =~= before);
            assert(after.last() == columns.deep_view()[i as int]);
        }
        slots.set(slot, Some(i));
        i = i + 1;
    }
    assert(columns.deep_view().take(i as int) =~= columns.deep_view());
    slots
}

impl ProjectDatabaseTable {
    /// Writes the block of this table, named `name` in `database_name`.
    pub fn to_dbml(&self, database_name: &String, name: &String) -> (dbml: String)
        ensures
            dbml@ == render_table(self.deep_view(), database_name@, name@),
    {
        let mut dbml = String::from_str("Table ");
        dbml.append(encode_table_key_string(database_name.as_str(), name.as_str()).as_str());
        dbml.append(" {\n");
        let ghost header = dbml@;

        let slots = lay_out(&self.columns);
        let mut slot: usize = 0;
        while slot < SLOTS
            invariant
                slot <= SLOTS == slots@.len(),
                forall|k: int|
                    0 <= k < SLOTS ==> match #[trigger] slots@[k] {
                        Some(i) => occupant(self.columns.deep_view(), k) == Some(i as int),
                        None => occupant(self.columns.deep_view(), k) is None,
                    },
                dbml@ == header + column_lines(self.columns.deep_view(), slot as int),
            decreases SLOTS - slot,
        {
            proof {
                lemma_occupant(self.columns.deep_view(), slot as int);
            }
            match slots[slot] {
                Some(i) => {
                    let line = column_to_dbml(
                        self.columns.name_at(i).as_str(),
                        self.columns.value_at(i),
                    );
                    dbml.append(line.as_str());
                },
                None => {},
            }
            assert(dbml@ =~= header + column_lines(self.columns.deep_view(), slot + 1));
            slot = slot + 1;
        }

        match &self.indexes {
            Some(indexes) => {
                if indexes.len() > 0 {
                    let ghost before = dbml@;
                    dbml.append("\n\tindexes {\n");
                    let mut i: usize = 0;
                    while i < indexes.len()
                        invariant
                            i <= indexes.len(),
                            dbml@ == before + "\n\tindexes {\n"@ + index_lines(
                                indexes.deep_view().take(i as int),
                            ),
                        decreases indexes.len() - i,
                    {
                        proof {
                            let done = indexes.deep_view().take(i as int);
                            let next = indexes.deep_view().take(i + 1);
                            assert(next.drop_last() =~= done);
                            assert(next.last() == indexes@[i as int].deep_view());
                        }
                        dbml.append("\t\t");
                        dbml.append(index_to_dbml(&indexes[i]).as_str());
                        dbml.append("\n");
                        assert(dbml@ =~= before + "\n\tindexes {\n"@ + index_lines(
                            indexes.deep_view().take(i + 1),
                        ));
                        i = i + 1;
                    }
                    assert(indexes.deep_view().take(i as int) =~= indexes.deep_view());
                    dbml.append("\t}\n");
                    assert(dbml@ =~= before + index_block(self.indexes.deep_view()));
                } else {
                    assert(dbml@ + Seq::<char>::empty() =~= dbml@);
                }
            },
            None => {
                assert(dbml@ + Seq::<char>::empty() =~= dbml@);
            },
        }
        dbml.append("}\n\n");
        assert(dbml@ =~= render_table(self.deep_view(), database_name@, name@));
        dbml
    }
}

} // verus!
