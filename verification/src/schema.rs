//! Schema model: the declarative description of tables and columns.
//!
//! A [`TableSpec`] lists, in declaration order, the well-known columns of one
//! table: a logical name (Latin-1 bytes), a value kind, and a nullability
//! flag. Declaration order fixes enumeration and serialization order; it says
//! nothing about the physical layout of a stored table.

use vstd::prelude::*;

verus! {

/// The kind of value a column holds.
#[derive(Clone, Copy, Debug, PartialEq, Eq, Structural)]
pub enum ValueKind {
    /// The null value; extraction yields a unit value.
    Nothing,
    /// A 32-bit signed integer.
    Integer32,
    /// A 32-bit IEEE 754 number, carried by its bit pattern.
    Float32,
    /// A Latin-1 text string.
    Text,
    /// A boolean.
    Boolean,
    /// A 64-bit signed integer.
    Integer64,
    /// A Latin-1 text string stored in the variable-length form.
    VarText,
}

/// One declared column: logical name, value kind, nullability.
#[derive(Clone, Debug)]
pub struct ColumnSpec {
    /// The logical column name, as Latin-1 bytes.
    pub name: Vec<u8>,
    /// The kind of value the column holds.
    pub kind: ValueKind,
    /// Whether the column may be null.
    pub nullable: bool,
}

/// One declared table: logical name and ordered column list.
#[derive(Clone, Debug)]
pub struct TableSpec {
    /// The logical table name, as Latin-1 bytes.
    pub name: Vec<u8>,
    /// The declared columns, in declaration order.
    pub columns: Vec<ColumnSpec>,
}

impl ColumnSpec {
    /// Declare one column.
    pub fn new(name: Vec<u8>, kind: ValueKind, nullable: bool) -> (r: ColumnSpec)
        ensures
            r.name == name,
            r.kind == kind,
            r.nullable == nullable,
    {
        ColumnSpec { name, kind, nullable }
    }
}

impl TableSpec {
    /// Declare one table.
    pub fn new(name: Vec<u8>, columns: Vec<ColumnSpec>) -> (r: TableSpec)
        ensures
            r.name == name,
            r.columns == columns,
    {
        TableSpec { name, columns }
    }
}

/// The names of a column list, in order.
pub open spec fn column_names(columns: Seq<ColumnSpec>) -> Seq<Seq<u8>> {
    columns.map_values(|c: ColumnSpec| c.name@)
}

/// All declared column names are pairwise distinct.
pub open spec fn distinct_column_names(columns: Seq<ColumnSpec>) -> bool {
    forall|i: int, j: int| 0 <= i < j < columns.len() ==> columns[i].name@ != columns[j].name@
}

/// The position of the first name in `names` equal to `name`, if any.
///
/// This single notion underlies both identifier re-resolution against the
/// declared schema and physical column resolution: earlier occurrences always
/// win over later duplicates.
pub open spec fn first_name_match(names: Seq<Seq<u8>>, name: Seq<u8>) -> Option<int>
    decreases names.len(),
{
    if names.len() == 0 {
        None
    } else if names[0] == name {
        Some(0int)
    } else {
        match first_name_match(names.drop_first(), name) {
            None => None,
            Some(i) => Some(i + 1),
        }
    }
}

/// `first_name_match` returns the least matching position, or `None` when no
/// name matches.
pub proof fn lemma_first_name_match(names: Seq<Seq<u8>>, name: Seq<u8>)
    ensures
        match first_name_match(names, name) {
            Some(i) => 0 <= i < names.len() && names[i] == name && (forall|j: int|
                0 <= j < i ==> names[j] != name),
            None => forall|j: int| 0 <= j < names.len() ==> names[j] != name,
        },
    decreases names.len(),
{
    if names.len() > 0 && names[0] != name {
        let rest = names.drop_first();
        lemma_first_name_match(rest, name);
        assert(forall|j: int| 0 <= j < rest.len() ==> rest[j] == names[j + 1]);
        match first_name_match(rest, name) {
            None => {
                assert forall|j: int| 0 <= j < names.len() implies names[j] != name by {
                    if j > 0 {
                        assert(rest[j - 1] != name);
                    }
                }
            },
            Some(i) => {
                assert(names[i + 1] == rest[i]);
                assert forall|j: int| 0 <= j < i + 1 implies names[j] != name by {
                    if j > 0 {
                        assert(rest[j - 1] != name);
                    }
                }
            },
        }
    }
}

} // verus!
