//! Plain-data model of the physical row store.
//!
//! The row store proper — the binary format, memory mapping, bucket layout —
//! is an external collaborator. This crate consumes it through the narrow
//! shape below: named tables, each with ordered physical columns and rows
//! partitioned into hash buckets, every field already a plain value. An
//! adapter outside the verified core converts a loaded store into these
//! values; nothing here parses bytes.

use vstd::prelude::*;

verus! {

/// One physical field value.
///
/// A 32-bit float is carried by its IEEE 754 bit pattern; text is carried as
/// Latin-1 bytes and is never decoded here.
#[derive(Clone, Debug, PartialEq)]
pub enum FieldValue {
    /// The null value.
    Nothing,
    /// A 32-bit signed integer.
    Integer32(i32),
    /// The bit pattern of a 32-bit IEEE 754 number.
    Float32(u32),
    /// Latin-1 text.
    Text(Vec<u8>),
    /// A boolean.
    Boolean(bool),
    /// A 64-bit signed integer.
    Integer64(i64),
    /// Latin-1 text stored in the variable-length form.
    VarText(Vec<u8>),
}

/// One physical column: only its name matters to resolution.
#[derive(Clone, Debug)]
pub struct PhysColumn {
    /// The physical column name, as Latin-1 bytes.
    pub name: Vec<u8>,
}

/// One physical row: its fields, in physical column order.
#[derive(Clone, Debug)]
pub struct PhysRow {
    /// The field values, indexed by physical column position.
    pub fields: Vec<FieldValue>,
}

/// One hash bucket: the rows whose primary-key hash selects it.
#[derive(Clone, Debug)]
pub struct PhysBucket {
    /// The rows of this bucket, in stored order.
    pub rows: Vec<PhysRow>,
}

/// One physical table: ordered columns and hash-partitioned rows.
#[derive(Clone, Debug)]
pub struct PhysTable {
    /// The physical columns, in stored order.
    pub columns: Vec<PhysColumn>,
    /// The hash buckets, in stored order.
    pub buckets: Vec<PhysBucket>,
}

/// One named table of the store.
#[derive(Clone, Debug)]
pub struct NamedTable {
    /// The table name, as Latin-1 bytes.
    pub name: Vec<u8>,
    /// The table itself.
    pub table: PhysTable,
}

/// The set of tables a loaded store exposes.
#[derive(Clone, Debug)]
pub struct PhysTables {
    /// The tables, in stored order.
    pub tables: Vec<NamedTable>,
}

/// The names of the physical columns of a table, in stored order.
pub open spec fn phys_column_names(columns: Seq<PhysColumn>) -> Seq<Seq<u8>> {
    columns.map_values(|c: PhysColumn| c.name@)
}

/// The names of the tables of a store, in stored order.
pub open spec fn store_table_names(tables: Seq<NamedTable>) -> Seq<Seq<u8>> {
    tables.map_values(|t: NamedTable| t.name@)
}

/// The primary key of a row: the integer in its first field, by the store's
/// convention that physical column 0 holds the key.
pub open spec fn row_key(r: PhysRow) -> Option<i32> {
    if r.fields@.len() > 0 {
        match r.fields@[0] {
            FieldValue::Integer32(k) => Some(k),
            _ => None,
        }
    } else {
        None
    }
}

/// The row's first field holds exactly the integer `key`.
pub open spec fn row_has_key(r: PhysRow, key: i32) -> bool {
    row_key(r) == Some(key)
}

/// The minimum structural shape a physical table must have before it can be
/// wrapped: at least one column (the conventional primary-key column) and at
/// least one bucket (bucket selection reduces modulo the bucket count).
pub open spec fn table_shape_ok(t: PhysTable) -> bool {
    t.columns@.len() > 0 && t.buckets@.len() > 0
}

/// The bits of a 32-bit signed key, read as an unsigned 32-bit hash.
pub open spec fn key_hash_spec(key: i32) -> u32 {
    if key >= 0 {
        key as u32
    } else {
        (key + 0x1_0000_0000) as u32
    }
}

/// Reinterpret a signed 32-bit key as its unsigned hash.
pub fn key_hash(key: i32) -> (r: u32)
    ensures
        r == key_hash_spec(key),
{
    if key >= 0 {
        key as u32
    } else {
        let wide: i64 = (key as i64) + 0x1_0000_0000i64;
        wide as u32
    }
}

/// The bucket a key selects in a table of `bucket_count` buckets.
pub open spec fn bucket_index_spec(key: i32, bucket_count: int) -> int
    recommends
        bucket_count > 0,
{
    key_hash_spec(key) as int % bucket_count
}

impl PhysRow {
    /// The field at a physical column index, if the row extends that far.
    pub fn field_at(&self, index: usize) -> (r: Option<&FieldValue>)
        ensures
            match r {
                Some(f) => index < self.fields@.len() && *f == self.fields@[index as int],
                None => index >= self.fields@.len(),
            },
    {
        if index < self.fields.len() {
            Some(&self.fields[index])
        } else {
            None
        }
    }

    /// The primary key of this row, by the first-column convention.
    pub fn key(&self) -> (r: Option<i32>)
        ensures
            r == row_key(*self),
    {
        if self.fields.len() > 0 {
            match &self.fields[0] {
                FieldValue::Integer32(k) => Some(*k),
                _ => None,
            }
        } else {
            None
        }
    }

    /// Whether the first field of this row holds exactly `key`.
    pub fn has_key(&self, key: i32) -> (r: bool)
        ensures
            r == row_has_key(*self, key),
    {
        match self.key() {
            Some(k) => k == key,
            None => false,
        }
    }
}

} // verus!
