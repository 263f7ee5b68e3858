//! Typed table and row views.
//!
//! A [`TableView`] wraps one physical table together with a compiled
//! binding. At construction it resolves every well-known column to the
//! physical index its name first occurs at, if any; the mapping is immutable
//! afterwards. Resolution is tolerant of schema drift: unknown physical
//! columns are ignored, unmatched declared columns stay unresolved, and of
//! duplicate physical names the first occurrence wins.
//!
//! A [`RowView`] is a lightweight reference to one physical row; every field
//! read goes back through its table view's resolved indices.

use vstd::prelude::*;

use crate::binding::{ColumnId, TableBinding};
use crate::bytes::bytes_eq;
use crate::schema::{first_name_match, lemma_first_name_match};
use crate::store::{
    bucket_index_spec, key_hash, phys_column_names, row_has_key, row_key, table_shape_ok,
    PhysBucket, PhysColumn, PhysRow, PhysTable,
};
use crate::store::FieldValue;

verus! {

/// An optional index, as a mathematical value.
pub open spec fn opt_as_int(o: Option<usize>) -> Option<int> {
    match o {
        None => None,
        Some(u) => Some(u as int),
    }
}

/// The resolution of declared column `c` of a view: the position of the
/// first physical column carrying the declared name, if any.
pub open spec fn col_resolution(v: TableView, c: int) -> Option<int> {
    first_name_match(phys_column_names(v.table.columns@), v.binding.columns@[c].decl.name@)
}

/// The bucket `key` selects in the view's table.
pub open spec fn bucket_index_spec_of(v: TableView, key: i32) -> int {
    bucket_index_spec(key, v.table.buckets@.len() as int)
}

/// A physical table is structurally too small to wrap.
#[derive(Clone, Copy, Debug, PartialEq, Eq, Structural)]
pub enum StructureError {
    /// The table has no physical columns at all.
    NoColumns,
    /// The table has no hash buckets at all.
    NoBuckets,
}

/// A typed view of one physical table: the compiled binding, a borrow of the
/// table, and the column resolution computed once at construction.
pub struct TableView<'a> {
    /// The compiled binding this view was built from.
    pub binding: TableBinding,
    /// The physical table, borrowed from the store.
    pub table: &'a PhysTable,
    /// For each declared column, the physical index its name resolved to.
    pub resolved: Vec<Option<usize>>,
}

impl<'a> TableView<'a> {
    /// Well-formedness: the underlying table has an acceptable shape and
    /// `resolved` maps every declared column to the first physical column of
    /// the same name, or to nothing.
    pub open spec fn wf(self) -> bool {
        &&& table_shape_ok(*self.table)
        &&& self.resolved@.len() == self.binding.columns@.len()
        &&& forall|c: int|
            0 <= c < self.resolved@.len() ==> opt_as_int(#[trigger] self.resolved@[c])
                == first_name_match(
                phys_column_names(self.table.columns@),
                self.binding.columns@[c].decl.name@,
            )
    }

    /// Wrap a physical table, resolving every declared column.
    ///
    /// Fails exactly when the table's shape is below the structural minimum;
    /// column resolution itself is total and cannot fail.
    pub fn new(binding: TableBinding, table: &'a PhysTable) -> (r: Result<
        TableView<'a>,
        StructureError,
    >)
        ensures
            r is Ok <==> table_shape_ok(*table),
            r matches Ok(v) ==> v.binding == binding && v.table == table && v.wf(),
            r matches Err(e) ==> (e == StructureError::NoColumns <==> table.columns@.len() == 0),
    {
        if table.columns.len() == 0 {
            return Err(StructureError::NoColumns);
        }
        if table.buckets.len() == 0 {
            return Err(StructureError::NoBuckets);
        }
        let mut resolved: Vec<Option<usize>> = Vec::new();
        let mut c: usize = 0;
        while c < binding.columns.len()
            invariant
                c <= binding.columns@.len(),
                resolved@.len() == c as int,
                forall|a: int| 0 <= a < c ==> opt_as_int(#[trigger] resolved@[a])
                    == first_name_match(
                    phys_column_names(table.columns@),
                    binding.columns@[a].decl.name@,
                ),
            decreases binding.columns@.len() - c,
        {
            resolved.push(find_phys(&table.columns, binding.columns[c].decl.name.as_slice()));
            c = c + 1;
        }
        Ok(TableView { binding, table, resolved })
    }

    /// The physical index a well-known column resolved to, if any.
    pub fn get_col(&self, c: ColumnId) -> (r: Option<usize>)
        requires
            self.wf(),
            c.index < self.binding.columns@.len(),
        ensures
            opt_as_int(r) == first_name_match(
                phys_column_names(self.table.columns@),
                self.binding.columns@[c.index as int].decl.name@,
            ),
            r matches Some(i) ==> i < self.table.columns@.len()
                && self.table.columns@[i as int].name@
                == self.binding.columns@[c.index as int].decl.name@,
    {
        proof {
            lemma_first_name_match(
                phys_column_names(self.table.columns@),
                self.binding.columns@[c.index as int].decl.name@,
            );
        }
        self.resolved[c.index]
    }

    /// Whether a well-known column is physically present in this table.
    pub fn has_col(&self, c: ColumnId) -> (r: bool)
        requires
            self.wf(),
            c.index < self.binding.columns@.len(),
        ensures
            r == (first_name_match(
                phys_column_names(self.table.columns@),
                self.binding.columns@[c.index as int].decl.name@,
            ) is Some),
    {
        self.get_col(c).is_some()
    }

    /// The number of hash buckets of the underlying table.
    pub fn bucket_count(&self) -> (r: usize)
        ensures
            r == self.table.buckets@.len(),
    {
        self.table.buckets.len()
    }
}

/// The first physical column whose name equals `name`.
fn find_phys(columns: &Vec<PhysColumn>, name: &[u8]) -> (r: Option<usize>)
    ensures
        opt_as_int(r) == first_name_match(phys_column_names(columns@), name@),
{
    proof {
        lemma_first_name_match(phys_column_names(columns@), name@);
    }
    let mut i: usize = 0;
    while i < columns.len()
        invariant
            i <= columns@.len(),
            forall|j: int| 0 <= j < i ==> phys_column_names(columns@)[j] != name@,
        decreases columns@.len() - i,
    {
        if bytes_eq(columns[i].name.as_slice(), name) {
            proof {
                let names = phys_column_names(columns@);
                lemma_first_name_match(names, name@);
                assert(names[i as int] == name@);
                match first_name_match(names, name@) {
                    None => {
                        assert(false);
                    },
                    Some(k) => {
                        if k < i {
                            assert(names[k] != name@);
                        }
                        if k > i {
                            assert(names[i as int] != name@);
                        }
                    },
                }
            }
            return Some(i);
        }
        i = i + 1;
    }
    None
}

/// A reference to one physical row, tied to the [`TableView`] it came from.
///
/// It holds no data of its own; reads re-dereference through the view.
pub struct RowView<'a, 'b> {
    /// The owning table view.
    pub table: &'b TableView<'a>,
    /// The bucket the row sits in.
    pub bucket: usize,
    /// The position of the row inside its bucket.
    pub row: usize,
}

impl<'a, 'b> Clone for RowView<'a, 'b> {
    fn clone(&self) -> (r: Self)
        ensures
            r == *self,
    {
        RowView { table: self.table, bucket: self.bucket, row: self.row }
    }
}

impl<'a, 'b> Copy for RowView<'a, 'b> {

}

impl<'a, 'b> RowView<'a, 'b> {
    /// Well-formedness: the indices address a row of the view's table.
    pub open spec fn wf(self) -> bool {
        &&& self.table.wf()
        &&& self.bucket < self.table.table.buckets@.len()
        &&& self.row < self.table.table.buckets@[self.bucket as int].rows@.len()
    }

    /// The physical row this view addresses.
    pub open spec fn phys_row(self) -> PhysRow {
        self.table.table.buckets@[self.bucket as int].rows@[self.row as int]
    }

    /// Borrow the physical row.
    pub fn phys(&self) -> (r: &PhysRow)
        requires
            self.wf(),
        ensures
            *r == self.phys_row(),
    {
        &self.table.table.buckets[self.bucket].rows[self.row]
    }
}

/// The `(bucket, row)` pairs of a table, in table order: bucket by bucket,
/// and within a bucket in stored row order.
pub open spec fn scan_pairs(buckets: Seq<PhysBucket>) -> Seq<(int, int)>
    decreases buckets.len(),
{
    if buckets.len() == 0 {
        Seq::empty()
    } else {
        scan_pairs(buckets.drop_last()) + Seq::new(
            buckets.last().rows@.len(),
            |j: int| (buckets.len() - 1int, j),
        )
    }
}

/// The positions, in stored order, of the rows of a bucket whose first field
/// holds exactly `key`.
pub open spec fn matching_indices(rows: Seq<PhysRow>, key: i32) -> Seq<int>
    decreases rows.len(),
{
    if rows.len() == 0 {
        Seq::empty()
    } else {
        let prefix = matching_indices(rows.drop_last(), key);
        if row_has_key(rows.last(), key) {
            prefix.push(rows.len() - 1)
        } else {
            prefix
        }
    }
}

/// What `matching_indices` yields: exactly the positions of the rows that
/// hold the key, each once, in increasing order.
pub proof fn lemma_matching_indices(rows: Seq<PhysRow>, key: i32)
    ensures
        forall|k: int| 0 <= k < matching_indices(rows, key).len() ==> 0 <= #[trigger] matching_indices(
            rows,
            key,
        )[k] < rows.len() && row_has_key(rows[matching_indices(rows, key)[k]], key),
        forall|k1: int, k2: int| 0 <= k1 < k2 < matching_indices(rows, key).len()
            ==> #[trigger] matching_indices(rows, key)[k1] < #[trigger] matching_indices(
            rows,
            key,
        )[k2],
        forall|j: int| 0 <= j < rows.len() && row_has_key(rows[j], key)
            ==> matching_indices(rows, key).contains(j),
    decreases rows.len(),
{
    if rows.len() > 0 {
        let prev = rows.drop_last();
        lemma_matching_indices(prev, key);
        let mi = matching_indices(rows, key);
        let mp = matching_indices(prev, key);
        assert(forall|j: int| 0 <= j < prev.len() ==> prev[j] == rows[j]);
        assert forall|j: int| 0 <= j < rows.len() && row_has_key(rows[j], key) implies mi.contains(
            j,
        ) by {
            if j < rows.len() - 1 {
                assert(mp.contains(j));
                let k = choose|k: int| 0 <= k < mp.len() && mp[k] == j;
                assert(mi[k] == j);
            } else {
                assert(row_has_key(rows.last(), key));
                assert(mi.last() == j);
            }
        }
    }
}


/// Every row of the table sits in the bucket its own primary key selects,
/// and has an integer primary key at all.
pub open spec fn well_bucketed(t: PhysTable) -> bool {
    forall|b: int, j: int|
        0 <= b < t.buckets@.len() && 0 <= j < (#[trigger] t.buckets@[b]).rows@.len() ==> {
            let r = #[trigger] t.buckets@[b].rows@[j];
            row_key(r) is Some && bucket_index_spec(row_key(r)->0, t.buckets@.len() as int) == b
        }
}

/// No two rows of the table carry the same primary key.
pub open spec fn unique_keys(t: PhysTable) -> bool {
    forall|b1: int, j1: int, b2: int, j2: int|
        0 <= b1 < t.buckets@.len() && 0 <= j1 < t.buckets@[b1].rows@.len() && 0 <= b2
            < t.buckets@.len() && 0 <= j2 < t.buckets@[b2].rows@.len() && (b1 != b2 || j1 != j2)
            && row_key(#[trigger] t.buckets@[b1].rows@[j1]) is Some ==> row_key(
            t.buckets@[b1].rows@[j1],
        ) != row_key(#[trigger] t.buckets@[b2].rows@[j2])
}

/// Some row of the table has `key` as its primary key.
pub open spec fn key_present(t: PhysTable, key: i32) -> bool {
    exists|b: int, j: int|
        0 <= b < t.buckets@.len() && 0 <= j < t.buckets@[b].rows@.len() && row_has_key(
            #[trigger] t.buckets@[b].rows@[j],
            key,
        )
}

/// Lookup correctness, present case: in a well-bucketed table with unique
/// primary keys, a key some row holds matches exactly one row of its bucket,
/// so [`TableView::key_lookup`] returns exactly one row view — whose
/// primary-key field equals the key, by that function's contract.
pub proof fn lemma_lookup_present(t: PhysTable, key: i32)
    requires
        table_shape_ok(t),
        well_bucketed(t),
        unique_keys(t),
        key_present(t, key),
    ensures
        matching_indices(
            t.buckets@[bucket_index_spec(key, t.buckets@.len() as int)].rows@,
            key,
        ).len() == 1,
{
    let n = t.buckets@.len() as int;
    let b0 = bucket_index_spec(key, n);
    let (bw, jw) = choose|b: int, j: int|
        0 <= b < t.buckets@.len() && 0 <= j < t.buckets@[b].rows@.len() && row_has_key(
            #[trigger] t.buckets@[b].rows@[j],
            key,
        );
    assert(row_key(t.buckets@[bw].rows@[jw]) == Some(key));
    assert(bucket_index_spec(key, n) == bw);
    let rows = t.buckets@[b0].rows@;
    let mi = matching_indices(rows, key);
    lemma_matching_indices(rows, key);
    assert(mi.contains(jw));
    assert(mi.len() >= 1);
    if mi.len() >= 2 {
        assert(mi[0] < mi[1]);
        assert(row_has_key(rows[mi[0]], key));
        assert(row_has_key(rows[mi[1]], key));
        assert(row_key(rows[mi[0]]) != row_key(rows[mi[1]]));
        assert(false);
    }
}

/// Lookup correctness, absent case: a key no row of the table holds matches
/// no row of its bucket, so [`TableView::key_lookup`] returns the empty
/// sequence.
pub proof fn lemma_lookup_absent(t: PhysTable, key: i32)
    requires
        table_shape_ok(t),
        !key_present(t, key),
    ensures
        matching_indices(
            t.buckets@[bucket_index_spec(key, t.buckets@.len() as int)].rows@,
            key,
        ).len() == 0,
{
    let n = t.buckets@.len() as int;
    let b0 = bucket_index_spec(key, n);
    let rows = t.buckets@[b0].rows@;
    let mi = matching_indices(rows, key);
    lemma_matching_indices(rows, key);
    if mi.len() > 0 {
        let j = mi[0];
        assert(row_has_key(rows[j], key));
        assert(0 <= b0 < t.buckets@.len() && 0 <= j < t.buckets@[b0].rows@.len() && row_has_key(
            t.buckets@[b0].rows@[j],
            key,
        ));
        assert(false);
    }
}


/// The total number of rows of a table, over all buckets.
pub open spec fn total_rows(buckets: Seq<PhysBucket>) -> int
    decreases buckets.len(),
{
    if buckets.len() == 0 {
        0
    } else {
        total_rows(buckets.drop_last()) + buckets.last().rows@.len()
    }
}

/// Full-scan completeness: the scan order holds one entry per physical row
/// — every entry addresses a valid row, and there are exactly as many
/// entries as the table has rows. Together with [`lemma_scan_contains`],
/// the scan order is exactly the set of valid positions.
pub proof fn lemma_scan_pairs_complete(buckets: Seq<PhysBucket>)
    ensures
        scan_pairs(buckets).len() == total_rows(buckets),
        forall|k: int|
            0 <= k < scan_pairs(buckets).len() ==> {
                let p = #[trigger] scan_pairs(buckets)[k];
                0 <= p.0 < buckets.len() && 0 <= p.1 < buckets[p.0].rows@.len()
            },
    decreases buckets.len(),
{
    if buckets.len() > 0 {
        lemma_scan_pairs_complete(buckets.drop_last());
        let prefix = scan_pairs(buckets.drop_last());
        assert forall|k: int| 0 <= k < scan_pairs(buckets).len() implies {
            let p = #[trigger] scan_pairs(buckets)[k];
            0 <= p.0 < buckets.len() && 0 <= p.1 < buckets[p.0].rows@.len()
        } by {
            if k < prefix.len() {
                let p = prefix[k];
                assert(buckets.drop_last()[p.0] == buckets[p.0]);
            }
        }
    }
}


/// Full-scan distinctness: the scan order never repeats a position — it is
/// strictly increasing, bucket-major. With completeness, every physical row
/// appears exactly once.
pub proof fn lemma_scan_pairs_ordered(buckets: Seq<PhysBucket>)
    ensures
        forall|k1: int, k2: int|
            0 <= k1 < k2 < scan_pairs(buckets).len() ==> (#[trigger] scan_pairs(buckets)[k1]).0
                < (#[trigger] scan_pairs(buckets)[k2]).0 || (scan_pairs(buckets)[k1].0
                == scan_pairs(buckets)[k2].0 && scan_pairs(buckets)[k1].1 < scan_pairs(
                buckets,
            )[k2].1),
    decreases buckets.len(),
{
    if buckets.len() > 0 {
        lemma_scan_pairs_ordered(buckets.drop_last());
        lemma_scan_pairs_complete(buckets.drop_last());
        let prefix = scan_pairs(buckets.drop_last());
        let whole = scan_pairs(buckets);
        assert forall|k1: int, k2: int| 0 <= k1 < k2 < whole.len() implies (#[trigger] whole[k1]).0
            < (#[trigger] whole[k2]).0 || (whole[k1].0 == whole[k2].0 && whole[k1].1
            < whole[k2].1) by {
            if k2 < prefix.len() {
                assert(whole[k1] == prefix[k1]);
                assert(whole[k2] == prefix[k2]);
            } else if k1 < prefix.len() {
                assert(whole[k1] == prefix[k1]);
                assert(prefix[k1].0 < buckets.drop_last().len());
                assert(whole[k2].0 == buckets.len() - 1);
            } else {
                assert(whole[k1].1 == k1 - prefix.len());
                assert(whole[k2].1 == k2 - prefix.len());
            }
        }
    }
}

/// A valid `(bucket, row)` position occurs in the full-scan order.
pub proof fn lemma_scan_contains(buckets: Seq<PhysBucket>, b: int, j: int)
    requires
        0 <= b < buckets.len(),
        0 <= j < buckets[b].rows@.len(),
    ensures
        scan_pairs(buckets).contains((b, j)),
    decreases buckets.len(),
{
    let prefix = scan_pairs(buckets.drop_last());
    if b == buckets.len() - 1 {
        assert(scan_pairs(buckets)[prefix.len() + j] == (b, j));
    } else {
        lemma_scan_contains(buckets.drop_last(), b, j);
        let k = choose|k: int| 0 <= k < prefix.len() && prefix[k] == (b, j);
        assert(scan_pairs(buckets)[k] == (b, j));
    }
}

/// Bucket collision handling: two rows with different primary keys that
/// share a bucket are both discoverable via full scan, while keyed lookup
/// for the first key matches only the row holding it, never its bucket
/// neighbour.
pub proof fn lemma_bucket_collision(t: PhysTable, b: int, j1: int, j2: int, k1: i32, k2: i32)
    requires
        table_shape_ok(t),
        0 <= b < t.buckets@.len(),
        0 <= j1 < t.buckets@[b].rows@.len(),
        0 <= j2 < t.buckets@[b].rows@.len(),
        j1 != j2,
        k1 != k2,
        row_key(t.buckets@[b].rows@[j1]) == Some(k1),
        row_key(t.buckets@[b].rows@[j2]) == Some(k2),
    ensures
        scan_pairs(t.buckets@).contains((b, j1)),
        scan_pairs(t.buckets@).contains((b, j2)),
        matching_indices(t.buckets@[b].rows@, k1).contains(j1),
        !matching_indices(t.buckets@[b].rows@, k1).contains(j2),
{
    lemma_scan_contains(t.buckets@, b, j1);
    lemma_scan_contains(t.buckets@, b, j2);
    let rows = t.buckets@[b].rows@;
    let mi = matching_indices(rows, k1);
    lemma_matching_indices(rows, k1);
    assert(row_has_key(rows[j1], k1));
    assert(mi.contains(j1));
    if mi.contains(j2) {
        let k = choose|k: int| 0 <= k < mi.len() && mi[k] == j2;
        assert(row_has_key(rows[mi[k]], k1));
        assert(false);
    }
}


/// The position of the first row of a bucket whose first field holds
/// exactly `key`, if any.
pub open spec fn first_key_match(rows: Seq<PhysRow>, key: i32) -> Option<int>
    decreases rows.len(),
{
    if rows.len() == 0 {
        None
    } else if row_has_key(rows[0], key) {
        Some(0int)
    } else {
        match first_key_match(rows.drop_first(), key) {
            None => None,
            Some(i) => Some(i + 1),
        }
    }
}

/// The field of a row at index `i`, read as an integer.
pub open spec fn field_as_integer(r: PhysRow, i: int) -> Option<i32> {
    if 0 <= i < r.fields@.len() {
        match r.fields@[i] {
            FieldValue::Integer32(k) => Some(k),
            _ => None,
        }
    } else {
        None
    }
}

/// The position of the first row of a bucket whose field at `id_col` reads
/// as the integer `key`, if any.
pub open spec fn first_id_match(rows: Seq<PhysRow>, key: i32, id_col: int) -> Option<int>
    decreases rows.len(),
{
    if rows.len() == 0 {
        None
    } else if field_as_integer(rows[0], id_col) == Some(key) {
        Some(0int)
    } else {
        match first_id_match(rows.drop_first(), key, id_col) {
            None => None,
            Some(i) => Some(i + 1),
        }
    }
}

impl<'a> TableView<'a> {
    /// The first row of the key's bucket whose first field holds exactly
    /// `key`, if any: the row a point lookup settles on.
    pub fn first_with_key<'b>(&'b self, key: i32) -> (r: Option<RowView<'a, 'b>>)
        requires
            self.wf(),
        ensures
            ({
                let b = bucket_index_spec(key, self.table.buckets@.len() as int);
                match r {
                    None => first_key_match(self.table.buckets@[b].rows@, key) is None,
                    Some(rv) => first_key_match(self.table.buckets@[b].rows@, key) == Some(
                        rv.row as int,
                    ) && rv.table == self && rv.bucket as int == b && rv.wf() && row_has_key(
                        rv.phys_row(),
                        key,
                    ),
                }
            }),
    {
        let hash = key_hash(key);
        let b: usize = (hash as usize) % self.table.buckets.len();
        proof {
            assert(b as int == bucket_index_spec(key, self.table.buckets@.len() as int));
        }
        let bucket_rows = &self.table.buckets[b].rows;
        let mut j: usize = 0;
        while j < bucket_rows.len()
            invariant
                self.wf(),
                b < self.table.buckets@.len(),
                bucket_rows@ == self.table.buckets@[b as int].rows@,
                b as int == bucket_index_spec(key, self.table.buckets@.len() as int),
                j <= bucket_rows@.len(),
                forall|x: int| 0 <= x < j ==> !row_has_key(bucket_rows@[x], key),
            decreases bucket_rows@.len() - j,
        {
            if bucket_rows[j].has_key(key) {
                proof {
                    lemma_first_key_match(bucket_rows@, key);
                }
                return Some(RowView { table: self, bucket: b, row: j });
            }
            j = j + 1;
        }
        proof {
            lemma_first_key_match(bucket_rows@, key);
        }
        None
    }

    /// Point lookup through a separate unique-id column: hash by
    /// `index_key`, then take the first row of that bucket whose field at
    /// physical index `id_col` reads as the integer `key`.
    pub fn get<'b>(&'b self, index_key: i32, key: i32, id_col: usize) -> (r: Option<
        RowView<'a, 'b>,
    >)
        requires
            self.wf(),
        ensures
            ({
                let b = bucket_index_spec(index_key, self.table.buckets@.len() as int);
                match r {
                    None => first_id_match(self.table.buckets@[b].rows@, key, id_col as int)
                        is None,
                    Some(rv) => first_id_match(self.table.buckets@[b].rows@, key, id_col as int)
                        == Some(rv.row as int) && rv.table == self && rv.bucket as int == b
                        && rv.wf() && field_as_integer(rv.phys_row(), id_col as int) == Some(key),
                }
            }),
    {
        let hash = key_hash(index_key);
        let b: usize = (hash as usize) % self.table.buckets.len();
        proof {
            assert(b as int == bucket_index_spec(index_key, self.table.buckets@.len() as int));
        }
        let bucket_rows = &self.table.buckets[b].rows;
        let mut j: usize = 0;
        while j < bucket_rows.len()
            invariant
                self.wf(),
                b < self.table.buckets@.len(),
                bucket_rows@ == self.table.buckets@[b as int].rows@,
                b as int == bucket_index_spec(index_key, self.table.buckets@.len() as int),
                j <= bucket_rows@.len(),
                forall|x: int| 0 <= x < j ==> field_as_integer(bucket_rows@[x], id_col as int)
                    != Some(key),
            decreases bucket_rows@.len() - j,
        {
            let hit = match bucket_rows[j].field_at(id_col) {
                Some(f) => match f {
                    FieldValue::Integer32(k) => *k == key,
                    _ => false,
                },
                None => false,
            };
            if hit {
                proof {
                    lemma_first_id_match(bucket_rows@, key, id_col as int);
                }
                return Some(RowView { table: self, bucket: b, row: j });
            }
            j = j + 1;
        }
        proof {
            lemma_first_id_match(bucket_rows@, key, id_col as int);
        }
        None
    }
}

/// `first_key_match` yields the least matching position, or nothing when no
/// row of the bucket holds the key.
pub proof fn lemma_first_key_match(rows: Seq<PhysRow>, key: i32)
    ensures
        match first_key_match(rows, key) {
            Some(i) => 0 <= i < rows.len() && row_has_key(rows[i], key) && (forall|j: int|
                0 <= j < i ==> !row_has_key(rows[j], key)),
            None => forall|j: int| 0 <= j < rows.len() ==> !row_has_key(rows[j], key),
        },
    decreases rows.len(),
{
    if rows.len() > 0 && !row_has_key(rows[0], key) {
        let rest = rows.drop_first();
        lemma_first_key_match(rest, key);
        assert(forall|j: int| 0 <= j < rest.len() ==> rest[j] == rows[j + 1]);
        match first_key_match(rest, key) {
            None => {
                assert forall|j: int| 0 <= j < rows.len() implies !row_has_key(rows[j], key) by {
                    if j > 0 {
                        assert(!row_has_key(rest[j - 1], key));
                    }
                }
            },
            Some(i) => {
                assert(rows[i + 1] == rest[i]);
                assert forall|j: int| 0 <= j < i + 1 implies !row_has_key(rows[j], key) by {
                    if j > 0 {
                        assert(!row_has_key(rest[j - 1], key));
                    }
                }
            },
        }
    }
}

/// `first_id_match` yields the least matching position, or nothing when no
/// row of the bucket reads the key at the id column.
pub proof fn lemma_first_id_match(rows: Seq<PhysRow>, key: i32, id_col: int)
    ensures
        match first_id_match(rows, key, id_col) {
            Some(i) => 0 <= i < rows.len() && field_as_integer(rows[i], id_col) == Some(key) && (
            forall|j: int| 0 <= j < i ==> field_as_integer(rows[j], id_col) != Some(key)),
            None => forall|j: int| 0 <= j < rows.len() ==> field_as_integer(rows[j], id_col)
                != Some(key),
        },
    decreases rows.len(),
{
    if rows.len() > 0 && field_as_integer(rows[0], id_col) != Some(key) {
        let rest = rows.drop_first();
        lemma_first_id_match(rest, key, id_col);
        assert(forall|j: int| 0 <= j < rest.len() ==> rest[j] == rows[j + 1]);
        match first_id_match(rest, key, id_col) {
            None => {
                assert forall|j: int| 0 <= j < rows.len() implies field_as_integer(rows[j], id_col)
                    != Some(key) by {
                    if j > 0 {
                        assert(field_as_integer(rest[j - 1], id_col) != Some(key));
                    }
                }
            },
            Some(i) => {
                assert(rows[i + 1] == rest[i]);
                assert forall|j: int| 0 <= j < i + 1 implies field_as_integer(rows[j], id_col)
                    != Some(key) by {
                    if j > 0 {
                        assert(field_as_integer(rest[j - 1], id_col) != Some(key));
                    }
                }
            },
        }
    }
}


/// Resolver tolerance, in general: a well-formed view maps each declared
/// column to the position of the first equally-named physical column —
/// whatever order the physical columns come in and whatever unknown
/// columns stand among them — and to nothing exactly when no physical
/// column carries the declared name.
pub proof fn lemma_resolver_tolerance(v: TableView, c: int)
    requires
        v.wf(),
        0 <= c < v.binding.columns@.len(),
    ensures
        match col_resolution(v, c) {
            Some(i) => 0 <= i < v.table.columns@.len() && v.table.columns@[i].name@
                == v.binding.columns@[c].decl.name@ && (forall|x: int|
                0 <= x < i ==> (#[trigger] v.table.columns@[x]).name@
                    != v.binding.columns@[c].decl.name@),
            None => forall|x: int| 0 <= x < v.table.columns@.len()
                ==> (#[trigger] v.table.columns@[x]).name@ != v.binding.columns@[c].decl.name@,
        },
{
    let names = phys_column_names(v.table.columns@);
    let name = v.binding.columns@[c].decl.name@;
    lemma_first_name_match(names, name);
    assert(forall|x: int| 0 <= x < v.table.columns@.len() ==> names[x]
        == (#[trigger] v.table.columns@[x]).name@);
}

/// The `(bucket, row)` positions of a sequence of row views.
pub open spec fn row_positions<'a, 'b>(s: Seq<RowView<'a, 'b>>) -> Seq<(int, int)> {
    s.map_values(|rv: RowView<'a, 'b>| (rv.bucket as int, rv.row as int))
}

/// The in-bucket positions of a sequence of row views.
pub open spec fn row_indices<'a, 'b>(s: Seq<RowView<'a, 'b>>) -> Seq<int> {
    s.map_values(|rv: RowView<'a, 'b>| rv.row as int)
}

proof fn lemma_row_positions_push<'a, 'b>(s: Seq<RowView<'a, 'b>>, rv: RowView<'a, 'b>)
    ensures
        row_positions(s.push(rv)) =~= row_positions(s).push((rv.bucket as int, rv.row as int)),
{
}

proof fn lemma_row_indices_push<'a, 'b>(s: Seq<RowView<'a, 'b>>, rv: RowView<'a, 'b>)
    ensures
        row_indices(s.push(rv)) =~= row_indices(s).push(rv.row as int),
{
}

impl<'a> TableView<'a> {
    /// Every row of the table, in table order.
    pub fn rows<'b>(&'b self) -> (r: Vec<RowView<'a, 'b>>)
        requires
            self.wf(),
        ensures
            row_positions(r@) == scan_pairs(self.table.buckets@),
            forall|k: int| 0 <= k < r@.len() ==> (#[trigger] r@[k]).table == self && r@[k].wf(),
    {
        let mut out: Vec<RowView<'a, 'b>> = Vec::new();
        let mut b: usize = 0;
        while b < self.table.buckets.len()
            invariant
                self.wf(),
                b <= self.table.buckets@.len(),
                row_positions(out@) == scan_pairs(self.table.buckets@.take(b as int)),
                forall|k: int| 0 <= k < out@.len() ==> (#[trigger] out@[k]).table == self
                    && out@[k].wf(),
            decreases self.table.buckets@.len() - b,
        {
            let mut j: usize = 0;
            while j < self.table.buckets[b].rows.len()
                invariant
                    self.wf(),
                    b < self.table.buckets@.len(),
                    j <= self.table.buckets@[b as int].rows@.len(),
                    row_positions(out@) == scan_pairs(self.table.buckets@.take(b as int))
                        + Seq::new(j as nat, |x: int| (b as int, x)),
                    forall|k: int| 0 <= k < out@.len() ==> (#[trigger] out@[k]).table == self
                        && out@[k].wf(),
                decreases self.table.buckets@[b as int].rows@.len() - j,
            {
                let rv = RowView { table: self, bucket: b, row: j };
                proof {
                    lemma_row_positions_push(out@, rv);
                }
                out.push(rv);
                j = j + 1;
                proof {
                    assert(row_positions(out@) =~= scan_pairs(self.table.buckets@.take(b as int))
                        + Seq::new(j as nat, |x: int| (b as int, x)));
                }
            }
            b = b + 1;
            proof {
                let bs = self.table.buckets@;
                assert(bs.take(b as int).drop_last() =~= bs.take(b as int - 1));
                assert(bs.take(b as int).last() == bs[b as int - 1]);
                assert(row_positions(out@) =~= scan_pairs(bs.take(b as int)));
            }
        }
        proof {
            assert(self.table.buckets@.take(self.table.buckets@.len() as int)
                =~= self.table.buckets@);
        }
        out
    }

    /// Every row of the bucket the key hashes to whose first field holds
    /// exactly `key`, in stored order.
    ///
    /// The hash selects a bucket — a locality hint only — and an exact
    /// equality filter on the first field then decides membership, so rows
    /// that merely collide in the bucket are not returned.
    pub fn key_lookup<'b>(&'b self, key: i32) -> (r: Vec<RowView<'a, 'b>>)
        requires
            self.wf(),
        ensures
            row_indices(r@) == matching_indices(
                self.table.buckets@[bucket_index_spec(key, self.table.buckets@.len() as int)].rows@,
                key,
            ),
            forall|k: int|
                0 <= k < r@.len() ==> {
                    &&& (#[trigger] r@[k]).table == self
                    &&& r@[k].bucket as int == bucket_index_spec(
                        key,
                        self.table.buckets@.len() as int,
                    )
                    &&& r@[k].wf()
                    &&& row_has_key(r@[k].phys_row(), key)
                },
    {
        let hash = key_hash(key);
        let b: usize = (hash as usize) % self.table.buckets.len();
        proof {
            assert(b as int == bucket_index_spec(key, self.table.buckets@.len() as int));
        }
        let bucket_rows = &self.table.buckets[b].rows;
        let mut out: Vec<RowView<'a, 'b>> = Vec::new();
        let mut j: usize = 0;
        while j < bucket_rows.len()
            invariant
                self.wf(),
                b < self.table.buckets@.len(),
                bucket_rows@ == self.table.buckets@[b as int].rows@,
                b as int == bucket_index_spec(key, self.table.buckets@.len() as int),
                j <= bucket_rows@.len(),
                row_indices(out@) == matching_indices(bucket_rows@.take(j as int), key),
                forall|k: int|
                    0 <= k < out@.len() ==> {
                        &&& (#[trigger] out@[k]).table == self
                        &&& out@[k].bucket == b
                        &&& out@[k].wf()
                        &&& row_has_key(out@[k].phys_row(), key)
                    },
            decreases bucket_rows@.len() - j,
        {
            if bucket_rows[j].has_key(key) {
                let rv = RowView { table: self, bucket: b, row: j };
                proof {
                    lemma_row_indices_push(out@, rv);
                }
                out.push(rv);
            }
            j = j + 1;
            proof {
                assert(bucket_rows@.take(j as int).drop_last() =~= bucket_rows@.take(j as int - 1));
                assert(bucket_rows@.take(j as int).last() == bucket_rows@[j as int - 1]);
                assert(row_indices(out@) =~= matching_indices(bucket_rows@.take(j as int), key));
            }
        }
        proof {
            assert(bucket_rows@.take(bucket_rows@.len() as int) =~= bucket_rows@);
        }
        out
    }
}

} // verus!
