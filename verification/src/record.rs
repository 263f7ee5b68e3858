//! Row serialization: one structured record per row, in declared order.
//!
//! A [`Record`] is the serialized form of one row: an ordered field list
//! whose names are the declared logical column names, in declared column
//! order, with values produced by the lenient extraction policy, plus the
//! diagnostics that policy emitted. The physical column order of the
//! underlying table never influences the output order.

use vstd::prelude::*;

use crate::binding::ColumnId;
use crate::bytes::clone_bytes;
use crate::extract::{
    diag_matches, lenient_diag_cause, lenient_value_ok, Diagnostic, RecordValue,
};
use crate::store::PhysRow;
use crate::view::{RowView, TableView};

verus! {

/// One serialized field: declared name and extracted value.
#[derive(Clone, Debug)]
pub struct RecordField {
    /// The declared logical column name.
    pub name: Vec<u8>,
    /// The extracted value.
    pub value: RecordValue,
}

/// The serialized form of one row.
#[derive(Clone, Debug)]
pub struct Record {
    /// One field per declared column, in declared order.
    pub fields: Vec<RecordField>,
    /// The diagnostics the lenient policy emitted, in declared column
    /// order.
    pub diagnostics: Vec<Diagnostic>,
}

/// The names of a record's fields, in order.
pub open spec fn record_names(fields: Seq<RecordField>) -> Seq<Seq<u8>> {
    fields.map_values(|f: RecordField| f.name@)
}

/// The declared column names of a view, in declared order.
pub open spec fn declared_names(v: TableView) -> Seq<Seq<u8>> {
    v.binding.columns@.map_values(|b: crate::binding::BoundColumn| b.decl.name@)
}

/// The declared columns, among the first `n`, for which the lenient policy
/// emits a diagnostic, in declared order.
pub open spec fn diag_columns(v: TableView, row: PhysRow, n: int) -> Seq<int>
    decreases n,
{
    if n <= 0 {
        Seq::empty()
    } else {
        let prefix = diag_columns(v, row, n - 1);
        if lenient_diag_cause(v, row, n - 1) is Some {
            prefix.push(n - 1)
        } else {
            prefix
        }
    }
}

/// Diagnostic `d` is the one the lenient policy emits for column `c`.
pub open spec fn diag_entry_ok(v: TableView, row: PhysRow, c: int, d: Diagnostic) -> bool {
    lenient_diag_cause(v, row, c) matches Some(cause) && diag_matches(v, row, c, cause, d)
}

/// `diags` is exactly the diagnostic list the lenient policy emits over the
/// first `n` declared columns, in declared order.
pub open spec fn diags_ok(v: TableView, row: PhysRow, diags: Seq<Diagnostic>, n: int) -> bool {
    let dc = diag_columns(v, row, n);
    &&& diags.len() == dc.len()
    &&& forall|k: int| 0 <= k < diags.len() ==> diag_entry_ok(v, row, dc[k], #[trigger] diags[k])
}

proof fn lemma_diags_ok_push(v: TableView, row: PhysRow, diags: Seq<Diagnostic>, n: int, d: Diagnostic)
    requires
        n >= 0,
        diags_ok(v, row, diags, n),
        lenient_diag_cause(v, row, n) is Some,
        diag_entry_ok(v, row, n, d),
    ensures
        diags_ok(v, row, diags.push(d), n + 1),
{
    let dc_old = diag_columns(v, row, n);
    let dc_new = diag_columns(v, row, n + 1);
    assert(dc_new == dc_old.push(n));
    assert forall|k: int| 0 <= k < diags.push(d).len() implies diag_entry_ok(
        v,
        row,
        dc_new[k],
        #[trigger] diags.push(d)[k],
    ) by {
        if k < diags.len() {
            assert(dc_new[k] == dc_old[k]);
            assert(diags.push(d)[k] == diags[k]);
            assert(diag_entry_ok(v, row, dc_old[k], diags[k]));
        } else {
            assert(dc_new[k] == n);
            assert(diags.push(d)[k] == d);
        }
    }
}

proof fn lemma_diags_ok_skip(v: TableView, row: PhysRow, diags: Seq<Diagnostic>, n: int)
    requires
        n >= 0,
        diags_ok(v, row, diags, n),
        lenient_diag_cause(v, row, n) is None,
    ensures
        diags_ok(v, row, diags, n + 1),
{
    assert(diag_columns(v, row, n + 1) == diag_columns(v, row, n));
}

/// `rec` is the serialization of `row` under view `v`: one field per
/// declared column, in declared order, named by the declared name, valued by
/// the lenient policy, and exactly the diagnostics that policy emits.
pub open spec fn serializes(v: TableView, row: PhysRow, rec: Record) -> bool {
    &&& rec.fields@.len() == v.binding.columns@.len()
    &&& forall|c: int|
        0 <= c < rec.fields@.len() ==> (#[trigger] rec.fields@[c]).name@ == declared_names(v)[c]
            && lenient_value_ok(v, row, c, rec.fields@[c].value)
    &&& diags_ok(v, row, rec.diagnostics@, v.binding.columns@.len() as int)
}

impl<'a, 'b> RowView<'a, 'b> {
    /// Serialize this row: fields in declared column order under the
    /// lenient extraction policy. Never a hard failure; everything degraded
    /// is reported in the record's diagnostics.
    pub fn to_record(&self) -> (r: Record)
        requires
            self.wf(),
        ensures
            serializes(*self.table, self.phys_row(), r),
    {
        let n = self.table.binding.columns.len();
        let mut fields: Vec<RecordField> = Vec::new();
        let mut diagnostics: Vec<Diagnostic> = Vec::new();
        let mut c: usize = 0;
        while c < n
            invariant
                self.wf(),
                n == self.table.binding.columns@.len(),
                c <= n,
                fields@.len() == c as int,
                forall|a: int| 0 <= a < c ==> (#[trigger] fields@[a]).name@ == declared_names(
                    *self.table,
                )[a] && lenient_value_ok(*self.table, self.phys_row(), a, fields@[a].value),
                diags_ok(*self.table, self.phys_row(), diagnostics@, c as int),
            decreases n - c,
        {
            let (value, diag) = self.read_lenient(ColumnId { index: c });
            let name = clone_bytes(&self.table.binding.columns[c].decl.name);
            fields.push(RecordField { name, value });
            let ghost pre = diagnostics@;
            match diag {
                Some(d) => {
                    diagnostics.push(d);
                },
                None => {
                },
            }
            proof {
                let tv = *self.table;
                let pr = self.phys_row();
                let ci = c as int;
                match lenient_diag_cause(tv, pr, ci) {
                    Some(cause) => {
                        lemma_diags_ok_push(tv, pr, pre, ci, diag->Some_0);
                        assert(diagnostics@ == pre.push(diag->Some_0));
                    },
                    None => {
                        lemma_diags_ok_skip(tv, pr, pre, ci);
                    },
                }
            }
            c = c + 1;
        }
        Record { fields, diagnostics }
    }
}

/// Order preservation: a serialized record's field names are exactly the
/// declared column names, in declared order — whatever the physical column
/// order of the underlying table was.
pub proof fn lemma_order_preservation(v: TableView, row: PhysRow, rec: Record)
    requires
        serializes(v, row, rec),
    ensures
        record_names(rec.fields@) =~= declared_names(v),
{
}

/// Unknown physical columns are invisible in serialized output: a
/// record's field names are exactly the declared names, so a name no
/// declared column carries — an extra vendor column, say — never appears
/// in any serialized row.
pub proof fn lemma_unknown_column_invisible(v: TableView, row: PhysRow, rec: Record, n: Seq<u8>)
    requires
        serializes(v, row, rec),
        forall|c: int| 0 <= c < v.binding.columns@.len()
            ==> (#[trigger] v.binding.columns@[c]).decl.name@ != n,
    ensures
        forall|k: int| 0 <= k < rec.fields@.len() ==> (#[trigger] rec.fields@[k]).name@ != n,
{
    assert forall|k: int| 0 <= k < rec.fields@.len() implies (#[trigger] rec.fields@[k]).name@
        != n by {
        assert(rec.fields@[k].name@ == declared_names(v)[k]);
        assert(declared_names(v)[k] == v.binding.columns@[k].decl.name@);
    }
}

} // verus!
