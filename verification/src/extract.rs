//! Field extraction with the nullability/default policy.
//!
//! Given a resolved column and a raw field, extraction returns the value in
//! its declared logical kind:
//!
//! - a nullable column yields the value when the field is present and
//!   well-typed, and "no value" when the field is null, absent or the column
//!   never resolved (the last case also logs a diagnostic);
//! - a non-nullable column yields the bare value; when the field is null or
//!   absent it substitutes the kind's default and emits a diagnostic naming
//!   the table, the column and the row's primary key; when the column never
//!   resolved, the first such read fails with a missing-column error.
//!
//! An ill-typed field (the physical store holds a different kind than the
//! one declared) is treated exactly like a null field.

use vstd::prelude::*;

use crate::binding::ColumnId;
use crate::bytes::clone_bytes;
use crate::schema::ValueKind;
use crate::store::{row_key, FieldValue, PhysRow};
use crate::view::{col_resolution, RowView, TableView};

verus! {

/// A field value in its declared logical kind.
#[derive(Clone, Debug, PartialEq)]
pub enum TypedValue {
    /// The unit value of a `Nothing` column.
    Unit,
    /// A 32-bit signed integer.
    Integer32(i32),
    /// The bit pattern of a 32-bit IEEE 754 number.
    Float32(u32),
    /// Latin-1 text; `Text` and `VarText` columns both extract to this.
    Text(Vec<u8>),
    /// A boolean.
    Boolean(bool),
    /// A 64-bit signed integer.
    Integer64(i64),
}

/// Why a diagnostic was emitted.
#[derive(Clone, Copy, Debug, PartialEq, Eq, Structural)]
pub enum DiagnosticCause {
    /// A non-nullable column's field was null, absent or ill-typed; the
    /// kind's default was substituted.
    NullSubstituted,
    /// A nullable column never resolved to a physical column; the read
    /// yielded "no value".
    UnresolvedNullable,
    /// During serialization, a non-nullable column that never resolved was
    /// degraded to the kind's default instead of failing.
    UnresolvedRequired,
}

/// A non-fatal extraction diagnostic.
#[derive(Clone, Debug)]
pub struct Diagnostic {
    /// The logical name of the table.
    pub table: Vec<u8>,
    /// The logical name of the column.
    pub column: Vec<u8>,
    /// The primary key of the row read, if its first field holds one.
    pub primary_key: Option<i32>,
    /// Why the diagnostic was emitted.
    pub cause: DiagnosticCause,
}

/// A non-nullable column was read but never resolved to a physical column.
#[derive(Clone, Debug)]
pub struct MissingColumnError {
    /// The logical name of the table.
    pub table: Vec<u8>,
    /// The logical name of the missing column.
    pub column: Vec<u8>,
}

/// A present field can be converted to the declared kind.
pub open spec fn convertible(kind: ValueKind, f: FieldValue) -> bool {
    match kind {
        ValueKind::Nothing => true,
        ValueKind::Integer32 => f is Integer32,
        ValueKind::Float32 => f is Float32,
        ValueKind::Text => f is Text,
        ValueKind::Boolean => f is Boolean,
        ValueKind::Integer64 => f is Integer64,
        ValueKind::VarText => f is VarText,
    }
}

/// `v` is the conversion of the present field `f` to the declared kind.
pub open spec fn converts_to(kind: ValueKind, f: FieldValue, v: TypedValue) -> bool {
    match kind {
        ValueKind::Nothing => v == TypedValue::Unit,
        ValueKind::Integer32 => f matches FieldValue::Integer32(x) && v
            == TypedValue::Integer32(x),
        ValueKind::Float32 => f matches FieldValue::Float32(x) && v == TypedValue::Float32(x),
        ValueKind::Text => f matches FieldValue::Text(s) && v matches TypedValue::Text(t) && t@
            == s@,
        ValueKind::Boolean => f matches FieldValue::Boolean(x) && v == TypedValue::Boolean(x),
        ValueKind::Integer64 => f matches FieldValue::Integer64(x) && v
            == TypedValue::Integer64(x),
        ValueKind::VarText => f matches FieldValue::VarText(s) && v matches TypedValue::Text(t)
            && t@ == s@,
    }
}

/// `v` is the type-appropriate default of the declared kind: numeric zero,
/// `false`, empty text.
pub open spec fn is_default(kind: ValueKind, v: TypedValue) -> bool {
    match kind {
        ValueKind::Nothing => v == TypedValue::Unit,
        ValueKind::Integer32 => v == TypedValue::Integer32(0),
        ValueKind::Float32 => v == TypedValue::Float32(0),
        ValueKind::Text => v matches TypedValue::Text(t) && t@ == Seq::<u8>::empty(),
        ValueKind::Boolean => v == TypedValue::Boolean(false),
        ValueKind::Integer64 => v == TypedValue::Integer64(0),
        ValueKind::VarText => v matches TypedValue::Text(t) && t@ == Seq::<u8>::empty(),
    }
}

/// The field of a row at a resolved physical index: nothing when the column
/// is unresolved or the row is too short.
pub open spec fn field_of(row: PhysRow, idx: Option<int>) -> Option<FieldValue> {
    match idx {
        None => None,
        Some(i) => if 0 <= i < row.fields@.len() {
            Some(row.fields@[i])
        } else {
            None
        },
    }
}

/// The declared kind of column `c` of a view.
pub open spec fn decl_kind(v: TableView, c: int) -> ValueKind {
    v.binding.columns@[c].decl.kind
}

/// The declared name of column `c` of a view.
pub open spec fn decl_name(v: TableView, c: int) -> Seq<u8> {
    v.binding.columns@[c].decl.name@
}

/// The declared nullability of column `c` of a view.
pub open spec fn decl_nullable(v: TableView, c: int) -> bool {
    v.binding.columns@[c].decl.nullable
}

/// The diagnostic `d` cites table and column `c` of view `v`, the primary
/// key of `row`, and the given cause.
pub open spec fn diag_matches(
    v: TableView,
    row: PhysRow,
    c: int,
    cause: DiagnosticCause,
    d: Diagnostic,
) -> bool {
    &&& d.table@ == v.binding.table_name@
    &&& d.column@ == decl_name(v, c)
    &&& d.primary_key == row_key(row)
    &&& d.cause == cause
}

/// Convert a present field to the declared kind, if well-typed.
fn convert_field(kind: ValueKind, f: &FieldValue) -> (r: Option<TypedValue>)
    ensures
        r is Some <==> convertible(kind, *f),
        r matches Some(v) ==> converts_to(kind, *f, v),
{
    match kind {
        ValueKind::Nothing => Some(TypedValue::Unit),
        ValueKind::Integer32 => match f {
            FieldValue::Integer32(x) => Some(TypedValue::Integer32(*x)),
            _ => None,
        },
        ValueKind::Float32 => match f {
            FieldValue::Float32(x) => Some(TypedValue::Float32(*x)),
            _ => None,
        },
        ValueKind::Text => match f {
            FieldValue::Text(s) => Some(TypedValue::Text(clone_bytes(s))),
            _ => None,
        },
        ValueKind::Boolean => match f {
            FieldValue::Boolean(x) => Some(TypedValue::Boolean(*x)),
            _ => None,
        },
        ValueKind::Integer64 => match f {
            FieldValue::Integer64(x) => Some(TypedValue::Integer64(*x)),
            _ => None,
        },
        ValueKind::VarText => match f {
            FieldValue::VarText(s) => Some(TypedValue::Text(clone_bytes(s))),
            _ => None,
        },
    }
}

/// The type-appropriate default of a kind.
fn default_value(kind: ValueKind) -> (r: TypedValue)
    ensures
        is_default(kind, r),
{
    match kind {
        ValueKind::Nothing => TypedValue::Unit,
        ValueKind::Integer32 => TypedValue::Integer32(0),
        ValueKind::Float32 => TypedValue::Float32(0),
        ValueKind::Text => TypedValue::Text(Vec::new()),
        ValueKind::Boolean => TypedValue::Boolean(false),
        ValueKind::Integer64 => TypedValue::Integer64(0),
        ValueKind::VarText => TypedValue::Text(Vec::new()),
    }
}

/// A field value as it appears in a serialized record: either explicitly
/// null, or a typed value.
#[derive(Clone, Debug, PartialEq)]
pub enum RecordValue {
    /// No value: a nullable column whose field was null, absent, ill-typed
    /// or unresolved.
    Null,
    /// A typed value.
    Value(TypedValue),
}

/// The record value the lenient (serialization) policy yields for column `c`
/// of `v` on `row`.
///
/// It follows the extraction policy, except that a non-nullable column that
/// never resolved degrades to the kind's default instead of failing, so
/// serialization is total.
pub open spec fn lenient_value_ok(v: TableView, row: PhysRow, c: int, rv: RecordValue) -> bool {
    let kind = decl_kind(v, c);
    let nullable = decl_nullable(v, c);
    match col_resolution(v, c) {
        None => if nullable {
            rv is Null
        } else {
            rv matches RecordValue::Value(x) && is_default(kind, x)
        },
        Some(i) => match field_of(row, Some(i)) {
            Some(f) => if convertible(kind, f) {
                rv matches RecordValue::Value(x) && converts_to(kind, f, x)
            } else if nullable {
                rv is Null
            } else {
                rv matches RecordValue::Value(x) && is_default(kind, x)
            },
            None => if nullable {
                rv is Null
            } else {
                rv matches RecordValue::Value(x) && is_default(kind, x)
            },
        },
    }
}

/// The diagnostic, if any, the lenient policy emits for column `c` of `v`
/// on `row`.
pub open spec fn lenient_diag_cause(v: TableView, row: PhysRow, c: int) -> Option<
    DiagnosticCause,
> {
    let kind = decl_kind(v, c);
    let nullable = decl_nullable(v, c);
    match col_resolution(v, c) {
        None => if nullable {
            Some(DiagnosticCause::UnresolvedNullable)
        } else {
            Some(DiagnosticCause::UnresolvedRequired)
        },
        Some(i) => match field_of(row, Some(i)) {
            Some(f) => if convertible(kind, f) {
                None
            } else if nullable {
                None
            } else {
                Some(DiagnosticCause::NullSubstituted)
            },
            None => if nullable {
                None
            } else {
                Some(DiagnosticCause::NullSubstituted)
            },
        },
    }
}

impl<'a, 'b> RowView<'a, 'b> {
    /// Read one column under the lenient policy serialization uses: never a
    /// hard failure, a diagnostic wherever a value was degraded.
    pub fn read_lenient(&self, c: ColumnId) -> (r: (RecordValue, Option<Diagnostic>))
        requires
            self.wf(),
            c.index < self.table.binding.columns@.len(),
        ensures
            lenient_value_ok(*self.table, self.phys_row(), c.index as int, r.0),
            ({
                let cause = lenient_diag_cause(*self.table, self.phys_row(), c.index as int);
                match cause {
                    None => r.1 is None,
                    Some(cause) => r.1 matches Some(d) && diag_matches(
                        *self.table,
                        self.phys_row(),
                        c.index as int,
                        cause,
                        d,
                    ),
                }
            }),
    {
        let kind = self.table.binding.columns[c.index].decl.kind;
        let nullable = self.table.binding.columns[c.index].decl.nullable;
        match self.table.get_col(c) {
            None => {
                let cause = if nullable {
                    DiagnosticCause::UnresolvedNullable
                } else {
                    DiagnosticCause::UnresolvedRequired
                };
                let d = Diagnostic {
                    table: clone_bytes(&self.table.binding.table_name),
                    column: clone_bytes(&self.table.binding.columns[c.index].decl.name),
                    primary_key: self.phys().key(),
                    cause,
                };
                let value = if nullable {
                    RecordValue::Null
                } else {
                    RecordValue::Value(default_value(kind))
                };
                (value, Some(d))
            },
            Some(i) => {
                let converted = match self.phys().field_at(i) {
                    None => None,
                    Some(f) => convert_field(kind, f),
                };
                match converted {
                    Some(v) => (RecordValue::Value(v), None),
                    None => {
                        if nullable {
                            (RecordValue::Null, None)
                        } else {
                            let d = Diagnostic {
                                table: clone_bytes(&self.table.binding.table_name),
                                column: clone_bytes(&self.table.binding.columns[c.index].decl.name),
                                primary_key: self.phys().key(),
                                cause: DiagnosticCause::NullSubstituted,
                            };
                            (RecordValue::Value(default_value(kind)), Some(d))
                        }
                    },
                }
            },
        }
    }

    /// Read a nullable well-known column.
    ///
    /// Yields the converted value when the field is present and well-typed,
    /// and no value otherwise; an unresolved column additionally yields a
    /// diagnostic, since the schema promised a column the store never had.
    pub fn read_nullable(&self, c: ColumnId) -> (r: (Option<TypedValue>, Option<Diagnostic>))
        requires
            self.wf(),
            c.index < self.table.binding.columns@.len(),
        ensures
            ({
                let kind = decl_kind(*self.table, c.index as int);
                let res = col_resolution(*self.table, c.index as int);
                match res {
                    None => r.0 is None && (r.1 matches Some(d) && diag_matches(
                        *self.table,
                        self.phys_row(),
                        c.index as int,
                        DiagnosticCause::UnresolvedNullable,
                        d,
                    )),
                    Some(i) => r.1 is None && (match field_of(self.phys_row(), Some(i)) {
                        Some(f) => if convertible(kind, f) {
                            r.0 matches Some(v) && converts_to(kind, f, v)
                        } else {
                            r.0 is None
                        },
                        None => r.0 is None,
                    }),
                }
            }),
    {
        let kind = self.table.binding.columns[c.index].decl.kind;
        match self.table.get_col(c) {
            None => {
                let d = Diagnostic {
                    table: clone_bytes(&self.table.binding.table_name),
                    column: clone_bytes(&self.table.binding.columns[c.index].decl.name),
                    primary_key: self.phys().key(),
                    cause: DiagnosticCause::UnresolvedNullable,
                };
                (None, Some(d))
            },
            Some(i) => {
                match self.phys().field_at(i) {
                    None => (None, None),
                    Some(f) => (convert_field(kind, f), None),
                }
            },
        }
    }

    /// Read a non-nullable well-known column.
    ///
    /// Yields the bare value when the field is present and well-typed. A
    /// null, absent or ill-typed field degrades to the kind's default with a
    /// diagnostic citing table, column and the row's primary key. A column
    /// that never resolved fails with a missing-column error.
    pub fn read_required(&self, c: ColumnId) -> (r: (
        Result<TypedValue, MissingColumnError>,
        Option<Diagnostic>,
    ))
        requires
            self.wf(),
            c.index < self.table.binding.columns@.len(),
        ensures
            ({
                let kind = decl_kind(*self.table, c.index as int);
                let res = col_resolution(*self.table, c.index as int);
                match res {
                    None => r.1 is None && (r.0 matches Err(e) && e.table@
                        == self.table.binding.table_name@ && e.column@ == decl_name(
                        *self.table,
                        c.index as int,
                    )),
                    Some(i) => match field_of(self.phys_row(), Some(i)) {
                        Some(f) => if convertible(kind, f) {
                            r.1 is None && (r.0 matches Ok(v) && converts_to(kind, f, v))
                        } else {
                            (r.0 matches Ok(v) && is_default(kind, v)) && (r.1 matches Some(d)
                                && diag_matches(
                                *self.table,
                                self.phys_row(),
                                c.index as int,
                                DiagnosticCause::NullSubstituted,
                                d,
                            ))
                        },
                        None => (r.0 matches Ok(v) && is_default(kind, v)) && (r.1 matches Some(d)
                            && diag_matches(
                            *self.table,
                            self.phys_row(),
                            c.index as int,
                            DiagnosticCause::NullSubstituted,
                            d,
                        )),
                    },
                }
            }),
    {
        let kind = self.table.binding.columns[c.index].decl.kind;
        match self.table.get_col(c) {
            None => {
                let e = MissingColumnError {
                    table: clone_bytes(&self.table.binding.table_name),
                    column: clone_bytes(&self.table.binding.columns[c.index].decl.name),
                };
                (Err(e), None)
            },
            Some(i) => {
                let converted = match self.phys().field_at(i) {
                    None => None,
                    Some(f) => convert_field(kind, f),
                };
                match converted {
                    Some(v) => (Ok(v), None),
                    None => {
                        let d = Diagnostic {
                            table: clone_bytes(&self.table.binding.table_name),
                            column: clone_bytes(&self.table.binding.columns[c.index].decl.name),
                            primary_key: self.phys().key(),
                            cause: DiagnosticCause::NullSubstituted,
                        };
                        (Ok(default_value(kind)), Some(d))
                    },
                }
            },
        }
    }
}

} // verus!
