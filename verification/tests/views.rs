use paradox_typed_db::binding::{compile_table, ColumnId, TableBinding};
use paradox_typed_db::extract::{DiagnosticCause, RecordValue, TypedValue};
use paradox_typed_db::schema::{ColumnSpec, TableSpec, ValueKind};
use paradox_typed_db::store::{FieldValue, PhysBucket, PhysColumn, PhysRow, PhysTable};
use paradox_typed_db::view::{StructureError, TableView};

fn col(name: &str, kind: ValueKind, nullable: bool) -> ColumnSpec {
    ColumnSpec::new(name.as_bytes().to_vec(), kind, nullable)
}

fn phys_cols(names: &[&str]) -> Vec<PhysColumn> {
    names
        .iter()
        .map(|n| PhysColumn { name: n.as_bytes().to_vec() })
        .collect()
}

fn row(fields: Vec<FieldValue>) -> PhysRow {
    PhysRow { fields }
}

fn one_bucket(rows: Vec<PhysRow>) -> Vec<PhysBucket> {
    vec![PhysBucket { rows }]
}

fn missions_binding() -> (TableSpec, TableBinding) {
    let ts = TableSpec::new(
        b"Missions".to_vec(),
        vec![
            col("id", ValueKind::Integer32, false),
            col("missionIconID", ValueKind::Integer32, true),
        ],
    );
    let b = compile_table(&ts).expect("compiles");
    (ts, b)
}

#[test]
fn structure_errors_are_distinct() {
    let (_, b) = missions_binding();
    let no_cols = PhysTable { columns: Vec::new(), buckets: one_bucket(Vec::new()) };
    match TableView::new(b, &no_cols) {
        Err(StructureError::NoColumns) => {}
        _ => panic!("expected a no-columns structure error"),
    }
    let (_, b) = missions_binding();
    let no_buckets = PhysTable { columns: phys_cols(&["id"]), buckets: Vec::new() };
    match TableView::new(b, &no_buckets) {
        Err(StructureError::NoBuckets) => {}
        _ => panic!("expected a no-buckets structure error"),
    }
}

#[test]
fn resolver_tolerates_reordered_and_extra_columns() {
    // Declared columns in reverse physical order, plus one extra physical
    // column the schema does not know.
    let (_, b) = missions_binding();
    let table = PhysTable {
        columns: phys_cols(&["missionIconID", "vendorExtra", "id"]),
        buckets: one_bucket(vec![row(vec![
            FieldValue::Integer32(9),
            FieldValue::Text(b"junk".to_vec()),
            FieldValue::Integer32(1),
        ])]),
    };
    let v = TableView::new(b, &table).expect("wraps");
    assert_eq!(v.get_col(ColumnId { index: 0 }), Some(2)); // id
    assert_eq!(v.get_col(ColumnId { index: 1 }), Some(0)); // missionIconID
    assert!(v.has_col(ColumnId { index: 0 }));
    // The extra column never appears in serialized output.
    let rows = v.rows();
    assert_eq!(rows.len(), 1);
    let rec = rows[0].to_record();
    assert_eq!(rec.fields.len(), 2);
    assert_eq!(rec.fields[0].name, b"id".to_vec());
    assert_eq!(rec.fields[1].name, b"missionIconID".to_vec());
    assert!(rec.fields.iter().all(|f| f.name != b"vendorExtra".to_vec()));
    assert_eq!(rec.diagnostics.len(), 0);
}

#[test]
fn resolver_first_physical_duplicate_wins() {
    let (_, b) = missions_binding();
    let table = PhysTable {
        columns: phys_cols(&["id", "missionIconID", "id"]),
        buckets: one_bucket(Vec::new()),
    };
    let v = TableView::new(b, &table).expect("wraps");
    assert_eq!(v.get_col(ColumnId { index: 0 }), Some(0));
}

#[test]
fn unresolved_declared_column_is_not_a_construction_error() {
    let (_, b) = missions_binding();
    let table = PhysTable { columns: phys_cols(&["id"]), buckets: one_bucket(Vec::new()) };
    let v = TableView::new(b, &table).expect("wraps");
    assert_eq!(v.get_col(ColumnId { index: 1 }), None);
    assert!(!v.has_col(ColumnId { index: 1 }));
}

#[test]
fn nullability_default_substitutes_zero_with_one_diagnostic() {
    // A non-nullable Integer32 column whose physical field is null.
    let ts = TableSpec::new(
        b"Missions".to_vec(),
        vec![col("id", ValueKind::Integer32, false)],
    );
    let b = compile_table(&ts).expect("compiles");
    let table = PhysTable {
        columns: phys_cols(&["id"]),
        buckets: one_bucket(vec![row(vec![FieldValue::Nothing])]),
    };
    let v = TableView::new(b, &table).expect("wraps");
    let rows = v.rows();
    let (value, diag) = rows[0].read_required(ColumnId { index: 0 });
    assert_eq!(value.expect("no fatal error"), TypedValue::Integer32(0));
    let d = diag.expect("exactly one diagnostic");
    assert_eq!(d.cause, DiagnosticCause::NullSubstituted);
    assert_eq!(d.table, b"Missions".to_vec());
    assert_eq!(d.column, b"id".to_vec());
    assert_eq!(d.primary_key, None);
    // Serialization degrades identically and reports exactly one diagnostic.
    let rec = rows[0].to_record();
    assert_eq!(rec.fields[0].value, RecordValue::Value(TypedValue::Integer32(0)));
    assert_eq!(rec.diagnostics.len(), 1);
    assert_eq!(rec.diagnostics[0].cause, DiagnosticCause::NullSubstituted);
}

#[test]
fn required_unresolved_fails_at_read_not_at_construction() {
    let (_, b) = missions_binding();
    let table = PhysTable {
        columns: phys_cols(&["missionIconID"]),
        buckets: one_bucket(vec![row(vec![FieldValue::Integer32(5)])]),
    };
    let v = TableView::new(b, &table).expect("construction succeeds");
    let rows = v.rows();
    let (value, diag) = rows[0].read_required(ColumnId { index: 0 });
    let e = value.expect_err("missing required column");
    assert_eq!(e.table, b"Missions".to_vec());
    assert_eq!(e.column, b"id".to_vec());
    assert!(diag.is_none());
}

#[test]
fn nullable_reads_follow_the_policy() {
    let (_, b) = missions_binding();
    let table = PhysTable {
        columns: phys_cols(&["id", "missionIconID"]),
        buckets: one_bucket(vec![
            row(vec![FieldValue::Integer32(1), FieldValue::Integer32(5)]),
            row(vec![FieldValue::Integer32(2), FieldValue::Nothing]),
            row(vec![FieldValue::Integer32(3), FieldValue::Text(b"x".to_vec())]),
            row(vec![FieldValue::Integer32(4)]),
        ]),
    };
    let v = TableView::new(b, &table).expect("wraps");
    let rows = v.rows();
    let c = ColumnId { index: 1 };
    // Present and well-typed.
    let (r0, d0) = rows[0].read_nullable(c);
    assert_eq!(r0, Some(TypedValue::Integer32(5)));
    assert!(d0.is_none());
    // Null.
    let (r1, d1) = rows[1].read_nullable(c);
    assert_eq!(r1, None);
    assert!(d1.is_none());
    // Ill-typed behaves like null.
    let (r2, d2) = rows[2].read_nullable(c);
    assert_eq!(r2, None);
    assert!(d2.is_none());
    // Absent (short row) behaves like null.
    let (r3, d3) = rows[3].read_nullable(c);
    assert_eq!(r3, None);
    assert!(d3.is_none());
}

#[test]
fn nullable_unresolved_yields_no_value_and_a_diagnostic() {
    let (_, b) = missions_binding();
    let table = PhysTable {
        columns: phys_cols(&["id"]),
        buckets: one_bucket(vec![row(vec![FieldValue::Integer32(7)])]),
    };
    let v = TableView::new(b, &table).expect("wraps");
    let rows = v.rows();
    let (r, d) = rows[0].read_nullable(ColumnId { index: 1 });
    assert_eq!(r, None);
    let d = d.expect("diagnostic");
    assert_eq!(d.cause, DiagnosticCause::UnresolvedNullable);
    assert_eq!(d.primary_key, Some(7));
}

#[test]
fn every_kind_converts_and_defaults() {
    let ts = TableSpec::new(
        b"Kinds".to_vec(),
        vec![
            col("n", ValueKind::Nothing, false),
            col("i", ValueKind::Integer32, false),
            col("f", ValueKind::Float32, false),
            col("t", ValueKind::Text, false),
            col("b", ValueKind::Boolean, false),
            col("g", ValueKind::Integer64, false),
            col("v", ValueKind::VarText, false),
        ],
    );
    let b = compile_table(&ts).expect("compiles");
    let bits = 1078530011u32; // an IEEE 754 single-precision bit pattern
    let table = PhysTable {
        columns: phys_cols(&["n", "i", "f", "t", "b", "g", "v"]),
        buckets: one_bucket(vec![
            row(vec![
                FieldValue::Nothing,
                FieldValue::Integer32(-3),
                FieldValue::Float32(bits),
                FieldValue::Text(b"abc".to_vec()),
                FieldValue::Boolean(true),
                FieldValue::Integer64(1 << 40),
                FieldValue::VarText(b"xml".to_vec()),
            ]),
            row(vec![
                FieldValue::Nothing,
                FieldValue::Nothing,
                FieldValue::Nothing,
                FieldValue::Nothing,
                FieldValue::Nothing,
                FieldValue::Nothing,
                FieldValue::Nothing,
            ]),
        ]),
    };
    let v = TableView::new(b, &table).expect("wraps");
    let rows = v.rows();
    let expect_ok = [
        TypedValue::Unit,
        TypedValue::Integer32(-3),
        TypedValue::Float32(bits),
        TypedValue::Text(b"abc".to_vec()),
        TypedValue::Boolean(true),
        TypedValue::Integer64(1 << 40),
        TypedValue::Text(b"xml".to_vec()),
    ];
    for (k, want) in expect_ok.iter().enumerate() {
        let (got, diag) = rows[0].read_required(ColumnId { index: k });
        assert_eq!(&got.expect("value"), want);
        assert!(diag.is_none());
    }
    let expect_default = [
        TypedValue::Unit,
        TypedValue::Integer32(0),
        TypedValue::Float32(0),
        TypedValue::Text(Vec::new()),
        TypedValue::Boolean(false),
        TypedValue::Integer64(0),
        TypedValue::Text(Vec::new()),
    ];
    for (k, want) in expect_default.iter().enumerate() {
        let (got, diag) = rows[1].read_required(ColumnId { index: k });
        assert_eq!(&got.expect("degraded value"), want);
        if k == 0 {
            // A Nothing column converts from any field, the null one included.
            assert!(diag.is_none());
        } else {
            assert_eq!(diag.expect("diagnostic").cause, DiagnosticCause::NullSubstituted);
        }
    }
}

#[test]
fn lookup_finds_exactly_the_matching_rows() {
    // Three rows with unique keys spread over seven buckets.
    let (_, b) = missions_binding();
    let bucket_count = 7usize;
    let mut buckets: Vec<PhysBucket> = (0..bucket_count)
        .map(|_| PhysBucket { rows: Vec::new() })
        .collect();
    for (key, icon) in [(1, 5), (2, -1), (7, 9)] {
        let bucket = (key as u32 as usize) % bucket_count;
        buckets[bucket].rows.push(row(vec![
            FieldValue::Integer32(key),
            FieldValue::Integer32(icon),
        ]));
    }
    let table = PhysTable { columns: phys_cols(&["id", "missionIconID"]), buckets };
    let v = TableView::new(b, &table).expect("wraps");
    // Every present key finds exactly one row, with that key.
    for key in [1, 2, 7] {
        let hits = v.key_lookup(key);
        assert_eq!(hits.len(), 1);
        assert_eq!(hits[0].phys().key(), Some(key));
    }
    // Absent keys find nothing.
    for key in [0, 3, 14, -1] {
        assert_eq!(v.key_lookup(key).len(), 0);
    }
    // The full scan sees all three rows.
    assert_eq!(v.rows().len(), 3);
}

#[test]
fn bucket_collisions_are_filtered_by_exact_key() {
    // Keys 1 and 8 share bucket 1 of 7.
    let (_, b) = missions_binding();
    let mut buckets: Vec<PhysBucket> = (0..7).map(|_| PhysBucket { rows: Vec::new() }).collect();
    buckets[1].rows.push(row(vec![FieldValue::Integer32(1), FieldValue::Integer32(10)]));
    buckets[1].rows.push(row(vec![FieldValue::Integer32(8), FieldValue::Integer32(80)]));
    let table = PhysTable { columns: phys_cols(&["id", "missionIconID"]), buckets };
    let v = TableView::new(b, &table).expect("wraps");
    // Both are discoverable by full scan.
    assert_eq!(v.rows().len(), 2);
    // Lookup returns only the row with the exactly matching key.
    let one = v.key_lookup(1);
    assert_eq!(one.len(), 1);
    assert_eq!(one[0].phys().key(), Some(1));
    let eight = v.key_lookup(8);
    assert_eq!(eight.len(), 1);
    assert_eq!(eight[0].phys().key(), Some(8));
}

#[test]
fn duplicate_keys_are_all_returned_in_order() {
    // The protocol does not assume uniqueness: both matches come back.
    let (_, b) = missions_binding();
    let table = PhysTable {
        columns: phys_cols(&["id", "missionIconID"]),
        buckets: one_bucket(vec![
            row(vec![FieldValue::Integer32(4), FieldValue::Integer32(1)]),
            row(vec![FieldValue::Integer32(5), FieldValue::Integer32(2)]),
            row(vec![FieldValue::Integer32(4), FieldValue::Integer32(3)]),
        ]),
    };
    let v = TableView::new(b, &table).expect("wraps");
    let hits = v.key_lookup(4);
    assert_eq!(hits.len(), 2);
    assert_eq!(hits[0].row, 0);
    assert_eq!(hits[1].row, 2);
}

#[test]
fn negative_keys_hash_by_their_bit_pattern() {
    let (_, b) = missions_binding();
    // -1 as u32 is 4294967295; modulo 7 that is bucket 3.
    let mut buckets: Vec<PhysBucket> = (0..7).map(|_| PhysBucket { rows: Vec::new() }).collect();
    buckets[3].rows.push(row(vec![FieldValue::Integer32(-1), FieldValue::Integer32(1)]));
    let table = PhysTable { columns: phys_cols(&["id", "missionIconID"]), buckets };
    let v = TableView::new(b, &table).expect("wraps");
    let hits = v.key_lookup(-1);
    assert_eq!(hits.len(), 1);
    assert_eq!(hits[0].phys().key(), Some(-1));
}

#[test]
fn get_by_separate_id_column_scans_the_index_bucket() {
    let (_, b) = missions_binding();
    let table = PhysTable {
        columns: phys_cols(&["id", "missionIconID"]),
        buckets: one_bucket(vec![
            row(vec![FieldValue::Integer32(1), FieldValue::Integer32(100)]),
            row(vec![FieldValue::Integer32(1), FieldValue::Integer32(200)]),
        ]),
    };
    let v = TableView::new(b, &table).expect("wraps");
    let hit = v.get(1, 200, 1).expect("found");
    assert_eq!(hit.row, 1);
    assert!(v.get(1, 300, 1).is_none());
}
