use paradox_typed_db::binding::{compile_table, ColumnId};
use paradox_typed_db::extract::{RecordValue, TypedValue};
use paradox_typed_db::schema::{ColumnSpec, TableSpec, ValueKind};
use paradox_typed_db::store::{FieldValue, PhysBucket, PhysColumn, PhysRow, PhysTable};
use paradox_typed_db::view::TableView;

#[test]
fn missions_end_to_end() {
    // A `Missions` table with `id: Integer32 (not null)` and
    // `missionIconID: Integer32 (nullable)`, holding the rows (1, 5),
    // (2, null) and (7, 9), bucketed by key over seven buckets.
    let spec = TableSpec::new(
        b"Missions".to_vec(),
        vec![
            ColumnSpec::new(b"id".to_vec(), ValueKind::Integer32, false),
            ColumnSpec::new(b"missionIconID".to_vec(), ValueKind::Integer32, true),
        ],
    );
    let binding = compile_table(&spec).expect("compiles");
    let bucket_count = 7usize;
    let mut buckets: Vec<PhysBucket> = (0..bucket_count)
        .map(|_| PhysBucket { rows: Vec::new() })
        .collect();
    for (id, icon) in [
        (1, Some(5)),
        (2, None),
        (7, Some(9)),
    ] {
        let field = match icon {
            Some(v) => FieldValue::Integer32(v),
            None => FieldValue::Nothing,
        };
        buckets[(id as u32 as usize) % bucket_count]
            .rows
            .push(PhysRow { fields: vec![FieldValue::Integer32(id), field] });
    }
    let table = PhysTable {
        columns: vec![
            PhysColumn { name: b"id".to_vec() },
            PhysColumn { name: b"missionIconID".to_vec() },
        ],
        buckets,
    };
    let view = TableView::new(binding, &table).expect("wraps");

    // Keyed lookup of 2 returns one row whose missionIconID reads as
    // "no value".
    let hits = view.key_lookup(2);
    assert_eq!(hits.len(), 1);
    let (icon, diag) = hits[0].read_nullable(ColumnId { index: 1 });
    assert_eq!(icon, None);
    assert!(diag.is_none());

    // The full scan sees exactly the three rows.
    assert_eq!(view.rows().len(), 3);

    // Serializing row 1 yields {"id": 1, "missionIconID": 5}.
    let one = view.key_lookup(1);
    assert_eq!(one.len(), 1);
    let rec = one[0].to_record();
    assert_eq!(rec.fields.len(), 2);
    assert_eq!(rec.fields[0].name, b"id".to_vec());
    assert_eq!(rec.fields[0].value, RecordValue::Value(TypedValue::Integer32(1)));
    assert_eq!(rec.fields[1].name, b"missionIconID".to_vec());
    assert_eq!(rec.fields[1].value, RecordValue::Value(TypedValue::Integer32(5)));
    assert_eq!(rec.diagnostics.len(), 0);
}
