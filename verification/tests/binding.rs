use paradox_typed_db::binding::{
    compile_table, make_ident, resolve_ident, to_camel_case, to_snake_case, ColumnId,
    CompileError,
};
use paradox_typed_db::schema::{ColumnSpec, TableSpec, ValueKind};

fn col(name: &str, kind: ValueKind, nullable: bool) -> ColumnSpec {
    ColumnSpec::new(name.as_bytes().to_vec(), kind, nullable)
}

fn spec(name: &str, cols: Vec<ColumnSpec>) -> TableSpec {
    TableSpec::new(name.as_bytes().to_vec(), cols)
}

#[test]
fn snake_case_plain() {
    assert_eq!(to_snake_case(b"id"), b"id".to_vec());
    assert_eq!(to_snake_case(b"missionIconID"), b"mission_icon_id".to_vec());
    assert_eq!(to_snake_case(b"UISortOrder"), b"ui_sort_order".to_vec());
    assert_eq!(to_snake_case(b"HQ_valid"), b"hq_valid".to_vec());
    assert_eq!(to_snake_case(b"_internalNotes"), b"internal_notes".to_vec());
    assert_eq!(to_snake_case(b"AICombatWeight"), b"ai_combat_weight".to_vec());
    assert_eq!(to_snake_case(b"taskParam1"), b"task_param1".to_vec());
}

#[test]
fn snake_case_edges() {
    assert_eq!(to_snake_case(b""), b"".to_vec());
    assert_eq!(to_snake_case(b"___"), b"".to_vec());
    assert_eq!(to_snake_case(b"a__b"), b"a_b".to_vec());
    assert_eq!(to_snake_case(b"ABC"), b"abc".to_vec());
}

#[test]
fn camel_case_plain() {
    assert_eq!(to_camel_case(b"itemIDs"), b"ItemIDs".to_vec());
    assert_eq!(to_camel_case(b"missionIconID"), b"MissionIconId".to_vec());
    assert_eq!(to_camel_case(b"UISortOrder"), b"UiSortOrder".to_vec());
    assert_eq!(to_camel_case(b"isMission"), b"IsMission".to_vec());
    assert_eq!(to_camel_case(b"gate_version"), b"GateVersion".to_vec());
    assert_eq!(to_camel_case(b""), b"".to_vec());
}

#[test]
fn reserved_words_are_escaped() {
    assert_eq!(make_ident(b"type"), b"r#type".to_vec());
    assert_eq!(make_ident(b"static"), b"r#static".to_vec());
    assert_eq!(make_ident(b"Type"), b"r#type".to_vec());
    assert_eq!(make_ident(b"name"), b"name".to_vec());
}

#[test]
fn compile_emits_one_binding_per_column() {
    let ts = spec(
        "Objects",
        vec![
            col("id", ValueKind::Integer32, false),
            col("displayName", ValueKind::Text, true),
            col("type", ValueKind::Text, false),
        ],
    );
    let b = compile_table(&ts).expect("compiles");
    assert_eq!(b.table_name, b"Objects".to_vec());
    assert_eq!(b.columns.len(), 3);
    assert_eq!(b.columns[0].ident, b"id".to_vec());
    assert_eq!(b.columns[1].ident, b"display_name".to_vec());
    assert_eq!(b.columns[1].variant, b"DisplayName".to_vec());
    assert_eq!(b.columns[2].ident, b"r#type".to_vec());
    // The identifier set has exactly one identifier per declared column.
    let ids = b.column_ids();
    assert_eq!(ids.len(), 3);
    for (k, id) in ids.iter().enumerate() {
        assert_eq!(id.index, k);
    }
}

#[test]
fn identifier_round_trips_through_name() {
    let ts = spec(
        "MissionTasks",
        vec![
            col("id", ValueKind::Integer32, false),
            col("IconID", ValueKind::Integer32, true),
            col("uid", ValueKind::Integer32, false),
        ],
    );
    let b = compile_table(&ts).expect("compiles");
    for k in 0..3usize {
        let name = b.name_of(ColumnId { index: k }).clone();
        let back = resolve_ident(&ts, &name).expect("resolves");
        assert_eq!(back.index, k);
    }
    assert!(resolve_ident(&ts, b"nonexistent").is_none());
}

#[test]
fn duplicate_raw_names_fail() {
    let ts = spec(
        "T",
        vec![
            col("a", ValueKind::Integer32, false),
            col("b", ValueKind::Integer32, false),
            col("a", ValueKind::Text, true),
        ],
    );
    match compile_table(&ts) {
        Err(CompileError::DuplicateColumnName { first, second }) => {
            assert_eq!(first, 0);
            assert_eq!(second, 2);
        }
        other => panic!("expected duplicate-name error, got {:?}", other.is_ok()),
    }
}

#[test]
fn normalization_collision_fails() {
    // Distinct raw names that normalize to the same identifier.
    let ts = spec(
        "T",
        vec![
            col("mission_icon", ValueKind::Integer32, false),
            col("missionIcon", ValueKind::Integer32, false),
        ],
    );
    match compile_table(&ts) {
        Err(CompileError::IdentifierCollision { first, second }) => {
            assert_eq!(first, 0);
            assert_eq!(second, 1);
        }
        other => panic!("expected collision error, got {:?}", other.is_ok()),
    }
}
