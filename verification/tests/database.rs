use paradox_typed_db::binding::compile_table;
use paradox_typed_db::database::{
    assemble, AssembleError, Plan, PlanEntry, TypedDatabase, IDX_JET_PACK_PAD_COMPONENT,
    IDX_REBUILD_SECTIONS,
};
use paradox_typed_db::extract::{DiagnosticCause, RecordValue, TypedValue};
use paradox_typed_db::ext::{ItemSetsTable, ObjectsTable, SkillBehaviorTable};
use paradox_typed_db::schema::{ColumnSpec, TableSpec, ValueKind};
use paradox_typed_db::store::{
    FieldValue, NamedTable, PhysBucket, PhysColumn, PhysRow, PhysTable, PhysTables,
};
use paradox_typed_db::view::TableView;

const TABLE_NAMES: [&str; 42] = [
    "Activities",
    "ActivityText",
    "BehaviorParameter",
    "BehaviorTemplate",
    "CollectibleComponent",
    "ComponentsRegistry",
    "CurrencyDenominations",
    "DeletionRestrictions",
    "DestructibleComponent",
    "Emotes",
    "Icons",
    "InventoryComponent",
    "ItemComponent",
    "ItemSets",
    "ItemSetSkills",
    "JetPackPadComponent",
    "LootTable",
    "LootMatrix",
    "MissionEmail",
    "MissionNPCComponent",
    "MissionTasks",
    "MissionText",
    "Missions",
    "NpcIcons",
    "Objects",
    "ObjectSkills",
    "PlayerStatistics",
    "Preconditions",
    "PropertyTemplate",
    "RebuildComponent",
    "RebuildSections",
    "Rewards",
    "RewardCodes",
    "RenderComponent",
    "SkillBehavior",
    "SpeedchatMenu",
    "TamingBuildPuzzles",
    "UGBehaviorSounds",
    "WhatsCoolItemSpotlight",
    "WhatsCoolNewsAndTips",
    "ZoneLoadingTips",
    "ZoneTable",
];

fn phys_cols(names: &[&str]) -> Vec<PhysColumn> {
    names
        .iter()
        .map(|n| PhysColumn { name: n.as_bytes().to_vec() })
        .collect()
}

fn minimal_table() -> PhysTable {
    PhysTable {
        columns: phys_cols(&["id"]),
        buckets: vec![PhysBucket { rows: Vec::new() }],
    }
}

/// A store holding every table of the plan, each minimal and empty.
fn full_store() -> PhysTables {
    PhysTables {
        tables: TABLE_NAMES
            .iter()
            .map(|n| NamedTable { name: n.as_bytes().to_vec(), table: minimal_table() })
            .collect(),
    }
}

fn replace_table(store: &mut PhysTables, name: &str, table: PhysTable) {
    for t in store.tables.iter_mut() {
        if t.name == name.as_bytes() {
            t.table = table;
            return;
        }
    }
    panic!("table not in store");
}

fn int_row(fields: Vec<FieldValue>) -> PhysRow {
    PhysRow { fields }
}

#[test]
fn assembler_succeeds_on_a_full_store() {
    let store = full_store();
    let db = TypedDatabase::new(&store).expect("assembles");
    // Optional tables present: their slots are filled.
    assert!(db.table_at(IDX_JET_PACK_PAD_COMPONENT).is_some());
    assert!(db.table_at(IDX_REBUILD_SECTIONS).is_some());
}

#[test]
fn assembler_fails_fast_on_a_missing_mandatory_table() {
    let mut store = full_store();
    store.tables.retain(|t| t.name != b"Missions".to_vec());
    match TypedDatabase::new(&store) {
        Err(AssembleError::MissingTable { table }) => {
            assert_eq!(TABLE_NAMES[table], "Missions");
        }
        _ => panic!("expected a missing-table error"),
    }
}

#[test]
fn assembler_tolerates_missing_optional_tables() {
    let mut store = full_store();
    store
        .tables
        .retain(|t| t.name != b"JetPackPadComponent".to_vec() && t.name != b"RebuildSections".to_vec());
    let db = TypedDatabase::new(&store).expect("assembles without the optional tables");
    // The optional slots are explicit absence markers, not errors.
    assert!(db.table_at(IDX_JET_PACK_PAD_COMPONENT).is_none());
    assert!(db.table_at(IDX_REBUILD_SECTIONS).is_none());
}

#[test]
fn assembler_surfaces_structural_faults_distinctly() {
    let mut store = full_store();
    replace_table(
        &mut store,
        "ZoneTable",
        PhysTable { columns: Vec::new(), buckets: vec![PhysBucket { rows: Vec::new() }] },
    );
    match TypedDatabase::new(&store) {
        Err(AssembleError::Structure { table }) => {
            assert_eq!(TABLE_NAMES[table], "ZoneTable");
        }
        _ => panic!("expected a structure error"),
    }
}

#[test]
fn mission_data_and_tasks() {
    let mut store = full_store();
    replace_table(
        &mut store,
        "Missions",
        PhysTable {
            columns: phys_cols(&[
                "id",
                "defined_type",
                "defined_subtype",
                "isMission",
                "UISortOrder",
                "missionIconID",
            ]),
            buckets: vec![PhysBucket {
                rows: vec![int_row(vec![
                    FieldValue::Integer32(0),
                    FieldValue::Nothing,
                    FieldValue::Nothing,
                    FieldValue::Boolean(false),
                    FieldValue::Nothing,
                    FieldValue::Integer32(31),
                ])],
            }],
        },
    );
    replace_table(
        &mut store,
        "MissionTasks",
        PhysTable {
            columns: phys_cols(&["id", "IconID", "uid", "largeTaskIconID"]),
            buckets: vec![PhysBucket {
                rows: vec![
                    int_row(vec![
                        FieldValue::Integer32(0),
                        FieldValue::Integer32(11),
                        FieldValue::Integer32(1001),
                        FieldValue::Integer32(21),
                    ]),
                    int_row(vec![
                        FieldValue::Integer32(0),
                        FieldValue::Nothing,
                        FieldValue::Integer32(1002),
                        FieldValue::Nothing,
                    ]),
                ],
            }],
        },
    );
    let db = TypedDatabase::new(&store).expect("assembles");
    let m = db.get_mission_data(0).expect("mission found");
    assert_eq!(m.mission_icon_id, Some(31));
    assert!(!m.is_mission);
    assert!(db.get_mission_data(99).is_none());
    let tasks = db.get_mission_tasks(0);
    assert_eq!(tasks.len(), 2);
    assert_eq!(tasks[0].icon_id, Some(11));
    assert_eq!(tasks[0].uid, 1001);
    assert_eq!(tasks[1].icon_id, None);
    assert_eq!(tasks[1].uid, 1002);
    // The task-icon view over the same rows.
    let icons = db.mission_tasks().as_task_icon_iter(0);
    assert_eq!(icons.len(), 2);
    assert_eq!(icons[0].uid, 1001);
    assert_eq!(icons[0].large_task_icon_id, Some(21));
    assert_eq!(icons[1].large_task_icon_id, None);
}

#[test]
fn icon_path_and_render_image() {
    let mut store = full_store();
    replace_table(
        &mut store,
        "Icons",
        PhysTable {
            columns: phys_cols(&["id", "IconPath", "IconName"]),
            buckets: vec![PhysBucket {
                rows: vec![int_row(vec![
                    FieldValue::Integer32(0),
                    FieldValue::Text(b"ui/icon.dds".to_vec()),
                    FieldValue::Text(b"icon".to_vec()),
                ])],
            }],
        },
    );
    replace_table(
        &mut store,
        "RenderComponent",
        PhysTable {
            columns: phys_cols(&["id", "render_asset", "icon_asset"]),
            buckets: vec![PhysBucket {
                rows: vec![int_row(vec![
                    FieldValue::Integer32(0),
                    FieldValue::Text(b"mesh.nif".to_vec()),
                    FieldValue::Text(b"brick.png".to_vec()),
                ])],
            }],
        },
    );
    let db = TypedDatabase::new(&store).expect("assembles");
    assert_eq!(db.get_icon_path(0), Some(b"ui/icon.dds".to_vec()));
    assert_eq!(db.get_icon_path(5), None);
    assert_eq!(db.get_render_image(0), Some(b"brick.png".to_vec()));
    assert_eq!(db.get_render_image(5), None);
}

#[test]
fn components_takes_the_last_render_entry() {
    let mut store = full_store();
    replace_table(
        &mut store,
        "ComponentsRegistry",
        PhysTable {
            columns: phys_cols(&["id", "component_type", "component_id"]),
            buckets: vec![PhysBucket {
                rows: vec![
                    int_row(vec![
                        FieldValue::Integer32(0),
                        FieldValue::Integer32(2),
                        FieldValue::Integer32(500),
                    ]),
                    int_row(vec![
                        FieldValue::Integer32(0),
                        FieldValue::Integer32(7),
                        FieldValue::Integer32(900),
                    ]),
                    int_row(vec![
                        FieldValue::Integer32(0),
                        FieldValue::Integer32(2),
                        FieldValue::Integer32(501),
                    ]),
                ],
            }],
        },
    );
    let db = TypedDatabase::new(&store).expect("assembles");
    assert_eq!(db.get_components(0).render, Some(501));
    assert_eq!(db.get_components(3).render, None);
}

#[test]
fn object_name_desc_composition() {
    let mut store = full_store();
    // Physical layout with the conventional positions: name at 1,
    // description at 4, displayName at 7, internal notes at 10.
    let obj_cols = [
        "id",
        "name",
        "placeable",
        "type",
        "description",
        "localize",
        "npcTemplateID",
        "displayName",
        "interactionDistance",
        "nametag",
        "_internalNotes",
        "locStatus",
        "gate_version",
        "HQ_valid",
    ];
    let mk_row = |id: i32, name: &str, desc: &str, display: &str, notes: &str| {
        int_row(vec![
            FieldValue::Integer32(id),
            if name.is_empty() {
                FieldValue::Nothing
            } else {
                FieldValue::Text(name.as_bytes().to_vec())
            },
            FieldValue::Boolean(true),
            FieldValue::Text(b"type".to_vec()),
            if desc.is_empty() {
                FieldValue::Nothing
            } else {
                FieldValue::Text(desc.as_bytes().to_vec())
            },
            FieldValue::Boolean(true),
            FieldValue::Nothing,
            if display.is_empty() {
                FieldValue::Nothing
            } else {
                FieldValue::Text(display.as_bytes().to_vec())
            },
            FieldValue::Nothing,
            FieldValue::Boolean(false),
            if notes.is_empty() {
                FieldValue::Nothing
            } else {
                FieldValue::Text(notes.as_bytes().to_vec())
            },
            FieldValue::Integer32(0),
            FieldValue::Nothing,
            FieldValue::Boolean(true),
        ])
    };
    replace_table(
        &mut store,
        "Objects",
        PhysTable {
            columns: phys_cols(&obj_cols),
            buckets: vec![
                PhysBucket { rows: vec![mk_row(0, "Stromling", "a foe", "The Stromling", "spawns")] },
                PhysBucket { rows: vec![mk_row(1, "Brick", "", "Brick", "")] },
                PhysBucket { rows: vec![mk_row(2, "", "", "", "")] },
            ],
        },
    );
    let db = TypedDatabase::new(&store).expect("assembles");
    let (title, desc) = db.get_object_name_desc(0).expect("found");
    assert_eq!(title, b"The Stromling (Stromling) | Object #0".to_vec());
    assert_eq!(desc, b"a foe (spawns)".to_vec());
    let (title, desc) = db.get_object_name_desc(1).expect("found");
    assert_eq!(title, b"Brick | Object #1".to_vec());
    assert_eq!(desc, b"".to_vec());
    let (title, desc) = db.get_object_name_desc(2).expect("found");
    assert_eq!(title, b"Object #2".to_vec());
    assert_eq!(desc, b"".to_vec());
    assert!(db.get_object_name_desc(9).is_none());
}

#[test]
fn item_sets_and_skills() {
    let item_sets_spec = TableSpec::new(
        b"ItemSets".to_vec(),
        vec![
            ColumnSpec::new(b"itemIDs".to_vec(), ValueKind::Text, false),
            ColumnSpec::new(b"kitType".to_vec(), ValueKind::Integer32, false),
            ColumnSpec::new(b"kitRank".to_vec(), ValueKind::Integer32, false),
            ColumnSpec::new(b"kitImage".to_vec(), ValueKind::Integer32, true),
        ],
    );
    let binding = compile_table(&item_sets_spec).expect("compiles");
    let table = PhysTable {
        columns: phys_cols(&["id", "itemIDs", "kitType", "kitRank", "kitImage"]),
        buckets: vec![PhysBucket {
            rows: vec![int_row(vec![
                FieldValue::Integer32(0),
                FieldValue::Text(b"101, 102,9999999999, 103".to_vec()),
                FieldValue::Integer32(4),
                FieldValue::Nothing,
                FieldValue::Integer32(77),
            ])],
        }],
    };
    let view = TableView::new(binding, &table).expect("wraps");
    let is = ItemSetsTable { view: &view }.get_data(0).expect("found");
    assert_eq!(is.item_ids, vec![101, 102, 103]);
    assert_eq!(is.kit_type, 4);
    assert_eq!(is.kit_rank, 0);
    assert_eq!(is.kit_image, Some(77));
    assert!(ItemSetsTable { view: &view }.get_data(5).is_none());

    let skills_cols: Vec<ColumnSpec> = [
        "skillID",
        "locStatus",
        "behaviorID",
        "imaginationcost",
        "cooldowngroup",
        "cooldown",
        "inNpcEditor",
        "skillIcon",
        "oomSkillID",
        "oomBehaviorEffectID",
        "castTypeDesc",
        "imBonusUI",
        "lifeBonusUI",
        "armorBonusUI",
        "damageUI",
        "hideIcon",
        "localize",
        "gate_version",
        "cancelType",
    ]
    .iter()
    .map(|n| ColumnSpec::new(n.as_bytes().to_vec(), ValueKind::Integer32, false))
    .collect();
    let skills_spec = TableSpec::new(b"SkillBehavior".to_vec(), skills_cols);
    let binding = compile_table(&skills_spec).expect("compiles");
    let table = PhysTable {
        columns: phys_cols(&["skillID", "skillIcon"]),
        buckets: vec![PhysBucket {
            rows: vec![int_row(vec![FieldValue::Integer32(0), FieldValue::Integer32(42)])],
        }],
    };
    let view = TableView::new(binding, &table).expect("wraps");
    let sb = SkillBehaviorTable { view: &view }.get_data(0).expect("found");
    assert_eq!(sb.skill_icon, Some(42));
}

#[test]
fn object_refs_in_table_order() {
    let obj_cols: Vec<ColumnSpec> = [
        "id",
        "name",
        "placeable",
        "type",
        "description",
        "localize",
        "npcTemplateID",
        "displayName",
        "interactionDistance",
        "nametag",
        "_internalNotes",
        "locStatus",
        "gate_version",
        "HQ_valid",
    ]
    .iter()
    .map(|n| ColumnSpec::new(n.as_bytes().to_vec(), ValueKind::Text, true))
    .collect();
    let spec = TableSpec::new(b"Objects".to_vec(), obj_cols);
    let binding = compile_table(&spec).expect("compiles");
    let table = PhysTable {
        columns: phys_cols(&["id", "name"]),
        buckets: vec![
            PhysBucket {
                rows: vec![int_row(vec![
                    FieldValue::Integer32(2),
                    FieldValue::Text(b"b".to_vec()),
                ])],
            },
            PhysBucket {
                rows: vec![int_row(vec![
                    FieldValue::Integer32(1),
                    FieldValue::Text(b"a".to_vec()),
                ])],
            },
        ],
    };
    let view = TableView::new(binding, &table).expect("wraps");
    let refs = ObjectsTable { view: &view }.ref_iter();
    assert_eq!(refs.len(), 2);
    assert_eq!(refs[0].id, 2);
    assert_eq!(refs[0].name, b"b".to_vec());
    assert_eq!(refs[1].id, 1);
    assert_eq!(refs[1].name, b"a".to_vec());
}

#[test]
fn assembler_reports_configuration_faults() {
    let bad = TableSpec::new(
        b"Broken".to_vec(),
        vec![
            ColumnSpec::new(b"x".to_vec(), ValueKind::Integer32, false),
            ColumnSpec::new(b"x".to_vec(), ValueKind::Integer32, false),
        ],
    );
    let plan = Plan { entries: vec![PlanEntry { decl: bad, required: true }] };
    let store = full_store();
    match assemble(&plan, &store) {
        Err(AssembleError::Config { table }) => assert_eq!(table, 0),
        _ => panic!("expected a configuration fault"),
    }
}

#[test]
fn serialization_degrades_unresolved_required_columns() {
    let spec = TableSpec::new(
        b"T".to_vec(),
        vec![
            ColumnSpec::new(b"id".to_vec(), ValueKind::Integer32, false),
            ColumnSpec::new(b"ghostCol".to_vec(), ValueKind::Integer32, false),
        ],
    );
    let binding = compile_table(&spec).expect("compiles");
    // The physical table never had `ghostCol`.
    let table = PhysTable {
        columns: phys_cols(&["id"]),
        buckets: vec![PhysBucket { rows: vec![int_row(vec![FieldValue::Integer32(3)])] }],
    };
    let view = TableView::new(binding, &table).expect("wraps");
    let rows = view.rows();
    let rec = rows[0].to_record();
    // Serialization never hard-fails: the missing column degrades to the
    // kind's default, with a diagnostic.
    assert_eq!(rec.fields.len(), 2);
    assert_eq!(rec.fields[1].name, b"ghostCol".to_vec());
    assert_eq!(rec.fields[1].value, RecordValue::Value(TypedValue::Integer32(0)));
    assert_eq!(rec.diagnostics.len(), 1);
    assert_eq!(rec.diagnostics[0].cause, DiagnosticCause::UnresolvedRequired);
    assert_eq!(rec.diagnostics[0].primary_key, Some(3));
}

#[test]
fn empty_declaration_serializes_to_an_empty_record() {
    let spec = TableSpec::new(b"Opaque".to_vec(), Vec::new());
    let binding = compile_table(&spec).expect("compiles");
    let table = PhysTable {
        columns: phys_cols(&["anything"]),
        buckets: vec![PhysBucket { rows: vec![int_row(vec![FieldValue::Integer32(1)])] }],
    };
    let view = TableView::new(binding, &table).expect("wraps");
    let rows = view.rows();
    assert_eq!(rows.len(), 1);
    let rec = rows[0].to_record();
    assert_eq!(rec.fields.len(), 0);
    assert_eq!(rec.diagnostics.len(), 0);
}

#[test]
fn render_image_skips_key_rows_without_a_text_icon() {
    // Two rows with the same key in one bucket: the first has no text icon
    // asset, the second does. The lookup keeps scanning past the first.
    let mut store = full_store();
    replace_table(
        &mut store,
        "RenderComponent",
        PhysTable {
            columns: phys_cols(&["id", "render_asset", "icon_asset"]),
            buckets: vec![PhysBucket {
                rows: vec![
                    int_row(vec![
                        FieldValue::Integer32(0),
                        FieldValue::Text(b"mesh.nif".to_vec()),
                        FieldValue::Nothing,
                    ]),
                    int_row(vec![
                        FieldValue::Integer32(0),
                        FieldValue::Text(b"mesh2.nif".to_vec()),
                        FieldValue::Text(b"later.png".to_vec()),
                    ]),
                ],
            }],
        },
    );
    let db = TypedDatabase::new(&store).expect("assembles");
    assert_eq!(db.get_render_image(0), Some(b"later.png".to_vec()));
}
