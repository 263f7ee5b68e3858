//! Database assembly: one typed view per table of interest.
//!
//! A [`Plan`] lists the tables a [`TypedDatabase`] is built from; most are
//! mandatory, a few exist only in newer revisions of the store and are
//! optional. Assembly looks every table up by its exact logical name,
//! compiles its binding, and wraps it; a missing mandatory table or a
//! structurally invalid table fails the whole construction, while a missing
//! optional table merely leaves an explicitly absent slot.

use vstd::prelude::*;

use crate::binding::{binding_matches, compilable, compilable_names, compile_table, ColumnId};
use crate::bytes::{bytes_eq, name_bytes};
use crate::schema::{first_name_match, lemma_first_name_match, ColumnSpec, TableSpec, ValueKind};
use crate::store::{store_table_names, table_shape_ok, NamedTable, PhysTables};
use crate::view::TableView;
use vstd::string::StringSliceAdditionalSpecFns;

verus! {

/// One table the assembler looks for: its declaration, and whether its
/// absence fails construction.
#[derive(Clone, Debug)]
pub struct PlanEntry {
    /// The table declaration.
    pub decl: TableSpec,
    /// Whether the table must be present.
    pub required: bool,
}

/// The list of tables a typed database is assembled from.
#[derive(Clone, Debug)]
pub struct Plan {
    /// The entries, in assembly order.
    pub entries: Vec<PlanEntry>,
}

/// Why assembly failed.
#[derive(Clone, Copy, Debug, PartialEq, Eq, Structural)]
pub enum AssembleError {
    /// The entry's declaration is not compilable: a configuration fault.
    Config {
        /// The position of the entry in the plan.
        table: usize,
    },
    /// A mandatory table is absent from the store.
    MissingTable {
        /// The position of the entry in the plan.
        table: usize,
    },
    /// The table is present but its shape is below the structural minimum.
    Structure {
        /// The position of the entry in the plan.
        table: usize,
    },
}

/// The position of the first store table carrying `name`, if any.
pub open spec fn table_found(tables: PhysTables, name: Seq<u8>) -> Option<int> {
    first_name_match(store_table_names(tables.tables@), name)
}

/// Nothing stands in the way of assembling this entry against this store:
/// its declaration compiles, it is present when required, and when present
/// its physical shape is acceptable.
pub open spec fn entry_ok(e: PlanEntry, tables: PhysTables) -> bool {
    &&& compilable(e.decl.columns@)
    &&& match table_found(tables, e.decl.name@) {
        None => !e.required,
        Some(t) => table_shape_ok(tables.tables@[t].table),
    }
}

/// Every entry of the plan can be assembled against this store.
pub open spec fn all_entries_ok(p: Plan, tables: PhysTables) -> bool {
    forall|i: int| 0 <= i < p.entries@.len() ==> entry_ok(#[trigger] p.entries@[i], tables)
}

/// The assembled views correspond to the plan, entry by entry: a present
/// table is wrapped in a well-formed view of it under the entry's compiled
/// binding; an absent one leaves an explicitly empty slot.
pub open spec fn views_match(p: Plan, tables: PhysTables, views: Seq<Option<TableView>>) -> bool {
    &&& views.len() == p.entries@.len()
    &&& forall|i: int|
        0 <= i < views.len() ==> match table_found(tables, p.entries@[i].decl.name@) {
            None => (#[trigger] views[i]) is None,
            Some(t) => views[i] matches Some(v) && v.wf() && *v.table == tables.tables@[t].table
                && binding_matches(p.entries@[i].decl, v.binding),
        }
}

/// The first store table whose name equals `name`.
fn find_named<'a>(tables: &'a PhysTables, name: &[u8]) -> (r: Option<usize>)
    ensures
        match r {
            Some(t) => table_found(*tables, name@) == Some(t as int),
            None => table_found(*tables, name@) is None,
        },
{
    proof {
        lemma_first_name_match(store_table_names(tables.tables@), name@);
    }
    let mut i: usize = 0;
    while i < tables.tables.len()
        invariant
            i <= tables.tables@.len(),
            forall|j: int| 0 <= j < i ==> store_table_names(tables.tables@)[j] != name@,
        decreases tables.tables@.len() - i,
    {
        if bytes_eq(tables.tables[i].name.as_slice(), name) {
            proof {
                let names = store_table_names(tables.tables@);
                lemma_first_name_match(names, name@);
                assert(names[i as int] == name@);
                match first_name_match(names, name@) {
                    None => {
                        assert(false);
                    },
                    Some(k) => {
                        if k < i {
                            assert(names[k] != name@);
                        }
                        if k > i {
                            assert(names[i as int] != name@);
                        }
                    },
                }
            }
            return Some(i);
        }
        i = i + 1;
    }
    None
}

/// Assemble one view slot per plan entry against a store.
///
/// Succeeds if and only if every entry compiles, every mandatory table is
/// present, and every present table has an acceptable shape; on failure the
/// error names the first offending entry and the fault.
pub fn assemble<'a>(plan: &Plan, tables: &'a PhysTables) -> (r: Result<
    Vec<Option<TableView<'a>>>,
    AssembleError,
>)
    ensures
        r matches Ok(views) ==> all_entries_ok(*plan, *tables) && views_match(
            *plan,
            *tables,
            views@,
        ),
        all_entries_ok(*plan, *tables) ==> r is Ok,
        r matches Err(AssembleError::Config { table }) ==> table < plan.entries@.len()
            && !compilable(plan.entries@[table as int].decl.columns@),
        r matches Err(AssembleError::MissingTable { table }) ==> table < plan.entries@.len()
            && plan.entries@[table as int].required && table_found(
            *tables,
            plan.entries@[table as int].decl.name@,
        ) is None,
        r matches Err(AssembleError::Structure { table }) ==> table < plan.entries@.len() && match
            table_found(*tables, plan.entries@[table as int].decl.name@) {
            Some(t) => !table_shape_ok(tables.tables@[t].table),
            None => false,
        },
{
    let n = plan.entries.len();
    let mut views: Vec<Option<TableView<'a>>> = Vec::new();
    let mut i: usize = 0;
    while i < n
        invariant
            n == plan.entries@.len(),
            i <= n,
            views@.len() == i as int,
            forall|a: int| 0 <= a < i ==> entry_ok(#[trigger] plan.entries@[a], *tables),
            forall|a: int|
                0 <= a < i ==> match table_found(*tables, plan.entries@[a].decl.name@) {
                    None => (#[trigger] views@[a]) is None,
                    Some(t) => views@[a] matches Some(v) && v.wf() && *v.table
                        == tables.tables@[t].table && binding_matches(
                        plan.entries@[a].decl,
                        v.binding,
                    ),
                },
        decreases n - i,
    {
        let binding = match compile_table(&plan.entries[i].decl) {
            Ok(b) => b,
            Err(_) => {
                return Err(AssembleError::Config { table: i });
            },
        };
        match find_named(tables, plan.entries[i].decl.name.as_slice()) {
            None => {
                if plan.entries[i].required {
                    return Err(AssembleError::MissingTable { table: i });
                }
                views.push(None);
            },
            Some(t) => {
                proof {
                    lemma_first_name_match(
                        store_table_names(tables.tables@),
                        plan.entries@[i as int].decl.name@,
                    );
                }
                match TableView::new(binding, &tables.tables[t].table) {
                    Ok(v) => {
                        views.push(Some(v));
                    },
                    Err(_) => {
                        return Err(AssembleError::Structure { table: i });
                    },
                }
            },
        }
        i = i + 1;
    }
    Ok(views)
}

/// Assembler fail-fast, mandatory case: when a mandatory table of the plan
/// is absent from the store, not every entry can be assembled — so
/// [`assemble`], whose contract returns `Ok` exactly on [`all_entries_ok`],
/// must fail the whole construction.
pub proof fn lemma_assembler_fail_fast(p: Plan, tables: PhysTables, i: int)
    requires
        0 <= i < p.entries@.len(),
        p.entries@[i].required,
        table_found(tables, p.entries@[i].decl.name@) is None,
    ensures
        !all_entries_ok(p, tables),
{
    assert(!entry_ok(p.entries@[i], tables));
}

/// Assembler tolerance, optional case: an optional table's absence never
/// stands in the way of its entry — with a compilable declaration the entry
/// assembles, and by the contract of [`assemble`] its slot is then an
/// explicitly absent marker.
pub proof fn lemma_assembler_optional_absent(p: Plan, tables: PhysTables, i: int)
    requires
        0 <= i < p.entries@.len(),
        !p.entries@[i].required,
        compilable(p.entries@[i].decl.columns@),
        table_found(tables, p.entries@[i].decl.name@) is None,
    ensures
        entry_ok(p.entries@[i], tables),
{
}

/// The number of tables of the assembly plan.
pub const TABLE_COUNT: usize = 42;

/// Plan position of the `ComponentsRegistry` table.
pub const IDX_COMPONENTS_REGISTRY: usize = 5;

/// Plan position of the `Icons` table.
pub const IDX_ICONS: usize = 10;

/// Plan position of the `ItemSets` table.
pub const IDX_ITEM_SETS: usize = 13;

/// Plan position of the `JetPackPadComponent` table (optional).
pub const IDX_JET_PACK_PAD_COMPONENT: usize = 15;

/// Plan position of the `MissionTasks` table.
pub const IDX_MISSION_TASKS: usize = 20;

/// Plan position of the `Missions` table.
pub const IDX_MISSIONS: usize = 22;

/// Plan position of the `Objects` table.
pub const IDX_OBJECTS: usize = 24;

/// Plan position of the `RebuildSections` table (optional).
pub const IDX_REBUILD_SECTIONS: usize = 30;

/// Plan position of the `RenderComponent` table.
pub const IDX_RENDER_COMPONENT: usize = 33;

/// Plan position of the `SkillBehavior` table.
pub const IDX_SKILL_BEHAVIOR: usize = 34;


/// The declared content of a column list: for each column, its name, kind
/// and nullability.
pub open spec fn column_triples(columns: Seq<ColumnSpec>) -> Seq<(Seq<u8>, ValueKind, bool)> {
    columns.map_values(|c: ColumnSpec| (c.name@, c.kind, c.nullable))
}

/// Whether the canonical plan requires the table at position `i`: all but
/// the two newer-revision tables.
pub open spec fn canonical_required(i: int) -> bool {
    i != IDX_JET_PACK_PAD_COMPONENT && i != IDX_REBUILD_SECTIONS
}

/// The logical name of the table at position `i` of the canonical plan.
#[verifier::opaque]
pub open spec fn canonical_name(i: int) -> Seq<u8> {
    if i == 0 {
        "Activities".spec_bytes()
    } else if i == 1 {
        "ActivityText".spec_bytes()
    } else if i == 2 {
        "BehaviorParameter".spec_bytes()
    } else if i == 3 {
        "BehaviorTemplate".spec_bytes()
    } else if i == 4 {
        "CollectibleComponent".spec_bytes()
    } else if i == 5 {
        "ComponentsRegistry".spec_bytes()
    } else if i == 6 {
        "CurrencyDenominations".spec_bytes()
    } else if i == 7 {
        "DeletionRestrictions".spec_bytes()
    } else if i == 8 {
        "DestructibleComponent".spec_bytes()
    } else if i == 9 {
        "Emotes".spec_bytes()
    } else if i == 10 {
        "Icons".spec_bytes()
    } else if i == 11 {
        "InventoryComponent".spec_bytes()
    } else if i == 12 {
        "ItemComponent".spec_bytes()
    } else if i == 13 {
        "ItemSets".spec_bytes()
    } else if i == 14 {
        "ItemSetSkills".spec_bytes()
    } else if i == 15 {
        "JetPackPadComponent".spec_bytes()
    } else if i == 16 {
        "LootTable".spec_bytes()
    } else if i == 17 {
        "LootMatrix".spec_bytes()
    } else if i == 18 {
        "MissionEmail".spec_bytes()
    } else if i == 19 {
        "MissionNPCComponent".spec_bytes()
    } else if i == 20 {
        "MissionTasks".spec_bytes()
    } else if i == 21 {
        "MissionText".spec_bytes()
    } else if i == 22 {
        "Missions".spec_bytes()
    } else if i == 23 {
        "NpcIcons".spec_bytes()
    } else if i == 24 {
        "Objects".spec_bytes()
    } else if i == 25 {
        "ObjectSkills".spec_bytes()
    } else if i == 26 {
        "PlayerStatistics".spec_bytes()
    } else if i == 27 {
        "Preconditions".spec_bytes()
    } else if i == 28 {
        "PropertyTemplate".spec_bytes()
    } else if i == 29 {
        "RebuildComponent".spec_bytes()
    } else if i == 30 {
        "RebuildSections".spec_bytes()
    } else if i == 31 {
        "Rewards".spec_bytes()
    } else if i == 32 {
        "RewardCodes".spec_bytes()
    } else if i == 33 {
        "RenderComponent".spec_bytes()
    } else if i == 34 {
        "SkillBehavior".spec_bytes()
    } else if i == 35 {
        "SpeedchatMenu".spec_bytes()
    } else if i == 36 {
        "TamingBuildPuzzles".spec_bytes()
    } else if i == 37 {
        "UGBehaviorSounds".spec_bytes()
    } else if i == 38 {
        "WhatsCoolItemSpotlight".spec_bytes()
    } else if i == 39 {
        "WhatsCoolNewsAndTips".spec_bytes()
    } else if i == 40 {
        "ZoneLoadingTips".spec_bytes()
    } else if i == 41 {
        "ZoneTable".spec_bytes()
    } else {
        Seq::empty()
    }
}

/// The declared columns of the table at position `i` of the canonical
/// plan: the well-known tables carry their full column lists; the rest are
/// assembled without declared columns.
#[verifier::opaque]
pub open spec fn canonical_columns(i: int) -> Seq<(Seq<u8>, ValueKind, bool)> {
    if i == IDX_COMPONENTS_REGISTRY {
        seq![
            ("id".spec_bytes(), ValueKind::Integer32, false),
            ("component_type".spec_bytes(), ValueKind::Integer32, false),
            ("component_id".spec_bytes(), ValueKind::Integer32, false),
        ]
    } else if i == IDX_ICONS {
        seq![
            ("IconPath".spec_bytes(), ValueKind::Text, true),
            ("IconName".spec_bytes(), ValueKind::Text, true),
        ]
    } else if i == IDX_ITEM_SETS {
        seq![
            ("itemIDs".spec_bytes(), ValueKind::Text, false),
            ("kitType".spec_bytes(), ValueKind::Integer32, false),
            ("kitRank".spec_bytes(), ValueKind::Integer32, false),
            ("kitImage".spec_bytes(), ValueKind::Integer32, true),
        ]
    } else if i == IDX_MISSION_TASKS {
        seq![
            ("id".spec_bytes(), ValueKind::Integer32, false),
            ("locStatus".spec_bytes(), ValueKind::Integer32, false),
            ("taskType".spec_bytes(), ValueKind::Integer32, false),
            ("target".spec_bytes(), ValueKind::Integer32, true),
            ("targetGroup".spec_bytes(), ValueKind::Text, true),
            ("targetValue".spec_bytes(), ValueKind::Integer32, true),
            ("taskParam1".spec_bytes(), ValueKind::Text, true),
            ("largeTaskIcon".spec_bytes(), ValueKind::Text, true),
            ("IconID".spec_bytes(), ValueKind::Integer32, true),
            ("uid".spec_bytes(), ValueKind::Integer32, false),
            ("largeTaskIconID".spec_bytes(), ValueKind::Integer32, true),
            ("localize".spec_bytes(), ValueKind::Boolean, false),
            ("gate_version".spec_bytes(), ValueKind::Text, true),
        ]
    } else if i == IDX_MISSIONS {
        seq![
            ("id".spec_bytes(), ValueKind::Integer32, false),
            ("defined_type".spec_bytes(), ValueKind::Text, true),
            ("defined_subtype".spec_bytes(), ValueKind::Text, true),
            ("isMission".spec_bytes(), ValueKind::Boolean, false),
            ("UISortOrder".spec_bytes(), ValueKind::Integer32, true),
            ("missionIconID".spec_bytes(), ValueKind::Integer32, true),
        ]
    } else if i == IDX_OBJECTS {
        seq![
            ("id".spec_bytes(), ValueKind::Integer32, false),
            ("name".spec_bytes(), ValueKind::Text, false),
            ("placeable".spec_bytes(), ValueKind::Boolean, false),
            ("type".spec_bytes(), ValueKind::Text, false),
            ("description".spec_bytes(), ValueKind::Text, true),
            ("localize".spec_bytes(), ValueKind::Boolean, false),
            ("npcTemplateID".spec_bytes(), ValueKind::Integer32, true),
            ("displayName".spec_bytes(), ValueKind::Text, true),
            ("interactionDistance".spec_bytes(), ValueKind::Float32, true),
            ("nametag".spec_bytes(), ValueKind::Boolean, false),
            ("_internalNotes".spec_bytes(), ValueKind::Text, true),
            ("locStatus".spec_bytes(), ValueKind::Integer32, false),
            ("gate_version".spec_bytes(), ValueKind::Text, true),
            ("HQ_valid".spec_bytes(), ValueKind::Boolean, false),
        ]
    } else if i == IDX_SKILL_BEHAVIOR {
        seq![
            ("skillID".spec_bytes(), ValueKind::Integer32, false),
            ("locStatus".spec_bytes(), ValueKind::Integer32, false),
            ("behaviorID".spec_bytes(), ValueKind::Integer32, false),
            ("imaginationcost".spec_bytes(), ValueKind::Integer32, false),
            ("cooldowngroup".spec_bytes(), ValueKind::Integer32, false),
            ("cooldown".spec_bytes(), ValueKind::Float32, false),
            ("inNpcEditor".spec_bytes(), ValueKind::Boolean, false),
            ("skillIcon".spec_bytes(), ValueKind::Integer32, false),
            ("oomSkillID".spec_bytes(), ValueKind::Text, false),
            ("oomBehaviorEffectID".spec_bytes(), ValueKind::Integer32, false),
            ("castTypeDesc".spec_bytes(), ValueKind::Integer32, false),
            ("imBonusUI".spec_bytes(), ValueKind::Integer32, false),
            ("lifeBonusUI".spec_bytes(), ValueKind::Integer32, false),
            ("armorBonusUI".spec_bytes(), ValueKind::Integer32, false),
            ("damageUI".spec_bytes(), ValueKind::Integer32, false),
            ("hideIcon".spec_bytes(), ValueKind::Boolean, false),
            ("localize".spec_bytes(), ValueKind::Boolean, false),
            ("gate_version".spec_bytes(), ValueKind::Text, false),
            ("cancelType".spec_bytes(), ValueKind::Integer32, false),
        ]
    } else {
        Seq::empty()
    }
}

/// The names of a list of column triples, in order.
pub open spec fn names_of_triples(t: Seq<(Seq<u8>, ValueKind, bool)>) -> Seq<Seq<u8>> {
    t.map_values(|x: (Seq<u8>, ValueKind, bool)| x.0)
}

/// The declared column names at position `i` of the canonical plan.
pub open spec fn canonical_col_names(i: int) -> Seq<Seq<u8>> {
    names_of_triples(canonical_columns(i))
}

/// A column list's names are the names of its triples.
proof fn lemma_names_of_triples(cols: Seq<ColumnSpec>, t: Seq<(Seq<u8>, ValueKind, bool)>)
    requires
        column_triples(cols) == t,
    ensures
        crate::schema::column_names(cols) == names_of_triples(t),
{
    assert(crate::schema::column_names(cols) =~= names_of_triples(t)) by {
        assert(forall|j: int| 0 <= j < cols.len()
            ==> (#[trigger] crate::schema::column_names(cols)[j]) == cols[j].name@);
        assert(forall|j: int| 0 <= j < cols.len() ==> (#[trigger] column_triples(cols)[j])
            == (cols[j].name@, cols[j].kind, cols[j].nullable));
        assert(forall|j: int| 0 <= j < t.len() ==> (#[trigger] names_of_triples(t)[j]) == t[j].0);
    }
}

/// The plan is the canonical one: one entry per position, carrying exactly
/// the canonical name, required flag and declared columns.
pub open spec fn canonical_plan(p: Plan) -> bool {
    &&& p.entries@.len() == TABLE_COUNT
    &&& forall|i: int|
        0 <= i < p.entries@.len() ==> {
            &&& (#[trigger] p.entries@[i]).required == canonical_required(i)
            &&& p.entries@[i].decl.name@ == canonical_name(i)
            &&& column_triples(p.entries@[i].decl.columns@) == canonical_columns(i)
        }
}

/// Nothing stands in the way of assembling canonical entry `i` against
/// this store: [`entry_ok`], restated over the canonical content alone.
pub open spec fn canonical_slot_ok(tables: PhysTables, i: int) -> bool {
    &&& compilable_names(canonical_col_names(i))
    &&& match table_found(tables, canonical_name(i)) {
        None => !canonical_required(i),
        Some(t) => table_shape_ok(tables.tables@[t].table),
    }
}

/// The canonical plan can be assembled against this store: every slot is
/// fine. This is exactly when [`TypedDatabase::new`] succeeds.
pub open spec fn canonical_store_ok(tables: PhysTables) -> bool {
    forall|i: int| 0 <= i < TABLE_COUNT ==> canonical_slot_ok(tables, i)
}

/// Under a canonical plan, per-entry assembly conditions coincide with the
/// content-level canonical ones, entry by entry and in the aggregate.
#[verifier::rlimit(100)]
pub proof fn lemma_canonical_entries(p: Plan, tables: PhysTables)
    requires
        canonical_plan(p),
    ensures
        forall|i: int| 0 <= i < p.entries@.len() ==> (entry_ok(#[trigger] p.entries@[i], tables)
            <==> canonical_slot_ok(tables, i)),
        forall|i: int| 0 <= i < p.entries@.len() ==> (compilable(
            (#[trigger] p.entries@[i]).decl.columns@,
        ) <==> compilable_names(canonical_col_names(i))),
        all_entries_ok(p, tables) <==> canonical_store_ok(tables),
{
    assert forall|i: int| 0 <= i < p.entries@.len() implies {
        &&& (entry_ok(#[trigger] p.entries@[i], tables) <==> canonical_slot_ok(tables, i))
        &&& (compilable(p.entries@[i].decl.columns@) <==> compilable_names(
            canonical_col_names(i),
        ))
    } by {
        let cols = p.entries@[i].decl.columns@;
        lemma_names_of_triples(cols, canonical_columns(i));
        assert(crate::schema::column_names(cols) == canonical_col_names(i));
    }
    if all_entries_ok(p, tables) {
        assert forall|i: int| 0 <= i < TABLE_COUNT implies canonical_slot_ok(tables, i) by {
            assert(entry_ok(p.entries@[i], tables));
        }
    }
    if canonical_store_ok(tables) {
        assert forall|i: int| 0 <= i < p.entries@.len() implies entry_ok(
            #[trigger] p.entries@[i],
            tables,
        ) by {
            assert(canonical_slot_ok(tables, i));
        }
    }
}

/// A selection of relevant database tables: one typed view per plan entry,
/// the optional ones explicitly absent when the store predates them.
pub struct TypedDatabase<'a> {
    /// The plan the database was assembled from.
    pub plan: Plan,
    /// One slot per plan entry.
    pub views: Vec<Option<TableView<'a>>>,
}

impl<'a> TypedDatabase<'a> {
    /// Well-formedness: one slot per entry; a filled slot holds a
    /// well-formed view compiled from its entry; only optional entries may
    /// be empty.
    pub open spec fn wf(self) -> bool {
        &&& self.views@.len() == self.plan.entries@.len()
        &&& forall|i: int|
            0 <= i < self.views@.len() ==> match #[trigger] self.views@[i] {
                Some(v) => v.wf() && binding_matches(self.plan.entries@[i].decl, v.binding),
                None => !self.plan.entries@[i].required,
            }
    }

    /// The view of plan entry `i`; meaningful only when the slot is filled.
    pub open spec fn view_of(self, i: int) -> TableView<'a> {
        self.views@[i]->Some_0
    }

    /// Borrow the view slot of plan entry `i`.
    pub fn table_at(&self, i: usize) -> (r: &Option<TableView<'a>>)
        requires
            i < self.views@.len(),
        ensures
            *r == self.views@[i as int],
    {
        &self.views[i]
    }

    /// Borrow the view of a mandatory plan entry.
    pub fn required_view(&self, i: usize) -> (r: &TableView<'a>)
        requires
            self.wf(),
            i < self.views@.len(),
            self.plan.entries@[i as int].required,
        ensures
            self.views@[i as int] matches Some(v) && *r == v,
            *r == self.view_of(i as int),
    {
        match &self.views[i] {
            Some(v) => v,
            None => {
                proof {
                    assert(false);
                }
                vstd::pervasive::unreached()
            },
        }
    }
}

} // verus!
