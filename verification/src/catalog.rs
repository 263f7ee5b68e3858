//! The concrete schema catalog: the declared columns of the well-known
//! tables, and the canonical assembly plan.
//!
//! Column lists are declared only for the tables this crate reads through
//! well-known columns; the remaining tables are assembled with an empty
//! declaration, which still checks their presence and shape. All but two
//! tables are mandatory: `JetPackPadComponent` and `RebuildSections` appear
//! only in newer revisions of the store.

use vstd::prelude::*;

use crate::bytes::name_bytes;
use crate::database::{canonical_columns, canonical_name, canonical_plan, column_triples};
use crate::database::{canonical_required, Plan, PlanEntry, TABLE_COUNT};
use crate::database::{
    IDX_COMPONENTS_REGISTRY, IDX_ICONS, IDX_ITEM_SETS, IDX_MISSIONS, IDX_MISSION_TASKS,
    IDX_OBJECTS, IDX_SKILL_BEHAVIOR,
};
use crate::schema::{ColumnSpec, TableSpec, ValueKind};
use vstd::string::StringSliceAdditionalSpecFns;

verus! {

/// Declare one column.
fn col(name: &str, kind: ValueKind, nullable: bool) -> (r: ColumnSpec)
    ensures
        r.name@ == name.spec_bytes(),
        r.kind == kind,
        r.nullable == nullable,
{
    ColumnSpec::new(name_bytes(name), kind, nullable)
}

/// Declare a table whose columns this crate does not read: presence and
/// shape are still checked at assembly.
fn bare(name: &str) -> (r: TableSpec)
    ensures
        r.name@ == name.spec_bytes(),
        column_triples(r.columns@) == Seq::<(Seq<u8>, ValueKind, bool)>::empty(),
{
    proof {
        let cols: Seq<ColumnSpec> = Seq::empty();
        assert(column_triples(cols) =~= Seq::<(Seq<u8>, ValueKind, bool)>::empty());
    }
    TableSpec::new(name_bytes(name), Vec::new())
}

/// The declared columns of `ComponentsRegistry`.
fn components_registry_spec() -> (r: TableSpec)
    ensures
        r.name@ == canonical_name(IDX_COMPONENTS_REGISTRY as int),
        column_triples(r.columns@) == canonical_columns(IDX_COMPONENTS_REGISTRY as int),
{
    let mut cols: Vec<ColumnSpec> = Vec::new();
    cols.push(col("id", ValueKind::Integer32, false));
    cols.push(col("component_type", ValueKind::Integer32, false));
    cols.push(col("component_id", ValueKind::Integer32, false));
    let r = TableSpec::new(name_bytes("ComponentsRegistry"), cols);
    proof {
        reveal(canonical_name);
        reveal(canonical_columns);
        assert(column_triples(r.columns@) =~= canonical_columns(IDX_COMPONENTS_REGISTRY as int));
    }
    r
}

/// The declared columns of `Icons`.
fn icons_spec() -> (r: TableSpec)
    ensures
        r.name@ == canonical_name(IDX_ICONS as int),
        column_triples(r.columns@) == canonical_columns(IDX_ICONS as int),
{
    let mut cols: Vec<ColumnSpec> = Vec::new();
    cols.push(col("IconPath", ValueKind::Text, true));
    cols.push(col("IconName", ValueKind::Text, true));
    let r = TableSpec::new(name_bytes("Icons"), cols);
    proof {
        reveal(canonical_name);
        reveal(canonical_columns);
        assert(column_triples(r.columns@) =~= canonical_columns(IDX_ICONS as int));
    }
    r
}

/// The declared columns of `ItemSets`.
fn item_sets_spec() -> (r: TableSpec)
    ensures
        r.name@ == canonical_name(IDX_ITEM_SETS as int),
        column_triples(r.columns@) == canonical_columns(IDX_ITEM_SETS as int),
{
    let mut cols: Vec<ColumnSpec> = Vec::new();
    cols.push(col("itemIDs", ValueKind::Text, false));
    cols.push(col("kitType", ValueKind::Integer32, false));
    cols.push(col("kitRank", ValueKind::Integer32, false));
    cols.push(col("kitImage", ValueKind::Integer32, true));
    let r = TableSpec::new(name_bytes("ItemSets"), cols);
    proof {
        reveal(canonical_name);
        reveal(canonical_columns);
        assert(column_triples(r.columns@) =~= canonical_columns(IDX_ITEM_SETS as int));
    }
    r
}

/// The declared columns of `MissionTasks`.
fn mission_tasks_spec() -> (r: TableSpec)
    ensures
        r.name@ == canonical_name(IDX_MISSION_TASKS as int),
        column_triples(r.columns@) == canonical_columns(IDX_MISSION_TASKS as int),
{
    let mut cols: Vec<ColumnSpec> = Vec::new();
    cols.push(col("id", ValueKind::Integer32, false));
    cols.push(col("locStatus", ValueKind::Integer32, false));
    cols.push(col("taskType", ValueKind::Integer32, false));
    cols.push(col("target", ValueKind::Integer32, true));
    cols.push(col("targetGroup", ValueKind::Text, true));
    cols.push(col("targetValue", ValueKind::Integer32, true));
    cols.push(col("taskParam1", ValueKind::Text, true));
    cols.push(col("largeTaskIcon", ValueKind::Text, true));
    cols.push(col("IconID", ValueKind::Integer32, true));
    cols.push(col("uid", ValueKind::Integer32, false));
    cols.push(col("largeTaskIconID", ValueKind::Integer32, true));
    cols.push(col("localize", ValueKind::Boolean, false));
    cols.push(col("gate_version", ValueKind::Text, true));
    let r = TableSpec::new(name_bytes("MissionTasks"), cols);
    proof {
        reveal(canonical_name);
        reveal(canonical_columns);
        assert(column_triples(r.columns@) =~= canonical_columns(IDX_MISSION_TASKS as int));
    }
    r
}

/// The declared columns of `Missions`.
fn missions_spec() -> (r: TableSpec)
    ensures
        r.name@ == canonical_name(IDX_MISSIONS as int),
        column_triples(r.columns@) == canonical_columns(IDX_MISSIONS as int),
{
    let mut cols: Vec<ColumnSpec> = Vec::new();
    cols.push(col("id", ValueKind::Integer32, false));
    cols.push(col("defined_type", ValueKind::Text, true));
    cols.push(col("defined_subtype", ValueKind::Text, true));
    cols.push(col("isMission", ValueKind::Boolean, false));
    cols.push(col("UISortOrder", ValueKind::Integer32, true));
    cols.push(col("missionIconID", ValueKind::Integer32, true));
    let r = TableSpec::new(name_bytes("Missions"), cols);
    proof {
        reveal(canonical_name);
        reveal(canonical_columns);
        assert(column_triples(r.columns@) =~= canonical_columns(IDX_MISSIONS as int));
    }
    r
}

/// The declared columns of `Objects`.
fn objects_spec() -> (r: TableSpec)
    ensures
        r.name@ == canonical_name(IDX_OBJECTS as int),
        column_triples(r.columns@) == canonical_columns(IDX_OBJECTS as int),
{
    let mut cols: Vec<ColumnSpec> = Vec::new();
    cols.push(col("id", ValueKind::Integer32, false));
    cols.push(col("name", ValueKind::Text, false));
    cols.push(col("placeable", ValueKind::Boolean, false));
    cols.push(col("type", ValueKind::Text, false));
    cols.push(col("description", ValueKind::Text, true));
    cols.push(col("localize", ValueKind::Boolean, false));
    cols.push(col("npcTemplateID", ValueKind::Integer32, true));
    cols.push(col("displayName", ValueKind::Text, true));
    cols.push(col("interactionDistance", ValueKind::Float32, true));
    cols.push(col("nametag", ValueKind::Boolean, false));
    cols.push(col("_internalNotes", ValueKind::Text, true));
    cols.push(col("locStatus", ValueKind::Integer32, false));
    cols.push(col("gate_version", ValueKind::Text, true));
    cols.push(col("HQ_valid", ValueKind::Boolean, false));
    let r = TableSpec::new(name_bytes("Objects"), cols);
    proof {
        reveal(canonical_name);
        reveal(canonical_columns);
        assert(column_triples(r.columns@) =~= canonical_columns(IDX_OBJECTS as int));
    }
    r
}

/// The declared columns of `SkillBehavior`.
fn skill_behavior_spec() -> (r: TableSpec)
    ensures
        r.name@ == canonical_name(IDX_SKILL_BEHAVIOR as int),
        column_triples(r.columns@) == canonical_columns(IDX_SKILL_BEHAVIOR as int),
{
    let mut cols: Vec<ColumnSpec> = Vec::new();
    cols.push(col("skillID", ValueKind::Integer32, false));
    cols.push(col("locStatus", ValueKind::Integer32, false));
    cols.push(col("behaviorID", ValueKind::Integer32, false));
    cols.push(col("imaginationcost", ValueKind::Integer32, false));
    cols.push(col("cooldowngroup", ValueKind::Integer32, false));
    cols.push(col("cooldown", ValueKind::Float32, false));
    cols.push(col("inNpcEditor", ValueKind::Boolean, false));
    cols.push(col("skillIcon", ValueKind::Integer32, false));
    cols.push(col("oomSkillID", ValueKind::Text, false));
    cols.push(col("oomBehaviorEffectID", ValueKind::Integer32, false));
    cols.push(col("castTypeDesc", ValueKind::Integer32, false));
    cols.push(col("imBonusUI", ValueKind::Integer32, false));
    cols.push(col("lifeBonusUI", ValueKind::Integer32, false));
    cols.push(col("armorBonusUI", ValueKind::Integer32, false));
    cols.push(col("damageUI", ValueKind::Integer32, false));
    cols.push(col("hideIcon", ValueKind::Boolean, false));
    cols.push(col("localize", ValueKind::Boolean, false));
    cols.push(col("gate_version", ValueKind::Text, false));
    cols.push(col("cancelType", ValueKind::Integer32, false));
    let r = TableSpec::new(name_bytes("SkillBehavior"), cols);
    proof {
        reveal(canonical_name);
        reveal(canonical_columns);
        assert(column_triples(r.columns@) =~= canonical_columns(IDX_SKILL_BEHAVIOR as int));
    }
    r
}

/// The canonical assembly plan: the full table list in its fixed order.
pub fn default_plan() -> (r: Plan)
    ensures
        canonical_plan(r),
{
    let mut entries: Vec<PlanEntry> = Vec::new();
    entries.push(PlanEntry { decl: bare("Activities"), required: true });
    entries.push(PlanEntry { decl: bare("ActivityText"), required: true });
    entries.push(PlanEntry { decl: bare("BehaviorParameter"), required: true });
    entries.push(PlanEntry { decl: bare("BehaviorTemplate"), required: true });
    entries.push(PlanEntry { decl: bare("CollectibleComponent"), required: true });
    entries.push(PlanEntry { decl: components_registry_spec(), required: true });
    entries.push(PlanEntry { decl: bare("CurrencyDenominations"), required: true });
    entries.push(PlanEntry { decl: bare("DeletionRestrictions"), required: true });
    entries.push(PlanEntry { decl: bare("DestructibleComponent"), required: true });
    entries.push(PlanEntry { decl: bare("Emotes"), required: true });
    entries.push(PlanEntry { decl: icons_spec(), required: true });
    entries.push(PlanEntry { decl: bare("InventoryComponent"), required: true });
    entries.push(PlanEntry { decl: bare("ItemComponent"), required: true });
    entries.push(PlanEntry { decl: item_sets_spec(), required: true });
    entries.push(PlanEntry { decl: bare("ItemSetSkills"), required: true });
    entries.push(PlanEntry { decl: bare("JetPackPadComponent"), required: false });
    entries.push(PlanEntry { decl: bare("LootTable"), required: true });
    entries.push(PlanEntry { decl: bare("LootMatrix"), required: true });
    entries.push(PlanEntry { decl: bare("MissionEmail"), required: true });
    entries.push(PlanEntry { decl: bare("MissionNPCComponent"), required: true });
    entries.push(PlanEntry { decl: mission_tasks_spec(), required: true });
    entries.push(PlanEntry { decl: bare("MissionText"), required: true });
    entries.push(PlanEntry { decl: missions_spec(), required: true });
    entries.push(PlanEntry { decl: bare("NpcIcons"), required: true });
    entries.push(PlanEntry { decl: objects_spec(), required: true });
    entries.push(PlanEntry { decl: bare("ObjectSkills"), required: true });
    entries.push(PlanEntry { decl: bare("PlayerStatistics"), required: true });
    entries.push(PlanEntry { decl: bare("Preconditions"), required: true });
    entries.push(PlanEntry { decl: bare("PropertyTemplate"), required: true });
    entries.push(PlanEntry { decl: bare("RebuildComponent"), required: true });
    entries.push(PlanEntry { decl: bare("RebuildSections"), required: false });
    entries.push(PlanEntry { decl: bare("Rewards"), required: true });
    entries.push(PlanEntry { decl: bare("RewardCodes"), required: true });
    entries.push(PlanEntry { decl: bare("RenderComponent"), required: true });
    entries.push(PlanEntry { decl: skill_behavior_spec(), required: true });
    entries.push(PlanEntry { decl: bare("SpeedchatMenu"), required: true });
    entries.push(PlanEntry { decl: bare("TamingBuildPuzzles"), required: true });
    entries.push(PlanEntry { decl: bare("UGBehaviorSounds"), required: true });
    entries.push(PlanEntry { decl: bare("WhatsCoolItemSpotlight"), required: true });
    entries.push(PlanEntry { decl: bare("WhatsCoolNewsAndTips"), required: true });
    entries.push(PlanEntry { decl: bare("ZoneLoadingTips"), required: true });
    entries.push(PlanEntry { decl: bare("ZoneTable"), required: true });
    let r = Plan { entries };
    proof {
        reveal(canonical_name);
        reveal(canonical_columns);
        assert(r.entries@.len() == TABLE_COUNT);
        assert forall|i: int| 0 <= i < r.entries@.len() implies {
            &&& (#[trigger] r.entries@[i]).required == canonical_required(i)
            &&& r.entries@[i].decl.name@ == canonical_name(i)
            &&& column_triples(r.entries@[i].decl.columns@) == canonical_columns(i)
        } by {
        if i == 0 {
            assert(r.entries@[0].decl.name@ == canonical_name(0));
            assert(column_triples(r.entries@[0].decl.columns@) == canonical_columns(0));
        } else if i == 1 {
            assert(r.entries@[1].decl.name@ == canonical_name(1));
            assert(column_triples(r.entries@[1].decl.columns@) == canonical_columns(1));
        } else if i == 2 {
            assert(r.entries@[2].decl.name@ == canonical_name(2));
            assert(column_triples(r.entries@[2].decl.columns@) == canonical_columns(2));
        } else if i == 3 {
            assert(r.entries@[3].decl.name@ == canonical_name(3));
            assert(column_triples(r.entries@[3].decl.columns@) == canonical_columns(3));
        } else if i == 4 {
            assert(r.entries@[4].decl.name@ == canonical_name(4));
            assert(column_triples(r.entries@[4].decl.columns@) == canonical_columns(4));
        } else if i == 5 {
            assert(r.entries@[5].decl.name@ == canonical_name(5));
            assert(column_triples(r.entries@[5].decl.columns@) == canonical_columns(5));
        } else if i == 6 {
            assert(r.entries@[6].decl.name@ == canonical_name(6));
            assert(column_triples(r.entries@[6].decl.columns@) == canonical_columns(6));
        } else if i == 7 {
            assert(r.entries@[7].decl.name@ == canonical_name(7));
            assert(column_triples(r.entries@[7].decl.columns@) == canonical_columns(7));
        } else if i == 8 {
            assert(r.entries@[8].decl.name@ == canonical_name(8));
            assert(column_triples(r.entries@[8].decl.columns@) == canonical_columns(8));
        } else if i == 9 {
            assert(r.entries@[9].decl.name@ == canonical_name(9));
            assert(column_triples(r.entries@[9].decl.columns@) == canonical_columns(9));
        } else if i == 10 {
            assert(r.entries@[10].decl.name@ == canonical_name(10));
            assert(column_triples(r.entries@[10].decl.columns@) == canonical_columns(10));
        } else if i == 11 {
            assert(r.entries@[11].decl.name@ == canonical_name(11));
            assert(column_triples(r.entries@[11].decl.columns@) == canonical_columns(11));
        } else if i == 12 {
            assert(r.entries@[12].decl.name@ == canonical_name(12));
            assert(column_triples(r.entries@[12].decl.columns@) == canonical_columns(12));
        } else if i == 13 {
            assert(r.entries@[13].decl.name@ == canonical_name(13));
            assert(column_triples(r.entries@[13].decl.columns@) == canonical_columns(13));
        } else if i == 14 {
            assert(r.entries@[14].decl.name@ == canonical_name(14));
            assert(column_triples(r.entries@[14].decl.columns@) == canonical_columns(14));
        } else if i == 15 {
            assert(r.entries@[15].decl.name@ == canonical_name(15));
            assert(column_triples(r.entries@[15].decl.columns@) == canonical_columns(15));
        } else if i == 16 {
            assert(r.entries@[16].decl.name@ == canonical_name(16));
            assert(column_triples(r.entries@[16].decl.columns@) == canonical_columns(16));
        } else if i == 17 {
            assert(r.entries@[17].decl.name@ == canonical_name(17));
            assert(column_triples(r.entries@[17].decl.columns@) == canonical_columns(17));
        } else if i == 18 {
            assert(r.entries@[18].decl.name@ == canonical_name(18));
            assert(column_triples(r.entries@[18].decl.columns@) == canonical_columns(18));
        } else if i == 19 {
            assert(r.entries@[19].decl.name@ == canonical_name(19));
            assert(column_triples(r.entries@[19].decl.columns@) == canonical_columns(19));
        } else if i == 20 {
            assert(r.entries@[20].decl.name@ == canonical_name(20));
            assert(column_triples(r.entries@[20].decl.columns@) == canonical_columns(20));
        } else if i == 21 {
            assert(r.entries@[21].decl.name@ == canonical_name(21));
            assert(column_triples(r.entries@[21].decl.columns@) == canonical_columns(21));
        } else if i == 22 {
            assert(r.entries@[22].decl.name@ == canonical_name(22));
            assert(column_triples(r.entries@[22].decl.columns@) == canonical_columns(22));
        } else if i == 23 {
            assert(r.entries@[23].decl.name@ == canonical_name(23));
            assert(column_triples(r.entries@[23].decl.columns@) == canonical_columns(23));
        } else if i == 24 {
            assert(r.entries@[24].decl.name@ == canonical_name(24));
            assert(column_triples(r.entries@[24].decl.columns@) == canonical_columns(24));
        } else if i == 25 {
            assert(r.entries@[25].decl.name@ == canonical_name(25));
            assert(column_triples(r.entries@[25].decl.columns@) == canonical_columns(25));
        } else if i == 26 {
            assert(r.entries@[26].decl.name@ == canonical_name(26));
            assert(column_triples(r.entries@[26].decl.columns@) == canonical_columns(26));
        } else if i == 27 {
            assert(r.entries@[27].decl.name@ == canonical_name(27));
            assert(column_triples(r.entries@[27].decl.columns@) == canonical_columns(27));
        } else if i == 28 {
            assert(r.entries@[28].decl.name@ == canonical_name(28));
            assert(column_triples(r.entries@[28].decl.columns@) == canonical_columns(28));
        } else if i == 29 {
            assert(r.entries@[29].decl.name@ == canonical_name(29));
            assert(column_triples(r.entries@[29].decl.columns@) == canonical_columns(29));
        } else if i == 30 {
            assert(r.entries@[30].decl.name@ == canonical_name(30));
            assert(column_triples(r.entries@[30].decl.columns@) == canonical_columns(30));
        } else if i == 31 {
            assert(r.entries@[31].decl.name@ == canonical_name(31));
            assert(column_triples(r.entries@[31].decl.columns@) == canonical_columns(31));
        } else if i == 32 {
            assert(r.entries@[32].decl.name@ == canonical_name(32));
            assert(column_triples(r.entries@[32].decl.columns@) == canonical_columns(32));
        } else if i == 33 {
            assert(r.entries@[33].decl.name@ == canonical_name(33));
            assert(column_triples(r.entries@[33].decl.columns@) == canonical_columns(33));
        } else if i == 34 {
            assert(r.entries@[34].decl.name@ == canonical_name(34));
            assert(column_triples(r.entries@[34].decl.columns@) == canonical_columns(34));
        } else if i == 35 {
            assert(r.entries@[35].decl.name@ == canonical_name(35));
            assert(column_triples(r.entries@[35].decl.columns@) == canonical_columns(35));
        } else if i == 36 {
            assert(r.entries@[36].decl.name@ == canonical_name(36));
            assert(column_triples(r.entries@[36].decl.columns@) == canonical_columns(36));
        } else if i == 37 {
            assert(r.entries@[37].decl.name@ == canonical_name(37));
            assert(column_triples(r.entries@[37].decl.columns@) == canonical_columns(37));
        } else if i == 38 {
            assert(r.entries@[38].decl.name@ == canonical_name(38));
            assert(column_triples(r.entries@[38].decl.columns@) == canonical_columns(38));
        } else if i == 39 {
            assert(r.entries@[39].decl.name@ == canonical_name(39));
            assert(column_triples(r.entries@[39].decl.columns@) == canonical_columns(39));
        } else if i == 40 {
            assert(r.entries@[40].decl.name@ == canonical_name(40));
            assert(column_triples(r.entries@[40].decl.columns@) == canonical_columns(40));
        } else if i == 41 {
            assert(r.entries@[41].decl.name@ == canonical_name(41));
            assert(column_triples(r.entries@[41].decl.columns@) == canonical_columns(41));
        }
        }
    }
    r
}

} // verus!
