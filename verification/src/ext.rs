//! Domain types and per-table helpers layered over the generic views.
//!
//! These are ordinary callers of the core: they wrap one [`TableView`] each
//! and read a handful of well-known columns into small plain structs.

use vstd::prelude::*;

use crate::binding::ColumnId;
use crate::database::{
    canonical_columns, canonical_plan, column_triples, TypedDatabase, IDX_ITEM_SETS,
    IDX_MISSION_TASKS, IDX_OBJECTS, IDX_SKILL_BEHAVIOR,
};
use crate::bytes::clone_bytes;
use crate::store::{FieldValue, PhysRow};
use crate::text::{parse_id_list, parse_id_list_spec};
use crate::view::{
    bucket_index_spec_of, col_resolution, field_as_integer, first_key_match, matching_indices,
    row_indices, RowView, TableView,
};

verus! {

/// The field of a row at a resolved index, read as an integer.
pub open spec fn opt_field_as_integer(row: PhysRow, idx: Option<int>) -> Option<i32> {
    match idx {
        None => None,
        Some(i) => field_as_integer(row, i),
    }
}

/// The field of a row at a resolved index, read as a boolean.
pub open spec fn opt_field_as_boolean(row: PhysRow, idx: Option<int>) -> Option<bool> {
    match idx {
        None => None,
        Some(i) => if 0 <= i < row.fields@.len() {
            match row.fields@[i] {
                FieldValue::Boolean(b) => Some(b),
                _ => None,
            }
        } else {
            None
        },
    }
}

/// The field of a row at a resolved index, read as Latin-1 text.
pub open spec fn opt_field_as_text(row: PhysRow, idx: Option<int>) -> Option<Seq<u8>> {
    match idx {
        None => None,
        Some(i) => if 0 <= i < row.fields@.len() {
            match row.fields@[i] {
                FieldValue::Text(s) => Some(s@),
                _ => None,
            }
        } else {
            None
        },
    }
}

/// The rows of the bucket that `key` selects in the view's table.
pub open spec fn bucket_rows(v: TableView, key: i32) -> Seq<PhysRow> {
    v.table.buckets@[bucket_index_spec_of(v, key)].rows@
}

/// The row a point lookup of `key` settles on: the first row of the key's
/// bucket whose first field holds exactly `key`.
pub open spec fn found_row(v: TableView, key: i32) -> Option<PhysRow> {
    match first_key_match(bucket_rows(v, key), key) {
        None => None,
        Some(j) => Some(bucket_rows(v, key)[j]),
    }
}

/// Well-known components of an object.
#[derive(Debug, Copy, Clone, Default, PartialEq, Eq, Structural)]
pub struct Components {
    /// The render component of the object.
    pub render: Option<i32>,
}

/// Data for an item set.
#[derive(Debug, Clone)]
pub struct ItemSet {
    /// The object IDs that make up this set.
    pub item_ids: Vec<i32>,
    /// The kit faction of this set.
    pub kit_type: i32,
    /// The rank of the set.
    pub kit_rank: i32,
    /// The ID of the image used to present the set.
    pub kit_image: Option<i32>,
}

/// Metadata for a mission.
#[derive(Debug, Copy, Clone, Default, PartialEq, Eq, Structural)]
pub struct Mission {
    /// The icon ID of the mission.
    pub mission_icon_id: Option<i32>,
    /// True for missions, false for achievements.
    pub is_mission: bool,
}

/// Data for a mission task.
#[derive(Debug, Copy, Clone, Default, PartialEq, Eq, Structural)]
pub struct MissionTask {
    /// The icon ID for the task.
    pub icon_id: Option<i32>,
    /// The unique ID of the task.
    pub uid: i32,
}

/// The kind of an entry in the `Missions` table.
#[derive(Debug, Copy, Clone, PartialEq, Eq, Structural)]
pub enum MissionKind {
    /// The entry is an achievement (active by default).
    Achievement,
    /// The entry is a mission (has offer and target NPCs).
    Mission,
}

/// Metadata for an object.
#[derive(Debug, Clone)]
pub struct ObjectRef {
    /// The id of the object.
    pub id: i32,
    /// The name of the object, as Latin-1 bytes.
    pub name: Vec<u8>,
}

/// Data for a skill.
#[derive(Debug, Copy, Clone, PartialEq, Eq, Structural)]
pub struct SkillBehavior {
    /// The icon of the skill.
    pub skill_icon: Option<i32>,
}

/// Data for mission tasks.
#[derive(Debug, Copy, Clone, PartialEq, Eq, Structural)]
pub struct MissionTaskIcon {
    /// The uid of the task.
    pub uid: i32,
    /// The icon of the task.
    pub large_task_icon_id: Option<i32>,
}

/// A typed handle on the `ItemSets` table.
pub struct ItemSetsTable<'a, 'b> {
    /// The underlying view.
    pub view: &'b TableView<'a>,
}

/// A typed handle on the `SkillBehavior` table.
pub struct SkillBehaviorTable<'a, 'b> {
    /// The underlying view.
    pub view: &'b TableView<'a>,
}

/// A typed handle on the `MissionTasks` table.
pub struct MissionTasksTable<'a, 'b> {
    /// The underlying view.
    pub view: &'b TableView<'a>,
}

/// A typed handle on the `Objects` table.
pub struct ObjectsTable<'a, 'b> {
    /// The underlying view.
    pub view: &'b TableView<'a>,
}

/// What `ItemSetsTable::get_data` finds for a key: nothing when no row
/// holds the key; otherwise the kit fields of the first such row, with the
/// non-nullable ones degraded to defaults when null. These hand-written
/// queries read raw fields directly and report no diagnostics; the
/// diagnostic-complete path is the extractor ([`crate::extract`]) and row
/// serialization.
pub open spec fn item_set_of(v: TableView, id: i32) -> Option<(Seq<i32>, i32, i32, Option<i32>)> {
    match found_row(v, id) {
        None => None,
        Some(row) => {
            let ids = match opt_field_as_text(row, col_resolution(v, 0)) {
                Some(s) => parse_id_list_spec(s),
                None => Seq::empty(),
            };
            let kit_type = match opt_field_as_integer(row, col_resolution(v, 1)) {
                Some(x) => x,
                None => 0,
            };
            let kit_rank = match opt_field_as_integer(row, col_resolution(v, 2)) {
                Some(x) => x,
                None => 0,
            };
            let kit_image = opt_field_as_integer(row, col_resolution(v, 3));
            Some((ids, kit_type, kit_rank, kit_image))
        },
    }
}

impl<'a, 'b> ItemSetsTable<'a, 'b> {
    /// Get data for a specific item set: the first row holding the key,
    /// with its comma-separated item ID list parsed.
    pub fn get_data(&self, id: i32) -> (r: Option<ItemSet>)
        requires
            self.view.wf(),
            self.view.binding.columns@.len() == 4,
        ensures
            match r {
                None => item_set_of(*self.view, id) is None,
                Some(is) => item_set_of(*self.view, id) matches Some((ids, kt, kr, ki))
                    && is.item_ids@ == ids && is.kit_type == kt && is.kit_rank == kr
                    && is.kit_image == ki,
            },
    {
        let v = self.view;
        match v.first_with_key(id) {
            None => None,
            Some(rv) => {
                let row = rv.phys();
                let item_ids = match read_text_col(v, row, 0) {
                    Some(s) => parse_id_list(s.as_slice()),
                    None => Vec::new(),
                };
                let kit_type = match read_int_col(v, row, 1) {
                    Some(x) => x,
                    None => 0,
                };
                let kit_rank = match read_int_col(v, row, 2) {
                    Some(x) => x,
                    None => 0,
                };
                let kit_image = read_int_col(v, row, 3);
                Some(ItemSet { item_ids, kit_type, kit_rank, kit_image })
            },
        }
    }
}

/// What `SkillBehaviorTable::get_data` finds for a key.
pub open spec fn skill_behavior_of(v: TableView, id: i32) -> Option<Option<i32>> {
    match found_row(v, id) {
        None => None,
        Some(row) => Some(opt_field_as_integer(row, col_resolution(v, 7))),
    }
}

impl<'a, 'b> SkillBehaviorTable<'a, 'b> {
    /// Get the data for a skill: the icon of the first row holding the key.
    pub fn get_data(&self, id: i32) -> (r: Option<SkillBehavior>)
        requires
            self.view.wf(),
            self.view.binding.columns@.len() == 19,
        ensures
            match r {
                None => skill_behavior_of(*self.view, id) is None,
                Some(sb) => skill_behavior_of(*self.view, id) == Some(sb.skill_icon),
            },
    {
        let v = self.view;
        match v.first_with_key(id) {
            None => None,
            Some(rv) => {
                let row = rv.phys();
                Some(SkillBehavior { skill_icon: read_int_col(v, row, 7) })
            },
        }
    }
}

/// The task icon read out of one `MissionTasks` row: the uid (zero when
/// null, silently — this query bypasses the extractor's diagnostics) and
/// the large task icon ID.
pub open spec fn task_icon_of(v: TableView, row: PhysRow) -> MissionTaskIcon {
    MissionTaskIcon {
        uid: match opt_field_as_integer(row, col_resolution(v, 9)) {
            Some(u) => u,
            None => 0,
        },
        large_task_icon_id: opt_field_as_integer(row, col_resolution(v, 10)),
    }
}

impl<'a, 'b> MissionTasksTable<'a, 'b> {
    /// Get metadata for all tasks associated with a mission: one entry per
    /// row of the key's bucket holding the key, in stored order.
    pub fn as_task_icon_iter(&self, key: i32) -> (r: Vec<MissionTaskIcon>)
        requires
            self.view.wf(),
            self.view.binding.columns@.len() == 13,
        ensures
            ({
                let rows = bucket_rows(*self.view, key);
                let mi = matching_indices(rows, key);
                &&& r@.len() == mi.len()
                &&& forall|k: int| 0 <= k < r@.len() ==> #[trigger] r@[k] == task_icon_of(
                    *self.view,
                    rows[mi[k]],
                )
            }),
    {
        let v = self.view;
        let rvs = v.key_lookup(key);
        let mut out: Vec<MissionTaskIcon> = Vec::new();
        let mut k: usize = 0;
        while k < rvs.len()
            invariant
                v.wf(),
                v.binding.columns@.len() == 13,
                k <= rvs@.len(),
                out@.len() == k as int,
                row_indices(rvs@) == matching_indices(bucket_rows(*v, key), key),
                forall|m: int|
                    0 <= m < rvs@.len() ==> {
                        &&& (#[trigger] rvs@[m]).table == v
                        &&& rvs@[m].bucket as int == bucket_index_spec_of(*v, key)
                        &&& rvs@[m].wf()
                    },
                forall|m: int| 0 <= m < k ==> #[trigger] out@[m] == task_icon_of(
                    *v,
                    bucket_rows(*v, key)[matching_indices(bucket_rows(*v, key), key)[m]],
                ),
            decreases rvs@.len() - k,
        {
            let rv = rvs[k];
            let row = rv.phys();
            proof {
                assert(row_indices(rvs@)[k as int] == rvs@[k as int].row as int);
                assert(rv.phys_row() == bucket_rows(*v, key)[matching_indices(
                    bucket_rows(*v, key),
                    key,
                )[k as int]]);
            }
            let uid = match read_int_col(v, row, 9) {
                Some(u) => u,
                None => 0,
            };
            let large_task_icon_id = read_int_col(v, row, 10);
            out.push(MissionTaskIcon { uid, large_task_icon_id });
            k = k + 1;
        }
        out
    }
}

/// Read a well-known column of a row as an integer: nothing when the
/// column is unresolved, the row too short, or the field not an integer.
pub fn read_int_col(v: &TableView, row: &PhysRow, c: usize) -> (r: Option<i32>)
    requires
        v.wf(),
        c < v.binding.columns@.len(),
    ensures
        r == opt_field_as_integer(*row, col_resolution(*v, c as int)),
{
    match v.get_col(ColumnId { index: c }) {
        None => None,
        Some(i) => match row.field_at(i) {
            Some(f) => match f {
                FieldValue::Integer32(x) => Some(*x),
                _ => None,
            },
            None => None,
        },
    }
}

/// Read a well-known column of a row as a boolean.
pub fn read_bool_col(v: &TableView, row: &PhysRow, c: usize) -> (r: Option<bool>)
    requires
        v.wf(),
        c < v.binding.columns@.len(),
    ensures
        r == opt_field_as_boolean(*row, col_resolution(*v, c as int)),
{
    match v.get_col(ColumnId { index: c }) {
        None => None,
        Some(i) => match row.field_at(i) {
            Some(f) => match f {
                FieldValue::Boolean(x) => Some(*x),
                _ => None,
            },
            None => None,
        },
    }
}

/// Read a well-known column of a row as Latin-1 text.
pub fn read_text_col(v: &TableView, row: &PhysRow, c: usize) -> (r: Option<Vec<u8>>)
    requires
        v.wf(),
        c < v.binding.columns@.len(),
    ensures
        match r {
            Some(s) => opt_field_as_text(*row, col_resolution(*v, c as int)) == Some(s@),
            None => opt_field_as_text(*row, col_resolution(*v, c as int)) is None,
        },
{
    match v.get_col(ColumnId { index: c }) {
        None => None,
        Some(i) => match row.field_at(i) {
            Some(f) => match f {
                FieldValue::Text(s) => Some(clone_bytes(s)),
                _ => None,
            },
            None => None,
        },
    }
}

/// The object reference read out of one `Objects` row: the id (zero when
/// null) and the name (empty when null).
pub open spec fn object_ref_of(v: TableView, row: PhysRow) -> (i32, Seq<u8>) {
    (
        match opt_field_as_integer(row, col_resolution(v, 0)) {
            Some(x) => x,
            None => 0,
        },
        match opt_field_as_text(row, col_resolution(v, 1)) {
            Some(s) => s,
            None => Seq::empty(),
        },
    )
}

impl<'a, 'b> ObjectsTable<'a, 'b> {
    /// Iterate over all object references: one per row, in table order.
    pub fn ref_iter(&self) -> (r: Vec<ObjectRef>)
        requires
            self.view.wf(),
            self.view.binding.columns@.len() == 14,
        ensures
            ({
                let pairs = crate::view::scan_pairs(self.view.table.buckets@);
                &&& r@.len() == pairs.len()
                &&& forall|k: int|
                    0 <= k < r@.len() ==> {
                        let row =
                            self.view.table.buckets@[pairs[k].0].rows@[pairs[k].1];
                        ((#[trigger] r@[k]).id, r@[k].name@) == object_ref_of(*self.view, row)
                    }
            }),
    {
        let v = self.view;
        let rvs = v.rows();
        let mut out: Vec<ObjectRef> = Vec::new();
        let mut k: usize = 0;
        while k < rvs.len()
            invariant
                v.wf(),
                v.binding.columns@.len() == 14,
                k <= rvs@.len(),
                out@.len() == k as int,
                crate::view::row_positions(rvs@) == crate::view::scan_pairs(v.table.buckets@),
                forall|m: int| 0 <= m < rvs@.len() ==> (#[trigger] rvs@[m]).table == v
                    && rvs@[m].wf(),
                forall|m: int|
                    0 <= m < k ==> {
                        let pairs = crate::view::scan_pairs(v.table.buckets@);
                        let row = v.table.buckets@[pairs[m].0].rows@[pairs[m].1];
                        ((#[trigger] out@[m]).id, out@[m].name@) == object_ref_of(*v, row)
                    },
            decreases rvs@.len() - k,
        {
            let rv = rvs[k];
            let row = rv.phys();
            proof {
                assert(crate::view::row_positions(rvs@)[k as int] == (
                    rvs@[k as int].bucket as int,
                    rvs@[k as int].row as int,
                ));
            }
            let id = match read_int_col(v, row, 0) {
                Some(x) => x,
                None => 0,
            };
            let name = match read_text_col(v, row, 1) {
                Some(s) => s,
                None => Vec::new(),
            };
            out.push(ObjectRef { id, name });
            k = k + 1;
        }
        out
    }
}

impl<'a> TypedDatabase<'a> {
    /// The typed handle on the `ItemSets` table.
    pub fn item_sets<'b>(&'b self) -> (r: ItemSetsTable<'a, 'b>)
        requires
            self.wf(),
            canonical_plan(self.plan),
        ensures
            *r.view == self.view_of(IDX_ITEM_SETS as int),
            r.view.wf(),
            r.view.binding.columns@.len() == 4,
    {
        proof {
            reveal(crate::database::canonical_columns);
            assert(canonical_columns(IDX_ITEM_SETS as int).len() == 4);
            assert(column_triples(self.plan.entries@[IDX_ITEM_SETS as int].decl.columns@).len()
                == self.plan.entries@[IDX_ITEM_SETS as int].decl.columns@.len());
        }
        ItemSetsTable { view: self.required_view(IDX_ITEM_SETS) }
    }

    /// The typed handle on the `SkillBehavior` table.
    pub fn skills<'b>(&'b self) -> (r: SkillBehaviorTable<'a, 'b>)
        requires
            self.wf(),
            canonical_plan(self.plan),
        ensures
            *r.view == self.view_of(IDX_SKILL_BEHAVIOR as int),
            r.view.wf(),
            r.view.binding.columns@.len() == 19,
    {
        proof {
            reveal(crate::database::canonical_columns);
            assert(canonical_columns(IDX_SKILL_BEHAVIOR as int).len() == 19);
            assert(column_triples(self.plan.entries@[IDX_SKILL_BEHAVIOR as int].decl.columns@).len()
                == self.plan.entries@[IDX_SKILL_BEHAVIOR as int].decl.columns@.len());
        }
        SkillBehaviorTable { view: self.required_view(IDX_SKILL_BEHAVIOR) }
    }

    /// The typed handle on the `MissionTasks` table.
    pub fn mission_tasks<'b>(&'b self) -> (r: MissionTasksTable<'a, 'b>)
        requires
            self.wf(),
            canonical_plan(self.plan),
        ensures
            *r.view == self.view_of(IDX_MISSION_TASKS as int),
            r.view.wf(),
            r.view.binding.columns@.len() == 13,
    {
        proof {
            reveal(crate::database::canonical_columns);
            assert(canonical_columns(IDX_MISSION_TASKS as int).len() == 13);
            assert(column_triples(self.plan.entries@[IDX_MISSION_TASKS as int].decl.columns@).len()
                == self.plan.entries@[IDX_MISSION_TASKS as int].decl.columns@.len());
        }
        MissionTasksTable { view: self.required_view(IDX_MISSION_TASKS) }
    }

    /// The typed handle on the `Objects` table.
    pub fn objects<'b>(&'b self) -> (r: ObjectsTable<'a, 'b>)
        requires
            self.wf(),
            canonical_plan(self.plan),
        ensures
            *r.view == self.view_of(IDX_OBJECTS as int),
            r.view.wf(),
            r.view.binding.columns@.len() == 14,
    {
        proof {
            reveal(crate::database::canonical_columns);
            assert(canonical_columns(IDX_OBJECTS as int).len() == 14);
            assert(column_triples(self.plan.entries@[IDX_OBJECTS as int].decl.columns@).len()
                == self.plan.entries@[IDX_OBJECTS as int].decl.columns@.len());
        }
        ObjectsTable { view: self.required_view(IDX_OBJECTS) }
    }
}

} // verus!
