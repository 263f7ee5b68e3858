//! Database construction and the domain queries layered on it.
//!
//! These queries compose the core primitives: point lookup by hashed key,
//! well-known column reads through the resolver, and a few positional reads
//! where the store's conventional layout is relied on.

use vstd::prelude::*;

use crate::binding::binding_matches;
use crate::bytes::{bytes_eq, clone_bytes};
use crate::catalog::default_plan;
use crate::binding::compilable_names;
use crate::database::{
    assemble, canonical_col_names, canonical_columns, canonical_name, canonical_plan,
    canonical_required, canonical_store_ok, column_triples, entry_ok, lemma_canonical_entries,
    table_found, views_match, AssembleError, TypedDatabase, IDX_COMPONENTS_REGISTRY, IDX_ICONS,
    IDX_MISSIONS, IDX_MISSION_TASKS, IDX_OBJECTS, IDX_RENDER_COMPONENT, TABLE_COUNT,
};
use crate::ext::{
    bucket_rows, found_row, opt_field_as_boolean, opt_field_as_integer, opt_field_as_text,
    read_bool_col, read_int_col, read_text_col, Components, Mission, MissionTask,
};
use crate::store::{row_has_key, table_shape_ok, FieldValue, PhysRow, PhysTables};
use crate::text::{append_bytes, dec_i32, format_i32};
use crate::view::{
    bucket_index_spec_of, col_resolution, field_as_integer, matching_indices, row_indices,
    TableView,
};

verus! {

impl<'a> TypedDatabase<'a> {
    /// Construct a typed database over a store: assemble the canonical
    /// plan. Succeeds if and only if every mandatory canonical table is
    /// present and every present canonical table has an acceptable shape;
    /// on failure the error names the offending table and the fault.
    pub fn new(tables: &'a PhysTables) -> (r: Result<TypedDatabase<'a>, AssembleError>)
        ensures
            r is Ok <==> canonical_store_ok(*tables),
            r matches Ok(db) ==> db.wf() && canonical_plan(db.plan) && views_match(
                db.plan,
                *tables,
                db.views@,
            ),
            r matches Err(AssembleError::Config { table }) ==> table < TABLE_COUNT
                && !compilable_names(canonical_col_names(table as int)),
            r matches Err(AssembleError::MissingTable { table }) ==> table < TABLE_COUNT
                && canonical_required(table as int) && table_found(
                *tables,
                canonical_name(table as int),
            ) is None,
            r matches Err(AssembleError::Structure { table }) ==> table < TABLE_COUNT && (match
                table_found(*tables, canonical_name(table as int)) {
                Some(t) => !table_shape_ok(tables.tables@[t].table),
                None => false,
            }),
    {
        let plan = default_plan();
        proof {
            lemma_canonical_entries(plan, *tables);
        }
        match assemble(&plan, tables) {
            Ok(views) => {
                let db = TypedDatabase { plan, views };
                proof {
                    assert forall|i: int| 0 <= i < db.views@.len() implies match #[trigger] db
                        .views@[i] {
                        Some(v) => v.wf() && binding_matches(db.plan.entries@[i].decl, v.binding),
                        None => !db.plan.entries@[i].required,
                    } by {
                        assert(entry_ok(db.plan.entries@[i], *tables));
                    }
                }
                Ok(db)
            },
            Err(e) => {
                proof {
                    match e {
                        AssembleError::Config { table } => {
                            assert(!crate::binding::compilable(
                                plan.entries@[table as int].decl.columns@,
                            ));
                        },
                        AssembleError::MissingTable { table } => {
                            assert(plan.entries@[table as int].required == canonical_required(
                                table as int,
                            ));
                            assert(plan.entries@[table as int].decl.name@ == canonical_name(
                                table as int,
                            ));
                        },
                        AssembleError::Structure { table } => {
                            assert(plan.entries@[table as int].decl.name@ == canonical_name(
                                table as int,
                            ));
                        },
                    }
                }
                Err(e)
            },
        }
    }
}

/// What `get_icon_path` finds: the `IconPath` text of the first `Icons` row
/// holding the key.
pub open spec fn icon_path_of(v: TableView, id: i32) -> Option<Seq<u8>> {
    match found_row(v, id) {
        None => None,
        Some(row) => opt_field_as_text(row, col_resolution(v, 0)),
    }
}

/// What `get_mission_data` finds: icon ID and kind flag of the first
/// `Missions` row holding the key, the kind flag defaulting to true.
pub open spec fn mission_of(v: TableView, id: i32) -> Option<Mission> {
    match found_row(v, id) {
        None => None,
        Some(row) => Some(
            Mission {
                mission_icon_id: opt_field_as_integer(row, col_resolution(v, 5)),
                is_mission: match opt_field_as_boolean(row, col_resolution(v, 3)) {
                    Some(b) => b,
                    None => true,
                },
            },
        ),
    }
}

/// The task read out of one `MissionTasks` row: icon ID, and uid with zero
/// substituted when null (silently — this query bypasses the extractor's
/// diagnostics).
pub open spec fn mission_task_of(v: TableView, row: PhysRow) -> MissionTask {
    MissionTask {
        icon_id: opt_field_as_integer(row, col_resolution(v, 8)),
        uid: match opt_field_as_integer(row, col_resolution(v, 9)) {
            Some(u) => u,
            None => 0,
        },
    }
}

/// A row that a render-image lookup settles on: it holds the key and its
/// third field — the icon asset, by the store's positional convention — is
/// text.
pub open spec fn has_render_image(row: PhysRow, key: i32) -> bool {
    row_has_key(row, key) && row.fields@.len() > 2 && row.fields@[2] is Text
}

/// The render image found in a bucket from position `j` on: the text of
/// the first row holding the key whose third field is text. Rows holding
/// the key without a text icon asset are skipped.
pub open spec fn render_image_from(rows: Seq<PhysRow>, j: int, key: i32) -> Option<Seq<u8>>
    decreases rows.len() - j,
{
    if j < 0 || j >= rows.len() {
        None
    } else if has_render_image(rows[j], key) {
        match rows[j].fields@[2] {
            FieldValue::Text(s) => Some(s@),
            _ => None,
        }
    } else {
        render_image_from(rows, j + 1, key)
    }
}

/// What `get_render_image` finds in the key's bucket.
pub open spec fn render_image_of(v: TableView, id: i32) -> Option<Seq<u8>> {
    render_image_from(bucket_rows(v, id), 0, id)
}

/// The render component over a bucket: among the rows holding the key whose
/// second field is the integer 2, the third field of the last one, read as
/// an integer.
pub open spec fn render_of(rows: Seq<PhysRow>, key: i32) -> Option<i32>
    decreases rows.len(),
{
    if rows.len() == 0 {
        None
    } else if row_has_key(rows.last(), key) && field_as_integer(rows.last(), 1) == Some(2i32) {
        field_as_integer(rows.last(), 2)
    } else {
        render_of(rows.drop_last(), key)
    }
}

/// The text in field `i` of a row, when present and non-empty.
pub open spec fn nonempty_text_at(row: PhysRow, i: int) -> Option<Seq<u8>> {
    if 0 <= i < row.fields@.len() {
        match row.fields@[i] {
            FieldValue::Text(s) => if s@.len() > 0 {
                Some(s@)
            } else {
                None
            },
            _ => None,
        }
    } else {
        None
    }
}

/// The bytes of `" ("`.
pub open spec fn lit_open() -> Seq<u8> {
    seq![32u8, 40u8]
}

/// The bytes of `")"`.
pub open spec fn lit_close() -> Seq<u8> {
    seq![41u8]
}

/// The bytes of `") | Object #"`.
pub open spec fn lit_close_object() -> Seq<u8> {
    seq![41u8, 32u8, 124u8, 32u8, 79u8, 98u8, 106u8, 101u8, 99u8, 116u8, 32u8, 35u8]
}

/// The bytes of `" | Object #"`.
pub open spec fn lit_object_sep() -> Seq<u8> {
    seq![32u8, 124u8, 32u8, 79u8, 98u8, 106u8, 101u8, 99u8, 116u8, 32u8, 35u8]
}

/// The bytes of `"Object #"`.
pub open spec fn lit_object() -> Seq<u8> {
    seq![79u8, 98u8, 106u8, 101u8, 99u8, 116u8, 32u8, 35u8]
}

/// The title composed for an object: its display name and name when both
/// are present and differ, else whichever is present, followed by the
/// object number.
pub open spec fn object_title(name: Option<Seq<u8>>, display: Option<Seq<u8>>, id: int) -> Seq<
    u8,
> {
    match (name, display) {
        (Some(n), Some(d)) => if d != n {
            d + lit_open() + n + lit_close_object() + dec_i32(id)
        } else {
            n + lit_object_sep() + dec_i32(id)
        },
        (Some(n), None) => n + lit_object_sep() + dec_i32(id),
        (None, Some(d)) => d + lit_object_sep() + dec_i32(id),
        (None, None) => lit_object() + dec_i32(id),
    }
}

/// The description composed for an object: its description and internal
/// notes when both are present and differ, else whichever is present.
pub open spec fn object_desc(description: Option<Seq<u8>>, notes: Option<Seq<u8>>) -> Seq<u8> {
    match (description, notes) {
        (Some(de), Some(no)) => if de != no {
            de + lit_open() + no + lit_close()
        } else {
            de
        },
        (Some(de), None) => de,
        (None, Some(no)) => no,
        (None, None) => Seq::empty(),
    }
}

/// What `get_object_name_desc` yields: title and description composed from
/// the name, description, display-name and internal-notes fields of the
/// first `Objects` row holding the key, at their conventional positions.
pub open spec fn object_name_desc_of(v: TableView, id: i32) -> Option<(Seq<u8>, Seq<u8>)> {
    match found_row(v, id) {
        None => None,
        Some(row) => Some(
            (
                object_title(nonempty_text_at(row, 1), nonempty_text_at(row, 7), id as int),
                object_desc(nonempty_text_at(row, 4), nonempty_text_at(row, 10)),
            ),
        ),
    }
}

/// The text in field `i` of a row, cloned, when present and non-empty.
fn read_pos_text_nonempty(row: &PhysRow, i: usize) -> (r: Option<Vec<u8>>)
    ensures
        match r {
            Some(s) => nonempty_text_at(*row, i as int) == Some(s@) && s@.len() > 0,
            None => nonempty_text_at(*row, i as int) is None,
        },
{
    match row.field_at(i) {
        Some(f) => match f {
            FieldValue::Text(s) => if s.len() > 0 {
                Some(clone_bytes(s))
            } else {
                None
            },
            _ => None,
        },
        None => None,
    }
}

/// Append `" ("`.
fn push_open(out: &mut Vec<u8>)
    ensures
        final(out)@ == old(out)@ + lit_open(),
{
    out.push(32u8);
    out.push(40u8);
    proof {
        assert(final(out)@ =~= old(out)@ + lit_open());
    }
}

/// Append `") | Object #"`.
fn push_close_object(out: &mut Vec<u8>)
    ensures
        final(out)@ == old(out)@ + lit_close_object(),
{
    out.push(41u8);
    out.push(32u8);
    out.push(124u8);
    out.push(32u8);
    out.push(79u8);
    out.push(98u8);
    out.push(106u8);
    out.push(101u8);
    out.push(99u8);
    out.push(116u8);
    out.push(32u8);
    out.push(35u8);
    proof {
        assert(final(out)@ =~= old(out)@ + lit_close_object());
    }
}

/// Append `" | Object #"`.
fn push_object_sep(out: &mut Vec<u8>)
    ensures
        final(out)@ == old(out)@ + lit_object_sep(),
{
    out.push(32u8);
    out.push(124u8);
    out.push(32u8);
    out.push(79u8);
    out.push(98u8);
    out.push(106u8);
    out.push(101u8);
    out.push(99u8);
    out.push(116u8);
    out.push(32u8);
    out.push(35u8);
    proof {
        assert(final(out)@ =~= old(out)@ + lit_object_sep());
    }
}

/// Append `"Object #"`.
fn push_object(out: &mut Vec<u8>)
    ensures
        final(out)@ == old(out)@ + lit_object(),
{
    out.push(79u8);
    out.push(98u8);
    out.push(106u8);
    out.push(101u8);
    out.push(99u8);
    out.push(116u8);
    out.push(32u8);
    out.push(35u8);
    proof {
        assert(final(out)@ =~= old(out)@ + lit_object());
    }
}

impl<'a> TypedDatabase<'a> {
    /// Get the icon path of an icon ID.
    pub fn get_icon_path(&self, id: i32) -> (r: Option<Vec<u8>>)
        requires
            self.wf(),
            canonical_plan(self.plan),
        ensures
            ({
                let m = icon_path_of(self.view_of(IDX_ICONS as int), id);
                match r {
                    Some(x) => m == Some(x@),
                    None => m is None,
                }
            }),
    {
        let v = self.required_view(IDX_ICONS);
        proof {
            reveal(crate::database::canonical_columns);
            assert(canonical_columns(IDX_ICONS as int).len() == 2);
            assert(column_triples(self.plan.entries@[IDX_ICONS as int].decl.columns@).len()
                == self.plan.entries@[IDX_ICONS as int].decl.columns@.len());
            assert(v.binding.columns@.len() == 2);
        }
        match v.first_with_key(id) {
            None => None,
            Some(rv) => read_text_col(v, rv.phys(), 0),
        }
    }

    /// Get data for the specified mission ID.
    pub fn get_mission_data(&self, id: i32) -> (r: Option<Mission>)
        requires
            self.wf(),
            canonical_plan(self.plan),
        ensures
            r == mission_of(self.view_of(IDX_MISSIONS as int), id),
    {
        let v = self.required_view(IDX_MISSIONS);
        proof {
            reveal(crate::database::canonical_columns);
            assert(canonical_columns(IDX_MISSIONS as int).len() == 6);
            assert(column_triples(self.plan.entries@[IDX_MISSIONS as int].decl.columns@).len()
                == self.plan.entries@[IDX_MISSIONS as int].decl.columns@.len());
            assert(v.binding.columns@.len() == 6);
        }
        match v.first_with_key(id) {
            None => None,
            Some(rv) => {
                let row = rv.phys();
                let mission_icon_id = read_int_col(v, row, 5);
                let is_mission = match read_bool_col(v, row, 3) {
                    Some(b) => b,
                    None => true,
                };
                Some(Mission { mission_icon_id, is_mission })
            },
        }
    }

    /// Get the list of mission tasks for the specified mission ID: one per
    /// row of the key's bucket holding the key, in stored order.
    pub fn get_mission_tasks(&self, id: i32) -> (r: Vec<MissionTask>)
        requires
            self.wf(),
            canonical_plan(self.plan),
        ensures
            ({
                let v = self.view_of(IDX_MISSION_TASKS as int);
                let rows = bucket_rows(v, id);
                let mi = matching_indices(rows, id);
                &&& r@.len() == mi.len()
                &&& forall|k: int| 0 <= k < r@.len() ==> #[trigger] r@[k] == mission_task_of(
                    v,
                    rows[mi[k]],
                )
            }),
    {
        let v = self.required_view(IDX_MISSION_TASKS);
        proof {
            reveal(crate::database::canonical_columns);
            assert(canonical_columns(IDX_MISSION_TASKS as int).len() == 13);
            assert(column_triples(self.plan.entries@[IDX_MISSION_TASKS as int].decl.columns@).len()
                == self.plan.entries@[IDX_MISSION_TASKS as int].decl.columns@.len());
            assert(v.binding.columns@.len() == 13);
        }
        let rvs = v.key_lookup(id);
        let mut out: Vec<MissionTask> = Vec::new();
        let mut k: usize = 0;
        while k < rvs.len()
            invariant
                v.wf(),
                v.binding.columns@.len() == 13,
                k <= rvs@.len(),
                out@.len() == k as int,
                row_indices(rvs@) == matching_indices(bucket_rows(*v, id), id),
                forall|m: int|
                    0 <= m < rvs@.len() ==> {
                        &&& (#[trigger] rvs@[m]).table == v
                        &&& rvs@[m].bucket as int == bucket_index_spec_of(*v, id)
                        &&& rvs@[m].wf()
                    },
                forall|m: int| 0 <= m < k ==> #[trigger] out@[m] == mission_task_of(
                    *v,
                    bucket_rows(*v, id)[matching_indices(bucket_rows(*v, id), id)[m]],
                ),
            decreases rvs@.len() - k,
        {
            let rv = rvs[k];
            let row = rv.phys();
            proof {
                assert(row_indices(rvs@)[k as int] == rvs@[k as int].row as int);
                assert(rv.phys_row() == bucket_rows(*v, id)[matching_indices(
                    bucket_rows(*v, id),
                    id,
                )[k as int]]);
            }
            let icon_id = read_int_col(v, row, 8);
            let uid = match read_int_col(v, row, 9) {
                Some(u) => u,
                None => 0,
            };
            out.push(MissionTask { icon_id, uid });
            k = k + 1;
        }
        out
    }

    /// Get the name and description for the specified object ID.
    pub fn get_object_name_desc(&self, id: i32) -> (r: Option<(Vec<u8>, Vec<u8>)>)
        requires
            self.wf(),
            canonical_plan(self.plan),
        ensures
            ({
                let m = object_name_desc_of(self.view_of(IDX_OBJECTS as int), id);
                match r {
                    Some(td) => m == Some((td.0@, td.1@)),
                    None => m is None,
                }
            }),
    {
        let v = self.required_view(IDX_OBJECTS);
        proof {
            reveal(crate::database::canonical_columns);
            assert(canonical_columns(IDX_OBJECTS as int).len() == 14);
            assert(column_triples(self.plan.entries@[IDX_OBJECTS as int].decl.columns@).len()
                == self.plan.entries@[IDX_OBJECTS as int].decl.columns@.len());
            assert(v.binding.columns@.len() == 14);
        }
        match v.first_with_key(id) {
            None => None,
            Some(rv) => {
                let row = rv.phys();
                let name = read_pos_text_nonempty(row, 1);
                let description = read_pos_text_nonempty(row, 4);
                let display = read_pos_text_nonempty(row, 7);
                let notes = read_pos_text_nonempty(row, 10);
                let num = format_i32(id);
                let mut title: Vec<u8> = Vec::new();
                match (&name, &display) {
                    (Some(n), Some(d)) => {
                        if !bytes_eq(d.as_slice(), n.as_slice()) {
                            title = clone_bytes(d);
                            push_open(&mut title);
                            append_bytes(&mut title, n.as_slice());
                            push_close_object(&mut title);
                            append_bytes(&mut title, num.as_slice());
                        } else {
                            title = clone_bytes(n);
                            push_object_sep(&mut title);
                            append_bytes(&mut title, num.as_slice());
                        }
                    },
                    (Some(n), None) => {
                        title = clone_bytes(n);
                        push_object_sep(&mut title);
                        append_bytes(&mut title, num.as_slice());
                    },
                    (None, Some(d)) => {
                        title = clone_bytes(d);
                        push_object_sep(&mut title);
                        append_bytes(&mut title, num.as_slice());
                    },
                    (None, None) => {
                        push_object(&mut title);
                        append_bytes(&mut title, num.as_slice());
                    },
                }
                let mut desc: Vec<u8> = Vec::new();
                match (&description, &notes) {
                    (Some(de), Some(no)) => {
                        if !bytes_eq(de.as_slice(), no.as_slice()) {
                            desc = clone_bytes(de);
                            push_open(&mut desc);
                            append_bytes(&mut desc, no.as_slice());
                            desc.push(41u8);
                            proof {
                                assert(desc@ =~= de@ + lit_open() + no@ + lit_close());
                            }
                        } else {
                            desc = clone_bytes(de);
                        }
                    },
                    (Some(de), None) => {
                        desc = clone_bytes(de);
                    },
                    (None, Some(no)) => {
                        desc = clone_bytes(no);
                    },
                    (None, None) => {
                    },
                }
                proof {
                    let nm = nonempty_text_at(rv.phys_row(), 1);
                    let dp = nonempty_text_at(rv.phys_row(), 7);
                    assert(title@ == object_title(nm, dp, id as int));
                    assert(desc@ == object_desc(
                        nonempty_text_at(rv.phys_row(), 4),
                        nonempty_text_at(rv.phys_row(), 10),
                    ));
                }
                Some((title, desc))
            },
        }
    }

    /// Get the path of the icon asset of the specified render component.
    pub fn get_render_image(&self, id: i32) -> (r: Option<Vec<u8>>)
        requires
            self.wf(),
            canonical_plan(self.plan),
        ensures
            ({
                let m = render_image_of(self.view_of(IDX_RENDER_COMPONENT as int), id);
                match r {
                    Some(x) => m == Some(x@),
                    None => m is None,
                }
            }),
    {
        let v = self.required_view(IDX_RENDER_COMPONENT);
        let hash = crate::store::key_hash(id);
        let b: usize = (hash as usize) % v.table.buckets.len();
        proof {
            assert(b as int == bucket_index_spec_of(*v, id));
        }
        let rows = &v.table.buckets[b].rows;
        let mut j: usize = 0;
        while j < rows.len()
            invariant
                v.wf(),
                b < v.table.buckets@.len(),
                rows@ == v.table.buckets@[b as int].rows@,
                b as int == bucket_index_spec_of(*v, id),
                *v == self.view_of(IDX_RENDER_COMPONENT as int),
                j <= rows@.len(),
                render_image_from(rows@, 0, id) == render_image_from(rows@, j as int, id),
            decreases rows@.len() - j,
        {
            let row = &rows[j];
            if row.has_key(id) {
                match row.field_at(2) {
                    Some(f) => match f {
                        FieldValue::Text(s) => {
                            proof {
                                assert(has_render_image(rows@[j as int], id));
                                assert(render_image_from(rows@, j as int, id) == Some(s@));
                            }
                            return Some(clone_bytes(s));
                        },
                        _ => {
                        },
                    },
                    None => {
                    },
                }
            }
            proof {
                assert(!has_render_image(rows@[j as int], id));
                assert(render_image_from(rows@, j as int, id) == render_image_from(
                    rows@,
                    j as int + 1,
                    id,
                ));
            }
            j = j + 1;
        }
        None
    }

    /// Get all components for the specified object ID.
    pub fn get_components(&self, id: i32) -> (r: Components)
        requires
            self.wf(),
            canonical_plan(self.plan),
        ensures
            ({
                let v = self.view_of(IDX_COMPONENTS_REGISTRY as int);
                r == (Components { render: render_of(bucket_rows(v, id), id) })
            }),
    {
        let v = self.required_view(IDX_COMPONENTS_REGISTRY);
        let hash = crate::store::key_hash(id);
        let b: usize = (hash as usize) % v.table.buckets.len();
        proof {
            assert(b as int == bucket_index_spec_of(*v, id));
        }
        let rows = &v.table.buckets[b].rows;
        let mut render: Option<i32> = None;
        let mut j: usize = 0;
        while j < rows.len()
            invariant
                v.wf(),
                b < v.table.buckets@.len(),
                rows@ == v.table.buckets@[b as int].rows@,
                j <= rows@.len(),
                render == render_of(rows@.take(j as int), id),
            decreases rows@.len() - j,
        {
            let row = &rows[j];
            let matches_key = row.has_key(id);
            let is_type2 = match row.field_at(1) {
                Some(f) => match f {
                    FieldValue::Integer32(x) => *x == 2,
                    _ => false,
                },
                None => false,
            };
            if matches_key && is_type2 {
                render = match row.field_at(2) {
                    Some(f) => match f {
                        FieldValue::Integer32(x) => Some(*x),
                        _ => None,
                    },
                    None => None,
                };
            }
            j = j + 1;
            proof {
                assert(rows@.take(j as int).drop_last() =~= rows@.take(j as int - 1));
                assert(rows@.take(j as int).last() == rows@[j as int - 1]);
            }
        }
        proof {
            assert(rows@.take(rows@.len() as int) =~= rows@);
        }
        Components { render }
    }
}

} // verus!
