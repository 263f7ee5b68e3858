//! Binding compiler: from a [`TableSpec`] to a per-table binding.
//!
//! Compilation is a pure, repeatable step performed once, ahead of any table
//! access. For every declared column it emits exactly one stable column
//! identifier ([`ColumnId`]), one normalized snake-case identifier name and
//! one camel-case variant name. Two columns whose raw names are equal, or
//! whose names normalize to the same identifier, are a configuration fault
//! and compilation fails.

use vstd::prelude::*;

use crate::bytes::{bytes_eq, clone_bytes};
use crate::schema::{column_names, distinct_column_names, first_name_match};
use crate::schema::{lemma_first_name_match, ColumnSpec, TableSpec};

verus! {

/// An ASCII uppercase letter.
pub open spec fn is_upper(b: u8) -> bool {
    65 <= b <= 90
}

/// An ASCII lowercase letter.
pub open spec fn is_lower(b: u8) -> bool {
    97 <= b <= 122
}

/// An ASCII digit.
pub open spec fn is_digit(b: u8) -> bool {
    48 <= b <= 57
}

/// A byte that belongs to a word of an identifier; anything else separates
/// words.
pub open spec fn is_word_byte(b: u8) -> bool {
    is_upper(b) || is_lower(b) || is_digit(b)
}

/// Lowercase an ASCII letter; other bytes are unchanged.
pub open spec fn to_lower_byte(b: u8) -> u8 {
    if is_upper(b) {
        (b + 32) as u8
    } else {
        b
    }
}

/// Uppercase an ASCII letter; other bytes are unchanged.
pub open spec fn to_upper_byte(b: u8) -> u8 {
    if is_lower(b) {
        (b - 32) as u8
    } else {
        b
    }
}

/// A new word starts at position `i`, given that some word byte was already
/// consumed, `pending` says whether a separator byte was seen since, and
/// `prev_upper` says whether the directly preceding word byte was uppercase.
///
/// Besides explicit separators, a word starts at an uppercase letter that
/// follows a lowercase letter or digit, and at the last uppercase letter of
/// an uppercase run that is followed by a lowercase letter.
pub open spec fn word_start(s: Seq<u8>, i: int, pending: bool, prev_upper: bool) -> bool {
    pending || (is_upper(s[i]) && (!prev_upper || (i + 1 < s.len() && is_lower(s[i + 1]))))
}

/// The snake-case normalization of the suffix of `s` from `i` on, given the
/// state reached by the prefix before `i`.
pub open spec fn snake_rec(s: Seq<u8>, i: int, started: bool, pending: bool, prev_upper: bool) -> Seq<
    u8,
>
    decreases s.len() - i,
{
    if i < 0 || i >= s.len() {
        Seq::empty()
    } else {
        let c = s[i];
        if !is_word_byte(c) {
            snake_rec(s, i + 1, started, true, prev_upper)
        } else {
            let head: Seq<u8> = if started && word_start(s, i, pending, prev_upper) {
                seq![95u8, to_lower_byte(c)]
            } else {
                seq![to_lower_byte(c)]
            };
            head + snake_rec(s, i + 1, true, false, is_upper(c))
        }
    }
}

/// The snake-case normalization of a raw column name: words lowercased and
/// joined by underscores, separators collapsed and trimmed.
pub open spec fn snake_norm(s: Seq<u8>) -> Seq<u8> {
    snake_rec(s, 0, false, false, false)
}

/// The camel-case normalization of the suffix of `s` from `i` on, given the
/// state reached by the prefix before `i`.
pub open spec fn camel_rec(s: Seq<u8>, i: int, started: bool, pending: bool, prev_upper: bool) -> Seq<
    u8,
>
    decreases s.len() - i,
{
    if i < 0 || i >= s.len() {
        Seq::empty()
    } else {
        let c = s[i];
        if !is_word_byte(c) {
            camel_rec(s, i + 1, started, true, prev_upper)
        } else {
            let head: Seq<u8> = if !started || word_start(s, i, pending, prev_upper) {
                seq![to_upper_byte(c)]
            } else {
                seq![to_lower_byte(c)]
            };
            head + camel_rec(s, i + 1, true, false, is_upper(c))
        }
    }
}

/// The camel-case normalization of a raw column name: each word with its
/// first letter uppercased and the rest lowercased, concatenated.
pub open spec fn camel_norm(s: Seq<u8>) -> Seq<u8> {
    camel_rec(s, 0, false, false, false)
}

/// The bytes of the keyword `type`.
pub open spec fn kw_type() -> Seq<u8> {
    seq![116u8, 121u8, 112u8, 101u8]
}

/// The bytes of the keyword `static`.
pub open spec fn kw_static() -> Seq<u8> {
    seq![115u8, 116u8, 97u8, 116u8, 105u8, 99u8]
}

/// The escape prefix `r#` put before an identifier that would collide with a
/// keyword.
pub open spec fn raw_prefix() -> Seq<u8> {
    seq![114u8, 35u8]
}

/// The identifier emitted for a raw column name: its snake-case
/// normalization, escaped when it collides with a reserved word. The escape
/// is purely cosmetic; resolution always uses raw names.
pub open spec fn ident_of(name: Seq<u8>) -> Seq<u8> {
    let sn = snake_norm(name);
    if sn == kw_type() || sn == kw_static() {
        raw_prefix() + sn
    } else {
        sn
    }
}

/// Two raw names collide after normalization: either their identifiers or
/// their variant names coincide.
pub open spec fn idents_collide(a: Seq<u8>, b: Seq<u8>) -> bool {
    ident_of(a) == ident_of(b) || camel_norm(a) == camel_norm(b)
}

/// A list of raw column names is compilable: pairwise distinct, and no two
/// normalize to the same identifier.
pub open spec fn compilable_names(names: Seq<Seq<u8>>) -> bool {
    &&& forall|i: int, j: int| 0 <= i < j < names.len() ==> names[i] != names[j]
    &&& forall|i: int, j: int| 0 <= i < j < names.len() ==> !idents_collide(names[i], names[j])
}

/// A column list is compilable: its raw names are.
pub open spec fn compilable(columns: Seq<ColumnSpec>) -> bool {
    compilable_names(column_names(columns))
}

/// Compute the snake-case normalization of a raw name.
pub fn to_snake_case(s: &[u8]) -> (r: Vec<u8>)
    ensures
        r@ == snake_norm(s@),
{
    let mut out: Vec<u8> = Vec::new();
    let mut i: usize = 0;
    let mut started: bool = false;
    let mut pending: bool = false;
    let mut prev_upper: bool = false;
    while i < s.len()
        invariant
            i <= s.len(),
            snake_norm(s@) == out@ + snake_rec(s@, i as int, started, pending, prev_upper),
        decreases s.len() - i,
    {
        let c = s[i];
        let word = (65 <= c && c <= 90) || (97 <= c && c <= 122) || (48 <= c && c <= 57);
        if !word {
            pending = true;
        } else {
            let upper = 65 <= c && c <= 90;
            let boundary = if pending {
                true
            } else if upper {
                if !prev_upper {
                    true
                } else {
                    i + 1 < s.len() && 97 <= s[i + 1] && s[i + 1] <= 122
                }
            } else {
                false
            };
            if started && boundary {
                out.push(95u8);
            }
            out.push(if upper { c + 32 } else { c });
            started = true;
            pending = false;
            prev_upper = upper;
        }
        i = i + 1;
        proof {
            assert(snake_norm(s@) == out@ + snake_rec(s@, i as int, started, pending, prev_upper));
        }
    }
    out
}

/// Compute the camel-case normalization of a raw name.
pub fn to_camel_case(s: &[u8]) -> (r: Vec<u8>)
    ensures
        r@ == camel_norm(s@),
{
    let mut out: Vec<u8> = Vec::new();
    let mut i: usize = 0;
    let mut started: bool = false;
    let mut pending: bool = false;
    let mut prev_upper: bool = false;
    while i < s.len()
        invariant
            i <= s.len(),
            camel_norm(s@) == out@ + camel_rec(s@, i as int, started, pending, prev_upper),
        decreases s.len() - i,
    {
        let c = s[i];
        let word = (65 <= c && c <= 90) || (97 <= c && c <= 122) || (48 <= c && c <= 57);
        if !word {
            pending = true;
        } else {
            let upper = 65 <= c && c <= 90;
            let lower = 97 <= c && c <= 122;
            let boundary = if pending {
                true
            } else if upper {
                if !prev_upper {
                    true
                } else {
                    i + 1 < s.len() && 97 <= s[i + 1] && s[i + 1] <= 122
                }
            } else {
                false
            };
            if !started || boundary {
                out.push(if lower { c - 32 } else { c });
            } else {
                out.push(if upper { c + 32 } else { c });
            }
            started = true;
            pending = false;
            prev_upper = upper;
        }
        i = i + 1;
        proof {
            assert(camel_norm(s@) == out@ + camel_rec(s@, i as int, started, pending, prev_upper));
        }
    }
    out
}

/// Whether an identifier equals a reserved word that needs escaping.
fn is_reserved(b: &[u8]) -> (r: bool)
    ensures
        r == (b@ == kw_type() || b@ == kw_static()),
{
    if b.len() == 4 {
        let r = b[0] == 116 && b[1] == 121 && b[2] == 112 && b[3] == 101;
        proof {
            if r {
                assert(b@ =~= kw_type());
            } else {
                assert(b@ != kw_type());
            }
            assert(b@.len() != kw_static().len());
        }
        r
    } else if b.len() == 6 {
        let r = b[0] == 115 && b[1] == 116 && b[2] == 97 && b[3] == 116 && b[4] == 105 && b[5]
            == 99;
        proof {
            if r {
                assert(b@ =~= kw_static());
            } else {
                assert(b@ != kw_static());
            }
            assert(b@.len() != kw_type().len());
        }
        r
    } else {
        proof {
            assert(b@.len() != kw_type().len());
            assert(b@.len() != kw_static().len());
        }
        false
    }
}

/// Compute the identifier emitted for a raw name.
pub fn make_ident(name: &[u8]) -> (r: Vec<u8>)
    ensures
        r@ == ident_of(name@),
{
    let mut sn = to_snake_case(name);
    if is_reserved(sn.as_slice()) {
        let mut out: Vec<u8> = Vec::new();
        out.push(114u8);
        out.push(35u8);
        out.append(&mut sn);
        proof {
            assert(out@ =~= raw_prefix() + snake_norm(name@));
        }
        out
    } else {
        sn
    }
}

/// The stable identifier of one well-known column: its position in the
/// declared column order.
///
/// For a table of `n` declared columns the identifiers are exactly
/// `ColumnId { index: 0 }` to `ColumnId { index: n - 1 }`: one per declared
/// column, whether or not the physical table contains it.
#[derive(Clone, Copy, Debug, PartialEq, Eq, Hash, Structural)]
pub struct ColumnId {
    /// Position of the column in the declared order.
    pub index: usize,
}

/// One compiled column: the declaration together with its emitted names.
#[derive(Clone, Debug)]
pub struct BoundColumn {
    /// The column declaration this entry was compiled from.
    pub decl: ColumnSpec,
    /// The normalized (escaped) snake-case identifier name.
    pub ident: Vec<u8>,
    /// The camel-case variant name.
    pub variant: Vec<u8>,
}

/// The compiled binding of one table.
#[derive(Clone, Debug)]
pub struct TableBinding {
    /// The logical table name.
    pub table_name: Vec<u8>,
    /// One compiled column per declared column, in declared order.
    pub columns: Vec<BoundColumn>,
}

/// A configuration fault found by the binding compiler.
#[derive(Clone, Copy, Debug)]
pub enum CompileError {
    /// Two declared columns carry the same raw name.
    DuplicateColumnName {
        /// Declared position of the earlier column.
        first: usize,
        /// Declared position of the later column.
        second: usize,
    },
    /// Two declared column names normalize to the same identifier.
    IdentifierCollision {
        /// Declared position of the earlier column.
        first: usize,
        /// Declared position of the later column.
        second: usize,
    },
}

/// The binding `b` is what compiling `ts` must produce.
pub open spec fn binding_matches(ts: TableSpec, b: TableBinding) -> bool {
    &&& b.table_name@ == ts.name@
    &&& b.columns@.len() == ts.columns@.len()
    &&& forall|i: int|
        0 <= i < ts.columns@.len() ==> {
            &&& (#[trigger] b.columns@[i]).decl.name@ == ts.columns@[i].name@
            &&& b.columns@[i].decl.kind == ts.columns@[i].kind
            &&& b.columns@[i].decl.nullable == ts.columns@[i].nullable
            &&& b.columns@[i].ident@ == ident_of(ts.columns@[i].name@)
            &&& b.columns@[i].variant@ == camel_norm(ts.columns@[i].name@)
        }
}

/// Compile one table declaration into its binding.
///
/// Succeeds if and only if no two declared columns have equal raw names and
/// no two names normalize to the same identifier; on failure the error names
/// a colliding pair.
pub fn compile_table(ts: &TableSpec) -> (r: Result<TableBinding, CompileError>)
    ensures
        r matches Ok(b) ==> compilable(ts.columns@) && binding_matches(*ts, b),
        compilable(ts.columns@) ==> r is Ok,
        r matches Err(CompileError::DuplicateColumnName { first, second }) ==> first < second
            && second < ts.columns@.len() && ts.columns@[first as int].name@
            == ts.columns@[second as int].name@,
        r matches Err(CompileError::IdentifierCollision { first, second }) ==> first < second
            && second < ts.columns@.len() && idents_collide(
            ts.columns@[first as int].name@,
            ts.columns@[second as int].name@,
        ),
{
    let n = ts.columns.len();
    // Raw-name duplicates are a configuration fault.
    let mut j: usize = 1;
    while j < n
        invariant
            n == ts.columns@.len(),
            1 <= j,
            forall|a: int, b: int| 0 <= a < b < j && b < n ==> ts.columns@[a].name@
                != ts.columns@[b].name@,
        decreases n - j,
    {
        let mut i: usize = 0;
        while i < j
            invariant
                n == ts.columns@.len(),
                j < n,
                i <= j,
                forall|a: int, b: int| 0 <= a < b < j ==> ts.columns@[a].name@
                    != ts.columns@[b].name@,
                forall|a: int| 0 <= a < i ==> ts.columns@[a].name@ != ts.columns@[j as int].name@,
            decreases j - i,
        {
            if bytes_eq(ts.columns[i].name.as_slice(), ts.columns[j].name.as_slice()) {
                proof {
                    assert(column_names(ts.columns@)[i as int] == ts.columns@[i as int].name@);
                    assert(column_names(ts.columns@)[j as int] == ts.columns@[j as int].name@);
                }
                return Err(CompileError::DuplicateColumnName { first: i, second: j });
            }
            i = i + 1;
        }
        j = j + 1;
    }
    assert(distinct_column_names(ts.columns@));
    // Emit the normalized names.
    let mut idents: Vec<Vec<u8>> = Vec::new();
    let mut variants: Vec<Vec<u8>> = Vec::new();
    let mut k: usize = 0;
    while k < n
        invariant
            n == ts.columns@.len(),
            k <= n,
            idents@.len() == k as int,
            variants@.len() == k as int,
            forall|a: int| 0 <= a < k ==> (#[trigger] idents@[a])@ == ident_of(
                ts.columns@[a].name@,
            ),
            forall|a: int| 0 <= a < k ==> (#[trigger] variants@[a])@ == camel_norm(
                ts.columns@[a].name@,
            ),
        decreases n - k,
    {
        idents.push(make_ident(ts.columns[k].name.as_slice()));
        variants.push(to_camel_case(ts.columns[k].name.as_slice()));
        k = k + 1;
    }
    // Identifier collisions after normalization are a configuration fault.
    let mut j2: usize = 1;
    while j2 < n
        invariant
            n == ts.columns@.len(),
            idents@.len() == n as int,
            variants@.len() == n as int,
            1 <= j2,
            forall|a: int| 0 <= a < n ==> (#[trigger] idents@[a])@ == ident_of(
                ts.columns@[a].name@,
            ),
            forall|a: int| 0 <= a < n ==> (#[trigger] variants@[a])@ == camel_norm(
                ts.columns@[a].name@,
            ),
            forall|a: int, b: int| 0 <= a < b < j2 && b < n ==> !idents_collide(
                ts.columns@[a].name@,
                ts.columns@[b].name@,
            ),
        decreases n - j2,
    {
        let mut i2: usize = 0;
        while i2 < j2
            invariant
                n == ts.columns@.len(),
                idents@.len() == n as int,
                variants@.len() == n as int,
                j2 < n,
                i2 <= j2,
                forall|a: int| 0 <= a < n ==> (#[trigger] idents@[a])@ == ident_of(
                    ts.columns@[a].name@,
                ),
                forall|a: int| 0 <= a < n ==> (#[trigger] variants@[a])@ == camel_norm(
                    ts.columns@[a].name@,
                ),
                forall|a: int, b: int| 0 <= a < b < j2 ==> !idents_collide(
                    ts.columns@[a].name@,
                    ts.columns@[b].name@,
                ),
                forall|a: int| 0 <= a < i2 ==> !idents_collide(
                    ts.columns@[a].name@,
                    ts.columns@[j2 as int].name@,
                ),
            decreases j2 - i2,
        {
            let hit = bytes_eq(idents[i2].as_slice(), idents[j2].as_slice()) || bytes_eq(
                variants[i2].as_slice(),
                variants[j2].as_slice(),
            );
            if hit {
                proof {
                    assert((idents@[i2 as int])@ == ident_of(ts.columns@[i2 as int].name@));
                    assert((idents@[j2 as int])@ == ident_of(ts.columns@[j2 as int].name@));
                    assert((variants@[i2 as int])@ == camel_norm(ts.columns@[i2 as int].name@));
                    assert((variants@[j2 as int])@ == camel_norm(ts.columns@[j2 as int].name@));
                    assert(idents_collide(ts.columns@[i2 as int].name@, ts.columns@[j2 as int].name@));
                    assert(column_names(ts.columns@)[i2 as int] == ts.columns@[i2 as int].name@);
                    assert(column_names(ts.columns@)[j2 as int] == ts.columns@[j2 as int].name@);
                }
                return Err(CompileError::IdentifierCollision { first: i2, second: j2 });
            }
            i2 = i2 + 1;
        }
        j2 = j2 + 1;
    }
    // Assemble the binding.
    let mut columns: Vec<BoundColumn> = Vec::new();
    let mut m: usize = 0;
    while m < n
        invariant
            n == ts.columns@.len(),
            idents@.len() == n as int,
            variants@.len() == n as int,
            m <= n,
            columns@.len() == m as int,
            forall|a: int| 0 <= a < n ==> (#[trigger] idents@[a])@ == ident_of(
                ts.columns@[a].name@,
            ),
            forall|a: int| 0 <= a < n ==> (#[trigger] variants@[a])@ == camel_norm(
                ts.columns@[a].name@,
            ),
            forall|a: int|
                0 <= a < m ==> {
                    &&& (#[trigger] columns@[a]).decl.name@ == ts.columns@[a].name@
                    &&& columns@[a].decl.kind == ts.columns@[a].kind
                    &&& columns@[a].decl.nullable == ts.columns@[a].nullable
                    &&& columns@[a].ident@ == ident_of(ts.columns@[a].name@)
                    &&& columns@[a].variant@ == camel_norm(ts.columns@[a].name@)
                },
        decreases n - m,
    {
        let decl = ColumnSpec::new(
            clone_bytes(&ts.columns[m].name),
            ts.columns[m].kind,
            ts.columns[m].nullable,
        );
        columns.push(
            BoundColumn {
                decl,
                ident: clone_bytes(&idents[m]),
                variant: clone_bytes(&variants[m]),
            },
        );
        m = m + 1;
    }
    proof {
        let names = column_names(ts.columns@);
        assert(forall|a: int| 0 <= a < names.len() ==> names[a] == ts.columns@[a].name@);
        assert(compilable_names(names));
    }
    Ok(TableBinding { table_name: clone_bytes(&ts.name), columns })
}

impl TableBinding {
    /// The column identifier set of this binding: one stable identifier per
    /// declared column, in declared order.
    pub fn column_ids(&self) -> (r: Vec<ColumnId>)
        ensures
            r@.len() == self.columns@.len(),
            forall|i: int| 0 <= i < r@.len() ==> (#[trigger] r@[i]).index == i,
    {
        let mut out: Vec<ColumnId> = Vec::new();
        let mut i: usize = 0;
        while i < self.columns.len()
            invariant
                i <= self.columns@.len(),
                out@.len() == i as int,
                forall|a: int| 0 <= a < i ==> (#[trigger] out@[a]).index == a,
            decreases self.columns@.len() - i,
        {
            out.push(ColumnId { index: i });
            i = i + 1;
        }
        out
    }

    /// The raw declared name of a well-known column.
    pub fn name_of(&self, c: ColumnId) -> (r: &Vec<u8>)
        requires
            c.index < self.columns@.len(),
        ensures
            r@ == self.columns@[c.index as int].decl.name@,
    {
        &self.columns[c.index].decl.name
    }
}

/// Resolve a raw column name back to its identifier: the first declared
/// column whose name equals `name`, if any.
pub fn resolve_ident(ts: &TableSpec, name: &[u8]) -> (r: Option<ColumnId>)
    ensures
        match r {
            Some(c) => first_name_match(column_names(ts.columns@), name@) == Some(c.index as int),
            None => first_name_match(column_names(ts.columns@), name@) is None,
        },
{
    proof {
        lemma_first_name_match(column_names(ts.columns@), name@);
    }
    let mut i: usize = 0;
    while i < ts.columns.len()
        invariant
            i <= ts.columns@.len(),
            forall|j: int| 0 <= j < i ==> column_names(ts.columns@)[j] != name@,
        decreases ts.columns@.len() - i,
    {
        if bytes_eq(ts.columns[i].name.as_slice(), name) {
            proof {
                let names = column_names(ts.columns@);
                lemma_first_name_match(names, name@);
                assert(names[i as int] == name@);
                match first_name_match(names, name@) {
                    None => {
                        assert(false);
                    },
                    Some(k) => {
                        if k < i {
                            assert(names[k] != name@);
                        }
                        if k > i {
                            assert(names[i as int] != name@);
                        }
                    },
                }
            }
            return Some(ColumnId { index: i });
        }
        i = i + 1;
    }
    None
}

/// Column identifier independence and round-trip: in a schema without raw
/// name duplicates, every declared column's identifier round-trips through
/// its name — resolving the declared name of column `c` yields `c` again.
/// Together with [`TableBinding::column_ids`], which emits exactly one
/// identifier per declared column, this pins the identifier set to the
/// declared column count.
pub proof fn lemma_identifier_round_trip(columns: Seq<ColumnSpec>, c: int)
    requires
        distinct_column_names(columns),
        0 <= c < columns.len(),
    ensures
        first_name_match(column_names(columns), columns[c].name@) == Some(c),
{
    let names = column_names(columns);
    let name = columns[c].name@;
    lemma_first_name_match(names, name);
    assert(names[c] == name);
    match first_name_match(names, name) {
        None => {
            assert(false);
        },
        Some(i) => {
            if i < c {
                assert(columns[i].name@ == columns[c].name@);
                assert(false);
            }
            if i > c {
                assert(names[c] != name);
                assert(false);
            }
        },
    }
}

} // verus!
