//! The in-memory model of the tables the pipeline decides on: the metadata
//! header and the tabular body, both as ordered named columns of text cells.
//! Canonicalisation projects the body onto the remap schema; finalisation
//! injects the selection column into the header and strips the PII columns.

use crate::text::str_eq;
use crate::SplitError;
use vstd::prelude::*;

verus! {

/// One named column; every cell is carried as text.
pub struct Column {
    pub name: String,
    pub cells: Vec<String>,
}

/// A table: ordered named columns.
pub struct Table {
    pub cols: Vec<Column>,
}

/// Index of the first column called `name`, or the column count when none is.
pub open spec fn find_col(cols: Seq<Column>, name: Seq<char>) -> int
    decreases cols.len(),
{
    if cols.len() == 0 {
        0
    } else if cols[0].name@ == name {
        0
    } else {
        1 + find_col(cols.subrange(1, cols.len() as int), name)
    }
}

pub proof fn lemma_find_col(cols: Seq<Column>, name: Seq<char>)
    ensures
        0 <= find_col(cols, name) <= cols.len(),
        find_col(cols, name) < cols.len() ==> cols[find_col(cols, name)].name@ == name,
        forall|j: int| 0 <= j < find_col(cols, name) ==> (#[trigger] cols[j]).name@ != name,
    decreases cols.len(),
{
    if cols.len() > 0 && cols[0].name@ != name {
        let tail = cols.subrange(1, cols.len() as int);
        lemma_find_col(tail, name);
        assert forall|j: int| 0 <= j < find_col(cols, name) implies (#[trigger] cols[j]).name@
            != name by {
            if j > 0 {
                assert(tail[j - 1] == cols[j]);
            }
        }
    }
}

/// Index of the first column called `name`, or the column count when the
/// table has none.
pub fn find_column(t: &Table, name: &str) -> (r: usize)
    ensures
        r as int == find_col(t.cols@, name@),
        r <= t.cols@.len(),
{
    let n = t.cols.len();
    let mut i: usize = 0;
    while i < n
        invariant
            i <= n,
            n == t.cols@.len(),
            forall|j: int| 0 <= j < i ==> (#[trigger] t.cols@[j]).name@ != name@,
        decreases n - i,
    {
        if str_eq(t.cols[i].name.as_str(), name) {
            proof {
                lemma_find_col(t.cols@, name@);
            }
            return i;
        }
        i += 1;
    }
    proof {
        lemma_find_col(t.cols@, name@);
    }
    n
}

/// The first-row cell of the column called `name`, when both exist.
pub fn get_cell(t: &Table, name: &str) -> (r: Option<String>)
    ensures
        match r {
            Some(v) => find_col(t.cols@, name@) < t.cols@.len() && t.cols@[find_col(
                t.cols@,
                name@,
            )].cells@.len() > 0 && v == t.cols@[find_col(t.cols@, name@)].cells@[0],
            None => find_col(t.cols@, name@) == t.cols@.len() || t.cols@[find_col(
                t.cols@,
                name@,
            )].cells@.len() == 0,
        },
{
    let idx = find_column(t, name);
    if idx < t.cols.len() {
        let col = &t.cols[idx];
        if col.cells.len() > 0 {
            Some(col.cells[0].clone())
        } else {
            None
        }
    } else {
        None
    }
}

/// The `exported with version` cell of the metadata header, when present.
pub fn get_version(h: &Table) -> (r: Option<String>)
    ensures
        match r {
            Some(v) => find_col(h.cols@, "exported with version"@) < h.cols@.len() && h.cols@[
                find_col(h.cols@, "exported with version"@)
            ].cells@.len() > 0 && v == h.cols@[find_col(
                h.cols@,
                "exported with version"@,
            )].cells@[0],
            None => find_col(h.cols@, "exported with version"@) == h.cols@.len() || h.cols@[
                find_col(h.cols@, "exported with version"@)
            ].cells@.len() == 0,
        },
{
    get_cell(h, "exported with version")
}

fn clone_cells(v: &Vec<String>) -> (r: Vec<String>)
    ensures
        r@ == v@,
{
    let mut r: Vec<String> = Vec::new();
    let mut i: usize = 0;
    while i < v.len()
        invariant
            i <= v@.len(),
            r@ =~= v@.subrange(0, i as int),
        decreases v@.len() - i,
    {
        r.push(v[i].clone());
        proof {
            assert(r@ =~= v@.subrange(0, i + 1 as int));
        }
        i += 1;
    }
    proof {
        assert(r@ =~= v@);
    }
    r
}

fn clone_column(c: &Column) -> (r: Column)
    ensures
        r.name@ == c.name@,
        r.cells@ == c.cells@,
{
    Column { name: c.name.clone(), cells: clone_cells(&c.cells) }
}

/// Canonicalise the body: a table with more columns than the schema names is
/// projected onto `ori_key` in order and renamed positionally to `new_key`;
/// a table that is not wider than the schema is already canonical and passes
/// through unchanged.
pub fn canonicalise(t: Table, ori_key: &Vec<String>, new_key: &Vec<String>) -> (r: Result<
    Table,
    SplitError,
>)
    requires
        ori_key@.len() == new_key@.len(),
    ensures
        match r {
            Ok(out) => {
                &&& t.cols@.len() <= new_key@.len() ==> out == t
                &&& t.cols@.len() > new_key@.len() ==> {
                    &&& out.cols@.len() == new_key@.len()
                    &&& forall|i: int|
                        0 <= i < new_key@.len() ==> {
                            &&& (#[trigger] out.cols@[i]).name@ == new_key@[i]@
                            &&& find_col(t.cols@, ori_key@[i]@) < t.cols@.len()
                            &&& out.cols@[i].cells@ == t.cols@[find_col(
                                t.cols@,
                                ori_key@[i]@,
                            )].cells@
                        }
                }
            },
            Err(e) => {
                &&& t.cols@.len() > new_key@.len()
                &&& e is SchemaMismatch
                &&& exists|i: int|
                    0 <= i < ori_key@.len() && find_col(t.cols@, (#[trigger] ori_key@[i])@)
                        == t.cols@.len()
            },
        },
{
    if t.cols.len() <= new_key.len() {
        return Ok(t);
    }
    let mut out_cols: Vec<Column> = Vec::new();
    let mut i: usize = 0;
    while i < ori_key.len()
        invariant
            i <= ori_key@.len(),
            ori_key@.len() == new_key@.len(),
            t.cols@.len() > new_key@.len(),
            out_cols@.len() == i,
            forall|k: int|
                0 <= k < i ==> {
                    &&& (#[trigger] out_cols@[k]).name@ == new_key@[k]@
                    &&& find_col(t.cols@, ori_key@[k]@) < t.cols@.len()
                    &&& out_cols@[k].cells@ == t.cols@[find_col(t.cols@, ori_key@[k]@)].cells@
                },
        decreases ori_key@.len() - i,
    {
        let idx = find_column(&t, ori_key[i].as_str());
        if idx == t.cols.len() {
            return Err(SplitError::SchemaMismatch(ori_key[i].clone()));
        }
        let cells = clone_cells(&t.cols[idx].cells);
        out_cols.push(Column { name: new_key[i].clone(), cells });
        i += 1;
    }
    Ok(Table { cols: out_cols })
}

/// A PII column name: these never reach the output header.
pub open spec fn is_pii(name: Seq<char>) -> bool {
    name == "last_name"@ || name == "first_name"@
}

/// The columns of `cols` that are not PII, in order.
pub open spec fn keep_non_pii(cols: Seq<Column>) -> Seq<Column>
    decreases cols.len(),
{
    if cols.len() == 0 {
        Seq::empty()
    } else {
        let rest = keep_non_pii(cols.drop_last());
        if is_pii(cols.last().name@) {
            rest
        } else {
            rest.push(cols.last())
        }
    }
}

proof fn lemma_keep_non_pii_clean(cols: Seq<Column>)
    ensures
        forall|k: int|
            0 <= k < keep_non_pii(cols).len() ==> !is_pii(
                (#[trigger] keep_non_pii(cols)[k]).name@,
            ),
    decreases cols.len(),
{
    if cols.len() > 0 {
        lemma_keep_non_pii_clean(cols.drop_last());
        let rest = keep_non_pii(cols.drop_last());
        assert forall|k: int| 0 <= k < keep_non_pii(cols).len() implies !is_pii(
            (#[trigger] keep_non_pii(cols)[k]).name@,
        ) by {
            if !is_pii(cols.last().name@) {
                if k < rest.len() {
                    assert(keep_non_pii(cols)[k] == rest[k]);
                } else {
                    assert(keep_non_pii(cols)[k] == cols.last());
                }
            } else {
                assert(keep_non_pii(cols)[k] == rest[k]);
            }
        }
    }
}

/// Finalise the metadata header: drop the PII columns `last_name` and
/// `first_name`, and append the single-cell column `selection`.  No column
/// of the result carries a PII name.
pub fn finalise_header(h: &Table, selection: String) -> (out: Table)
    ensures
        out.cols@.len() == keep_non_pii(h.cols@).len() + 1,
        forall|k: int|
            0 <= k < keep_non_pii(h.cols@).len() ==> (#[trigger] out.cols@[k]).name@
                == keep_non_pii(h.cols@)[k].name@ && out.cols@[k].cells@ == keep_non_pii(
                h.cols@,
            )[k].cells@,
        out.cols@.last().name@ == "selection"@,
        out.cols@.last().cells@.len() == 1,
        out.cols@.last().cells@[0] == selection,
        forall|k: int| 0 <= k < out.cols@.len() ==> !is_pii((#[trigger] out.cols@[k]).name@),
{
    let mut cols: Vec<Column> = Vec::new();
    let mut i: usize = 0;
    while i < h.cols.len()
        invariant
            i <= h.cols@.len(),
            cols@.len() == keep_non_pii(h.cols@.subrange(0, i as int)).len(),
            forall|k: int|
                0 <= k < cols@.len() ==> (#[trigger] cols@[k]).name@ == keep_non_pii(
                    h.cols@.subrange(0, i as int),
                )[k].name@ && cols@[k].cells@ == keep_non_pii(
                    h.cols@.subrange(0, i as int),
                )[k].cells@,
        decreases h.cols@.len() - i,
    {
        let c = &h.cols[i];
        let pii = str_eq(c.name.as_str(), "last_name") || str_eq(c.name.as_str(), "first_name");
        proof {
            assert(h.cols@.subrange(0, i + 1 as int).drop_last() =~= h.cols@.subrange(0, i as int));
            assert(h.cols@.subrange(0, i + 1 as int).last() == h.cols@[i as int]);
        }
        if !pii {
            cols.push(clone_column(c));
        }
        i += 1;
    }
    proof {
        assert(h.cols@.subrange(0, h.cols@.len() as int) =~= h.cols@);
        lemma_keep_non_pii_clean(h.cols@);
        reveal_strlit("selection");
        reveal_strlit("last_name");
        reveal_strlit("first_name");
        assert(!is_pii("selection"@)) by {
            assert("selection"@[0] == 's' && "last_name"@[0] == 'l' && "first_name"@[0] == 'f');
        }
    }
    let mut cells: Vec<String> = Vec::new();
    cells.push(selection);
    let name = "selection".to_owned();
    cols.push(Column { name, cells });
    Table { cols }
}

} // verus!
