//! The selection engine: given the gait table and the leg-mode, compute the
//! textual encoding of the middle-percent window(s) of the gait cycles.
//!
//! A gait row carries the `start` and `end` timestamps of one gait cycle as
//! the decimal strings the caller formatted them to; the engine never
//! interprets them numerically, it only slices rows and joins the boundary
//! values with `-` and ` `.

use crate::text::count_char;
use crate::text::lemma_count_char_concat;
use crate::text::str_eq;
use vstd::arithmetic::div_mod::lemma_div_is_ordered;
use vstd::arithmetic::div_mod::lemma_div_multiples_vanish;
use vstd::arithmetic::div_mod::lemma_fundamental_div_mod;
use vstd::arithmetic::mul::lemma_mul_inequality;
use vstd::prelude::*;
use vstd::string::*;

verus! {

/// One detected gait cycle: its start and end timestamps, already formatted
/// as decimal strings.
pub struct GaitRow {
    pub start: String,
    pub end: String,
}

impl GaitRow {
    pub fn clone_row(&self) -> (r: GaitRow)
        ensures
            r == *self,
    {
        GaitRow { start: self.start.clone(), end: self.end.clone() }
    }
}

/// Number of rows a window of `percent` percent of `length` rows covers:
/// integer division is deliberate and load-bearing.
pub open spec fn window_range(length: int, percent: int) -> int {
    length * percent / 100
}

/// First row of a window of `range` rows centred on row `middle`.
pub open spec fn window_start(middle: int, range: int) -> int {
    middle - range / 2
}

/// `range` contiguous rows beginning at `start`, clipped to the table: the
/// slice saturates at the end of the table rather than failing.
pub open spec fn slice_rows(rows: Seq<GaitRow>, start: int, range: int) -> Seq<GaitRow> {
    let n = rows.len() as int;
    let s = if start > n {
        n
    } else {
        start
    };
    let e = if start + range > n {
        n
    } else {
        start + range
    };
    if 0 <= s <= e {
        rows.subrange(s, e)
    } else {
        Seq::empty()
    }
}

/// `"s-e"` where `s` is the first row's start and `e` the last row's end.
pub open spec fn range_string_view(rows: Seq<GaitRow>) -> Seq<char> {
    rows[0].start@ + "-"@ + rows[rows.len() - 1].end@
}

/// Leg-mode `"2"`: one window over the whole table, centred on its middle
/// row.  An empty window yields the empty selection.
pub open spec fn selection_two(rows: Seq<GaitRow>, percent: int) -> Seq<char> {
    let n = rows.len() as int;
    let range = window_range(n, percent);
    let w = slice_rows(rows, window_start(n / 2, range), range);
    if w.len() == 0 {
        Seq::empty()
    } else {
        range_string_view(w)
    }
}

/// Leg-mode `"1"`: two windows of `half = n / 2` rows each.  Window A is
/// centred on the middle of the first half; window B is centred on
/// `half + parity + half / 2` where `parity` is 1 exactly when `n` is even.
/// If either window is empty the selection is empty.
pub open spec fn selection_one(rows: Seq<GaitRow>, percent: int) -> Seq<char> {
    let n = rows.len() as int;
    let half = n / 2;
    let range = window_range(half, percent);
    let a = slice_rows(rows, window_start(half / 2, range), range);
    let parity: int = if n % 2 == 0 {
        1
    } else {
        0
    };
    let b = slice_rows(rows, window_start(half + parity + half / 2, range), range);
    if a.len() == 0 || b.len() == 0 {
        Seq::empty()
    } else {
        range_string_view(a) + " "@ + range_string_view(b)
    }
}

/// The selection string for a gait table, a leg-mode token and a percentage.
pub open spec fn selection_view(rows: Seq<GaitRow>, mode: Seq<char>, percent: int) -> Seq<char> {
    if mode == "2"@ {
        selection_two(rows, percent)
    } else if mode == "1"@ {
        selection_one(rows, percent)
    } else {
        Seq::empty()
    }
}

proof fn lemma_range_bounds(length: int, percent: int)
    requires
        0 <= length,
        0 <= percent <= 100,
    ensures
        0 <= window_range(length, percent) <= length,
{
    assert(0 <= length * percent <= length * 100) by (nonlinear_arith)
        requires
            0 <= length,
            0 <= percent <= 100,
    ;
    lemma_div_is_ordered(0, length * percent, 100);
    lemma_div_is_ordered(length * percent, length * 100, 100);
    assert(length * 100 == 100 * length) by (nonlinear_arith);
    lemma_div_multiples_vanish(length, 100);
}

fn select_window(length: usize, middle: usize, percent: usize) -> (w: (usize, usize))
    requires
        percent <= 100,
        length * percent <= usize::MAX,
        window_range(length as int, percent as int) / 2 <= middle as int,
    ensures
        w.1 as int == window_range(length as int, percent as int),
        w.0 as int == window_start(middle as int, w.1 as int),
{
    let range = length * percent / 100;
    let start = middle - range / 2;
    (start, range)
}

fn slice_window(rows: &Vec<GaitRow>, start: usize, range: usize) -> (out: Vec<GaitRow>)
    ensures
        out@ == slice_rows(rows@, start as int, range as int),
{
    let n = rows.len();
    let s = if start > n {
        n
    } else {
        start
    };
    let avail = n - s;
    let take = if range > avail {
        avail
    } else {
        range
    };
    let mut out: Vec<GaitRow> = Vec::new();
    let mut i: usize = s;
    while i < s + take
        invariant
            s <= i <= s + take,
            s + take <= n,
            n == rows@.len(),
            out@ =~= rows@.subrange(s as int, i as int),
        decreases s + take - i,
    {
        out.push(rows[i].clone_row());
        proof {
            assert(out@ =~= rows@.subrange(s as int, i + 1 as int));
        }
        i += 1;
    }
    proof {
        assert(out@ =~= slice_rows(rows@, start as int, range as int));
    }
    out
}

fn range_string(rows: &Vec<GaitRow>) -> (r: String)
    requires
        rows@.len() > 0,
    ensures
        r@ == range_string_view(rows@),
{
    let mut s = rows[0].start.clone();
    s.append("-");
    let last = rows.len() - 1;
    s.append(rows[last].end.as_str());
    s
}

/// Compute the selection string: `mode` is token 6 of the input filename,
/// `percent` the width of the window in percent of the gait rows it is cut
/// from.  The result is exactly `selection_view` of the inputs.
pub fn compute_selection(gait: &Vec<GaitRow>, mode: &str, percent: usize) -> (r: String)
    requires
        percent <= 100,
        gait@.len() * percent <= usize::MAX,
    ensures
        r@ == selection_view(gait@, mode@, percent as int),
{
    let n = gait.len();
    if str_eq(mode, "2") {
        proof {
            lemma_range_bounds(n as int, percent as int);
            lemma_div_is_ordered(window_range(n as int, percent as int), n as int, 2);
        }
        let w = select_window(n, n / 2, percent);
        let rows = slice_window(gait, w.0, w.1);
        if rows.len() == 0 {
            String::new()
        } else {
            range_string(&rows)
        }
    } else if str_eq(mode, "1") {
        let half = n / 2;
        proof {
            lemma_mul_inequality(half as int, n as int, percent as int);
            lemma_range_bounds(half as int, percent as int);
            lemma_div_is_ordered(window_range(half as int, percent as int), half as int, 2);
            lemma_div_is_ordered(half as int, n as int, 2);
            lemma_div_is_ordered(n as int, usize::MAX as int, 2);
            lemma_div_is_ordered(half as int, usize::MAX as int / 2, 2);
        }
        let wa = select_window(half, half / 2, percent);
        let a = slice_window(gait, wa.0, wa.1);
        let parity: usize = if n % 2 == 0 {
            1
        } else {
            0
        };
        let wb = select_window(half, half + parity + half / 2, percent);
        let b = slice_window(gait, wb.0, wb.1);
        if a.len() == 0 || b.len() == 0 {
            String::new()
        } else {
            let mut out = range_string(&a);
            out.append(" ");
            let second = range_string(&b);
            out.append(second.as_str());
            out
        }
    } else {
        String::new()
    }
}

/// Window width law: in leg-mode `"2"` the window covers exactly
/// `length * percent / 100` gait rows — the slice never runs past either end
/// of the table, so clipping never shortens it.
pub proof fn lemma_window_width(rows: Seq<GaitRow>, percent: int)
    requires
        0 <= percent <= 100,
    ensures
        ({
            let n = rows.len() as int;
            let range = window_range(n, percent);
            slice_rows(rows, window_start(n / 2, range), range).len() == range
        }),
{
    let n = rows.len() as int;
    let range = window_range(n, percent);
    lemma_range_bounds(n, percent);
    lemma_div_is_ordered(range, n, 2);
    lemma_fundamental_div_mod(range, 2);
    lemma_fundamental_div_mod(n, 2);
    let start = window_start(n / 2, range);
    assert(0 <= start);
    assert(start + range <= n);
}

/// Selection parity law: when every timestamp string is free of spaces, the
/// selection for leg-mode `"2"` contains no space, the (non-empty) selection
/// for leg-mode `"1"` contains exactly one, and any other leg-mode yields the
/// empty selection.
pub proof fn lemma_selection_parity(rows: Seq<GaitRow>, mode: Seq<char>, percent: int)
    requires
        0 <= percent <= 100,
        forall|i: int| 0 <= i < rows.len() ==> count_char(#[trigger] rows[i].start@, ' ') == 0,
        forall|i: int| 0 <= i < rows.len() ==> count_char(#[trigger] rows[i].end@, ' ') == 0,
    ensures
        mode == "2"@ ==> count_char(selection_view(rows, mode, percent), ' ') == 0,
        mode == "1"@ && selection_view(rows, mode, percent).len() != 0 ==> count_char(
            selection_view(rows, mode, percent),
            ' ',
        ) == 1,
        mode != "2"@ && mode != "1"@ ==> selection_view(rows, mode, percent) == Seq::<
            char,
        >::empty(),
{
    reveal_strlit("1");
    reveal_strlit("2");
    assert("1"@ != "2"@) by {
        assert("1"@[0] == '1' && "2"@[0] == '2');
    }
    reveal_strlit(" ");
    assert(" "@.len() == 1 && " "@[0] == ' ');
    lemma_count_char_one(" "@, ' ');
    if mode == "2"@ {
        let n = rows.len() as int;
        let range = window_range(n, percent);
        let start = window_start(n / 2, range);
        let w = slice_rows(rows, start, range);
        if w.len() != 0 {
            lemma_slice_space_free(rows, start, range);
            lemma_range_string_space_free(w);
        }
    } else if mode == "1"@ {
        let n = rows.len() as int;
        let half = n / 2;
        let range = window_range(half, percent);
        let sa = window_start(half / 2, range);
        let a = slice_rows(rows, sa, range);
        let parity: int = if n % 2 == 0 {
            1
        } else {
            0
        };
        let sb = window_start(half + parity + half / 2, range);
        let b = slice_rows(rows, sb, range);
        if a.len() != 0 && b.len() != 0 {
            lemma_slice_space_free(rows, sa, range);
            lemma_slice_space_free(rows, sb, range);
            lemma_range_string_space_free(a);
            lemma_range_string_space_free(b);
            lemma_count_char_concat(range_string_view(a), " "@, ' ');
            lemma_count_char_concat(range_string_view(a) + " "@, range_string_view(b), ' ');
        }
    }
}

/// The count of `c` in a one-character string.
proof fn lemma_count_char_one(s: Seq<char>, c: char)
    requires
        s.len() == 1,
    ensures
        count_char(s, c) == if s[0] == c {
            1nat
        } else {
            0nat
        },
{
    assert(s.drop_last() =~= Seq::<char>::empty());
    assert(count_char(Seq::<char>::empty(), c) == 0);
    assert(s.last() == s[0]);
}

/// Space-freeness carries from a gait table to any slice of it.
proof fn lemma_slice_space_free(rows: Seq<GaitRow>, start: int, range: int)
    requires
        forall|i: int| 0 <= i < rows.len() ==> count_char(#[trigger] rows[i].start@, ' ') == 0,
        forall|i: int| 0 <= i < rows.len() ==> count_char(#[trigger] rows[i].end@, ' ') == 0,
    ensures
        forall|i: int|
            0 <= i < slice_rows(rows, start, range).len() ==> count_char(
                #[trigger] slice_rows(rows, start, range)[i].start@,
                ' ',
            ) == 0,
        forall|i: int|
            0 <= i < slice_rows(rows, start, range).len() ==> count_char(
                #[trigger] slice_rows(rows, start, range)[i].end@,
                ' ',
            ) == 0,
{
    let w = slice_rows(rows, start, range);
    let n = rows.len() as int;
    let s = if start > n {
        n
    } else {
        start
    };
    assert forall|i: int| 0 <= i < w.len() implies count_char(#[trigger] w[i].start@, ' ') == 0
        && count_char(#[trigger] w[i].end@, ' ') == 0 by {
        assert(w[i] == rows[s + i]);
        assert(count_char(rows[s + i].start@, ' ') == 0);
        assert(count_char(rows[s + i].end@, ' ') == 0);
    }
}

proof fn lemma_range_string_space_free(w: Seq<GaitRow>)
    requires
        w.len() > 0,
        forall|i: int| 0 <= i < w.len() ==> count_char(#[trigger] w[i].start@, ' ') == 0,
        forall|i: int| 0 <= i < w.len() ==> count_char(#[trigger] w[i].end@, ' ') == 0,
    ensures
        count_char(range_string_view(w), ' ') == 0,
{
    reveal_strlit("-");
    assert("-"@.len() == 1 && "-"@[0] == '-');
    lemma_count_char_one("-"@, ' ');
    assert(count_char(w[0].start@, ' ') == 0);
    assert(count_char(w[w.len() - 1].end@, ' ') == 0);
    lemma_count_char_concat(w[0].start@, "-"@, ' ');
    lemma_count_char_concat(w[0].start@ + "-"@, w[w.len() - 1].end@, ' ');
}

} // verus!
