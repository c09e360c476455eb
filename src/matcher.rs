//! Perceptual nearest match of a colour among palette entries.
use vstd::prelude::*;
use crate::color::{Lch, SCALE};

verus! {

/// Entries whose chroma is below this (64, in steps of `1 / SCALE`) are
/// compared on the square of the chroma difference.
pub const LOW_CHROMA: u32 = 640000;

/// The error of `nearest_entry`.
#[derive(Clone, Copy, Debug, PartialEq, Eq, Structural)]
pub enum MatchError {
    EmptyPalette,
}

pub open spec fn abs_diff(a: int, b: int) -> int {
    if a >= b {
        a - b
    } else {
        b - a
    }
}

/// The shorter arc between two hues.
pub open spec fn hue_delta(a: int, b: int) -> int {
    let d = abs_diff(a, b);
    if d <= 360 * SCALE - d {
        d
    } else {
        360 * SCALE - d
    }
}

/// The distance of a palette entry `e` from a query `q`, in steps of
/// `1 / SCALE^2`: `dc^2 + dh^2` below `LOW_CHROMA`, `dc + dh^2` from it on.
pub open spec fn distance(e: Lch, q: Lch) -> int {
    let dc = abs_diff(e.chroma as int, q.chroma as int);
    let dh = hue_delta(e.hue as int, q.hue as int);
    if e.chroma < LOW_CHROMA {
        dc * dc + dh * dh
    } else {
        dc * SCALE + dh * dh
    }
}

/// `i` is the entry of least distance, the last one among equals.
pub open spec fn is_nearest(q: Lch, entries: Seq<Lch>, i: int) -> bool {
    &&& 0 <= i < entries.len()
    &&& forall|j: int| 0 <= j < entries.len() ==> distance(entries[i], q) <= distance(#[trigger] entries[j], q)
    &&& forall|j: int| i < j < entries.len() ==> distance(entries[i], q) < distance(#[trigger] entries[j], q)
}

pub open spec fn all_wf(entries: Seq<Lch>) -> bool {
    forall|i: int| 0 <= i < entries.len() ==> (#[trigger] entries[i]).wf()
}

fn hue_distance(a: u32, b: u32) -> (r: u32)
    requires
        a < 360 * SCALE,
        b < 360 * SCALE,
    ensures
        r == hue_delta(a as int, b as int),
        r <= 180 * SCALE,
{
    let d = if a >= b { a - b } else { b - a };
    if d <= 360 * SCALE - d {
        d
    } else {
        360 * SCALE - d
    }
}

/// The distance of entry `e` from query `q`.
pub fn entry_distance(e: &Lch, q: &Lch) -> (r: u128)
    requires
        e.wf(),
        q.wf(),
    ensures
        r == distance(*e, *q),
{
    let dc: u128 = if e.chroma >= q.chroma {
        (e.chroma - q.chroma) as u128
    } else {
        (q.chroma - e.chroma) as u128
    };
    let dh: u128 = hue_distance(e.hue, q.hue) as u128;
    assert(dh * dh <= 1800000 * 1800000) by (nonlinear_arith)
        requires
            dh <= 1800000,
    ;
    assert(dc * dc <= 0xffff_ffff * 0xffff_ffff) by (nonlinear_arith)
        requires
            dc <= 0xffff_ffff,
    ;
    assert(dc * 10000 <= 0xffff_ffff * 10000) by (nonlinear_arith)
        requires
            dc <= 0xffff_ffff,
    ;
    assert(dc * 10000 <= 0xffff_ffff * 10000) by (nonlinear_arith)
        requires
            dc <= 0xffff_ffff,
    ;
    if e.chroma < LOW_CHROMA {
        dc * dc + dh * dh
    } else {
        dc * SCALE as u128 + dh * dh
    }
}

/// The index of the palette entry nearest to `query`; on equal distances the
/// later entry wins.
pub fn nearest_entry(query: &Lch, entries: &Vec<Lch>) -> (r: Result<usize, MatchError>)
    requires
        query.wf(),
        all_wf(entries@),
    ensures
        r is Err <==> entries@.len() == 0,
        r is Err ==> r == Err::<usize, MatchError>(MatchError::EmptyPalette),
        r is Ok ==> is_nearest(*query, entries@, r->Ok_0 as int),
{
    if entries.len() == 0 {
        return Err(MatchError::EmptyPalette);
    }
    let mut best: usize = 0;
    let mut best_d: u128 = entry_distance(&entries[0], query);
    let mut i: usize = 1;
    while i < entries.len()
        invariant
            query.wf(),
            all_wf(entries@),
            1 <= i <= entries@.len(),
            best < i,
            best_d == distance(entries@[best as int], *query),
            forall|j: int| 0 <= j < i ==> best_d <= distance(#[trigger] entries@[j], *query),
            forall|j: int| best < j < i ==> best_d < distance(#[trigger] entries@[j], *query),
        decreases entries@.len() - i,
    {
        let d = entry_distance(&entries[i], query);
        if d <= best_d {
            best = i;
            best_d = d;
        }
        i = i + 1;
    }
    Ok(best)
}

/// The nearest entry is determined by the query and the entries: two indices
/// that both meet its definition are the same.
pub proof fn lemma_nearest_unique(q: Lch, entries: Seq<Lch>, i: int, k: int)
    requires
        is_nearest(q, entries, i),
        is_nearest(q, entries, k),
    ensures
        i == k,
{
    if i < k {
        assert(distance(entries[i], q) < distance(entries[k], q));
        assert(distance(entries[k], q) <= distance(entries[i], q));
    } else if k < i {
        assert(distance(entries[k], q) < distance(entries[i], q));
        assert(distance(entries[i], q) <= distance(entries[k], q));
    }
}

} // verus!
