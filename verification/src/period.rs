//! The timeline of a manifest: whether a position lies before the end of
//! the presentation, and which period holds it.
//!
//! Times are whole millionths of a second.

use vstd::prelude::*;
use crate::error::ResolveError;
use crate::number::saturated_u64;
use crate::text::chars_of;
use crate::time::{duration_micros, duration_of};
use crate::tree::{as_ints, attribute_of, child_elements, ManifestTree, NodeView};

verus! {

/// The length that the attribute `name` of `node` gives, in millionths of a
/// second, if the node has this attribute.
pub open spec fn duration_attribute(tree: Seq<NodeView>, node: int, name: Seq<char>) -> Option<
    nat,
> {
    match attribute_of(tree, node, name) {
        Some(text) => Some(duration_micros(text)),
        None => None,
    }
}

/// The length of the presentation: the `mediaPresentationDuration` of the
/// manifest's root element, zero where it has none.
pub open spec fn presentation_micros(tree: Seq<NodeView>, mpd: int) -> nat {
    match duration_attribute(tree, mpd, "mediaPresentationDuration"@) {
        Some(length) => length,
        None => 0,
    }
}

/// The `Period` elements of the manifest, in document order.
pub open spec fn periods_of(tree: Seq<NodeView>, mpd: int) -> Seq<int> {
    child_elements(tree, mpd, "Period"@)
}

/// The length of a period: its `duration`, zero where it has none.
pub open spec fn period_length(tree: Seq<NodeView>, period: int) -> nat {
    match duration_attribute(tree, period, "duration"@) {
        Some(length) => length,
        None => 0,
    }
}

/// The time up to which period `k` is the one to play: its `start` where
/// it has one, else the boundary of the period before it (zero for the
/// first) plus its own `duration` (zero where it has none).
pub open spec fn period_boundary(tree: Seq<NodeView>, periods: Seq<int>, k: int) -> nat
    decreases k + 1,
{
    if k < 0 || k >= periods.len() {
        0
    } else {
        match duration_attribute(tree, periods[k], "start"@) {
            Some(start) => start,
            None => period_boundary(tree, periods, k - 1) + period_length(tree, periods[k]),
        }
    }
}

/// The first period from `k` on whose boundary is at or behind `position`,
/// or the last period where there is none.
pub open spec fn period_index_from(
    tree: Seq<NodeView>,
    periods: Seq<int>,
    position: int,
    k: int,
) -> int
    decreases periods.len() - k,
{
    if k >= periods.len() - 1 {
        periods.len() - 1
    } else if period_boundary(tree, periods, k) >= position {
        k
    } else {
        period_index_from(tree, periods, position, k + 1)
    }
}

/// The period that holds `position`: the first `Period` child of `mpd`, in
/// document order, whose boundary is at or behind `position`, or the last
/// one where there is none; `None` where the manifest has no period.
pub open spec fn period_at(tree: Seq<NodeView>, mpd: int, position: int) -> Option<int> {
    let periods = periods_of(tree, mpd);
    if periods.len() == 0 {
        None
    } else {
        Some(periods[period_index_from(tree, periods, position, 0)])
    }
}

/// The length that the attribute `name` of `node` gives, held at 64 bits.
fn get_duration_attribute(tree: &ManifestTree, node: usize, name: &str) -> (length: Option<u64>)
    ensures
        length == match duration_attribute(tree@, node as int, name@) {
            Some(l) => Some(saturated_u64(l)),
            None => None,
        },
{
    let name_chars = chars_of(name);
    match tree.attribute(node, &name_chars) {
        Some(text) => Some(duration_of(text)),
        None => None,
    }
}

/// The `start` of a period, if it has one.
fn get_start(tree: &ManifestTree, period: usize) -> (start: Option<u64>)
    ensures
        start == match duration_attribute(tree@, period as int, "start"@) {
            Some(l) => Some(saturated_u64(l)),
            None => None,
        },
{
    get_duration_attribute(tree, period, "start")
}

/// The `duration` of a period, if it has one.
fn get_duration(tree: &ManifestTree, period: usize) -> (length: Option<u64>)
    ensures
        length == match duration_attribute(tree@, period as int, "duration"@) {
            Some(l) => Some(saturated_u64(l)),
            None => None,
        },
{
    get_duration_attribute(tree, period, "duration")
}

/// Whether `position` is before the end of the presentation, whose length
/// is the `mediaPresentationDuration` of `mpd_node` (zero where it has
/// none). A negative position passes this test.
pub fn requested_position_is_valid(tree: &ManifestTree, mpd_node: usize, position: i64) -> (valid:
    bool)
    ensures
        valid == (position < presentation_micros(tree@, mpd_node as int)),
{
    let total: u64 = match get_duration_attribute(tree, mpd_node, "mediaPresentationDuration") {
        Some(length) => length,
        None => 0,
    };
    position < 0 || (position as u64) < total
}

/// Whether a time held at 64 bits is at or behind `position`.
fn reaches(held: u64, position: i64) -> (r: bool)
    ensures
        r == (held >= position),
{
    position <= 0 || held >= position as u64
}

/// The sum of two times held at 64 bits, held at 64 bits.
fn add_held(a: u64, b: u64) -> (sum: u64)
    ensures
        sum == saturated_u64((a + b) as nat),
{
    if a > u64::MAX - b {
        u64::MAX
    } else {
        a + b
    }
}

/// The boundary of a period, given the boundary of the period before it.
fn boundary_of(tree: &ManifestTree, period: usize, before: u64) -> (boundary: u64)
    ensures
        boundary == match duration_attribute(tree@, period as int, "start"@) {
            Some(start) => saturated_u64(start),
            None => saturated_u64(
                (before + saturated_u64(period_length(tree@, period as int))) as nat,
            ),
        },
{
    match get_start(tree, period) {
        Some(start) => start,
        None => {
            let length: u64 = match get_duration(tree, period) {
                Some(l) => l,
                None => 0,
            };
            add_held(before, length)
        },
    }
}

/// Finds the period that holds `position`.
///
/// The `Period` children of `mpd_node` are taken in document order, each
/// with its boundary (see `period_boundary`). The first whose boundary is
/// at or behind `position` is the one; where there is none, the last is.
/// A manifest without a period gives `NoPeriodFound`.
pub fn find_period(tree: &ManifestTree, mpd_node: usize, position: i64) -> (period: Result<
    usize,
    ResolveError,
>)
    ensures
        match period {
            Ok(node) => period_at(tree@, mpd_node as int, position as int) == Some(node as int),
            Err(e) => e == ResolveError::NoPeriodFound && period_at(
                tree@,
                mpd_node as int,
                position as int,
            ) is None,
        },
{
    let name = chars_of("Period");
    let periods = tree.child_elements(mpd_node, &name);
    let ghost ps = periods_of(tree@, mpd_node as int);
    assert(ps.len() == periods.len()) by {
        assert(as_ints(periods@).len() == periods@.len());
    }
    if periods.len() == 0 {
        return Err(ResolveError::NoPeriodFound);
    }
    let mut boundary: u64 = 0;
    let mut k: usize = 0;
    while k < periods.len() - 1
        invariant
            k < periods.len(),
            ps == periods_of(tree@, mpd_node as int),
            ps == as_ints(periods@),
            ps.len() == periods.len(),
            boundary == saturated_u64(period_boundary(tree@, ps, k - 1)),
            period_index_from(tree@, ps, position as int, 0) == period_index_from(
                tree@,
                ps,
                position as int,
                k as int,
            ),
        decreases periods.len() - k,
    {
        let period: usize = periods[k];
        assert(ps[k as int] == period);
        boundary = boundary_of(tree, period, boundary);
        if reaches(boundary, position) {
            return Ok(period);
        }
        k += 1;
    }
    assert(ps[k as int] == periods[k as int]);
    Ok(periods[k])
}

/// Of the period found from place `from` on: it lies at or behind `from`,
/// every period between has its boundary before `position`, and it has its
/// boundary at or behind `position` unless it is the last.
pub proof fn lemma_period_index(tree: Seq<NodeView>, periods: Seq<int>, position: int, from: int)
    requires
        0 <= from < periods.len(),
    ensures
        ({
            let k = period_index_from(tree, periods, position, from);
            &&& from <= k < periods.len()
            &&& forall|j: int|
                from <= j < k ==> #[trigger] period_boundary(tree, periods, j) < position
            &&& k == periods.len() - 1 || period_boundary(tree, periods, k) >= position
        }),
    decreases periods.len() - from,
{
    if from < periods.len() - 1 && period_boundary(tree, periods, from) < position {
        lemma_period_index(tree, periods, position, from + 1);
    }
}

/// Of the period found: every period before it has its boundary before
/// `position`, and it has its boundary at or behind `position` unless it is
/// the last. So a position that is exactly a boundary belongs to the period
/// that ends there.
pub proof fn lemma_period_found(tree: Seq<NodeView>, mpd: int, position: int)
    requires
        periods_of(tree, mpd).len() > 0,
    ensures
        ({
            let periods = periods_of(tree, mpd);
            let k = period_index_from(tree, periods, position, 0);
            &&& 0 <= k < periods.len()
            &&& period_at(tree, mpd, position) == Some(periods[k])
            &&& forall|j: int| 0 <= j < k ==> #[trigger] period_boundary(tree, periods, j) < position
            &&& k == periods.len() - 1 || period_boundary(tree, periods, k) >= position
        }),
{
    lemma_period_index(tree, periods_of(tree, mpd), position, 0);
}

/// Boundaries never go back where no period states a start: the boundary
/// of a period without `start` is at or behind that of the period before it.
pub proof fn lemma_boundaries_run_on(tree: Seq<NodeView>, periods: Seq<int>, k: int)
    requires
        0 <= k < periods.len(),
        duration_attribute(tree, periods[k], "start"@) is None,
    ensures
        period_boundary(tree, periods, k) == period_boundary(tree, periods, k - 1) + period_length(
            tree,
            periods[k],
        ),
        period_boundary(tree, periods, k) >= period_boundary(tree, periods, k - 1),
{
}

} // verus!
