//! What holds of the engine across several calls.

use crate::cache::{CacheState, ExpressionId};
use crate::engine::{
    has_geometry, is_live, is_plottable, is_row, lemma_added_keeps_wf, lemma_changed_keeps_wf,
    lemma_row_is_found, pending_among, row_of, EngineState, Equation, Pass,
};
use crate::interaction::{spec_step, Cursor, Emission, Input, GraphState};
use crate::viewport::{Point, Viewport};
use vstd::prelude::*;

verus! {

/// Where none of the first `n` equations has a dirty entry, none of them is
/// pending.
proof fn lemma_clean_means_idle<C, T>(
    equations: Seq<Equation<C>>,
    cache: Map<ExpressionId, CacheState<T>>,
    n: nat,
)
    requires
        n <= equations.len(),
        forall|id: ExpressionId| #[trigger] cache.contains_key(id) ==> cache[id] is Clean,
    ensures
        pending_among(equations, cache, n) == Seq::<ExpressionId>::empty(),
    decreases n,
{
    if n > 0 {
        lemma_clean_means_idle(equations, cache, (n - 1) as nat);
    }
}

/// Whether `id` is one of the first `n` rows.
spec fn is_row_below<C>(equations: Seq<Equation<C>>, id: ExpressionId, n: nat) -> bool {
    exists|j: int| 0 <= j < n && is_row(equations, id, j)
}

/// Among the first `n` rows, `id` is pending exactly if it is one of them and
/// its entry is dirty.
proof fn lemma_pending_rows<C, T>(
    equations: Seq<Equation<C>>,
    cache: Map<ExpressionId, CacheState<T>>,
    n: nat,
    id: ExpressionId,
)
    requires
        n <= equations.len(),
    ensures
        pending_among(equations, cache, n).contains(id) <==> cache.contains_key(id)
            && cache[id] is Dirty && is_row_below(equations, id, n),
    decreases n,
{
    if n > 0 {
        lemma_pending_rows(equations, cache, (n - 1) as nat, id);
        let earlier = pending_among(equations, cache, (n - 1) as nat);
        let last = equations[n - 1].id;
        let all = pending_among(equations, cache, n);
        if cache.contains_key(last) && cache[last] is Dirty {
            assert(all == earlier.push(last));
            assert(all[earlier.len() as int] == last);
            if all.contains(id) {
                let k = choose|k: int| 0 <= k < all.len() && all[k] == id;
                if k < earlier.len() {
                    assert(earlier[k] == id);
                    assert(earlier.contains(id));
                } else {
                    assert(is_row(equations, id, n - 1));
                }
            }
            if earlier.contains(id) {
                let k = choose|k: int| 0 <= k < earlier.len() && earlier[k] == id;
                assert(all[k] == id);
            }
        }
        if is_row_below(equations, id, (n - 1) as nat) {
            let j = choose|j: int| 0 <= j < n - 1 && is_row(equations, id, j);
            assert(is_row(equations, id, j));
        }
        if is_row_below(equations, id, n) {
            let j = choose|j: int| 0 <= j < n && is_row(equations, id, j);
            if j < n - 1 {
                assert(is_row(equations, id, j));
            } else {
                assert(id == last);
            }
        }
        if id == last {
            assert(is_row(equations, id, n - 1));
        }
    }
}

/// A second draw finds nothing to do.
///
/// After one draw no equation is pending, and a draw that follows it without
/// an edit or a viewport change in between leaves every cache entry as it is:
/// whatever `plot` would return, none of it is stored.
pub proof fn law_redraw_reuses_cache<N, C, G, S, F: Fn(ExpressionId, &C, &Viewport<N>, &S) -> Pass<G>>(
    start: EngineState<N, C, G>,
    first: EngineState<N, C, G>,
    second: EngineState<N, C, G>,
    canvas_size: S,
    plot: F,
)
    requires
        start.wf(),
        start.drawn(first, canvas_size, plot),
        first.drawn(second, canvas_size, plot),
    ensures
        first.pending() == Seq::<ExpressionId>::empty(),
        second.cache == first.cache,
        second == first,
{
    assert forall|id: ExpressionId| #[trigger] first.cache.contains_key(id) implies first.cache[id]
        is Clean by {
        assert(start.cache.contains_key(id));
        assert(start.settles(first, id, canvas_size, plot));
    }
    lemma_clean_means_idle(first.equations, first.cache, first.equations.len());
    assert forall|id: ExpressionId| #[trigger] first.cache.contains_key(id) implies second.cache[id]
        == first.cache[id] by {
        assert(first.settles(second, id, canvas_size, plot));
    }
    assert(second.cache =~= first.cache);
}

/// An edit costs one sampling pass.
///
/// After the text of a live equation is replaced by one that compiles, that
/// equation is pending, once. The draw that follows samples it and stores what
/// `plot` returned for it; the draw after that samples nothing and leaves the
/// stored result in place.
pub proof fn law_edit_is_sampled_once<N, C, G, S, F: Fn(ExpressionId, &C, &Viewport<N>, &S) -> Pass<G>>(
    start: EngineState<N, C, G>,
    id: ExpressionId,
    source: String,
    compiled: C,
    first: EngineState<N, C, G>,
    second: EngineState<N, C, G>,
    canvas_size: S,
    plot: F,
)
    requires
        start.wf(),
        is_live(start.equations, id),
        start.changed(id, source, Ok(compiled)).drawn(first, canvas_size, plot),
        first.drawn(second, canvas_size, plot),
    ensures
        start.changed(id, source, Ok(compiled)).pending().contains(id),
        start.changed(id, source, Ok(compiled)).pending().no_duplicates(),
        first.cache.contains_key(id),
        first.cache[id] is Clean,
        plot.ensures((id, &compiled, &start.viewport, &canvas_size), first.cache[id]->Clean_0),
        first.pending() == Seq::<ExpressionId>::empty(),
        second.cache[id] == first.cache[id],
        second == first,
{
    let edited = start.changed(id, source, Ok(compiled));
    let row = row_of(start.equations, id);
    assert(is_row(start.equations, id, row));
    assert(is_row(edited.equations, id, row));
    lemma_changed_keeps_wf(start, id, source, Ok(compiled));
    lemma_row_is_found(edited, id, row);
    lemma_pending_rows(edited.equations, edited.cache, edited.equations.len(), id);
    lemma_pending_apart(edited, edited.equations.len());
    assert(edited.settles(first, id, canvas_size, plot));
    law_redraw_reuses_cache(edited, first, second, canvas_size, plot);
}

/// The pending equations are listed once each.
proof fn lemma_pending_apart<N, C, G>(state: EngineState<N, C, G>, n: nat)
    requires
        state.wf(),
        n <= state.equations.len(),
    ensures
        pending_among(state.equations, state.cache, n).no_duplicates(),
    decreases n,
{
    if n > 0 {
        lemma_pending_apart(state, (n - 1) as nat);
        let earlier = pending_among(state.equations, state.cache, (n - 1) as nat);
        let last = state.equations[n - 1].id;
        lemma_pending_rows(state.equations, state.cache, (n - 1) as nat, last);
        if earlier.contains(last) {
            let j = choose|j: int| 0 <= j < n - 1 && is_row(state.equations, last, j);
            assert(state.equations[j].id.0 < state.equations[n - 1].id.0);
        }
    }
}

/// An edit invalidates one equation.
///
/// Replacing the text of `id` leaves the viewport, every other row of the
/// table and every other cache entry as they were.
pub proof fn law_edit_is_local<N, C, G>(
    start: EngineState<N, C, G>,
    id: ExpressionId,
    source: String,
    compiled: Result<C, String>,
    other: ExpressionId,
)
    requires
        start.wf(),
        other != id,
    ensures
        start.changed(id, source, compiled).wf(),
        start.changed(id, source, compiled).viewport == start.viewport,
        start.changed(id, source, compiled).cache.contains_key(other) == start.cache.contains_key(
            other,
        ),
        start.changed(id, source, compiled).cache[other] == start.cache[other],
        is_live(start.changed(id, source, compiled).equations, other) == is_live(
            start.equations,
            other,
        ),
        start.changed(id, source, compiled).error_of(other) == start.error_of(other),
{
    let edited = start.changed(id, source, compiled);
    lemma_changed_keeps_wf(start, id, source, compiled);
    if is_live(start.equations, id) {
        let row = row_of(start.equations, id);
        assert(is_row(start.equations, id, row));
        assert forall|i: int| 0 <= i < edited.equations.len() implies (
        #[trigger] edited.equations[i]).id == start.equations[i].id by {}
        if is_live(start.equations, other) {
            let i = row_of(start.equations, other);
            assert(is_row(start.equations, other, i));
            assert(is_row(edited.equations, other, i));
            lemma_row_is_found(edited, other, i);
        }
        if is_live(edited.equations, other) {
            let i = row_of(edited.equations, other);
            assert(is_row(edited.equations, other, i));
            assert(is_row(start.equations, other, i));
        }
    }
}

/// A viewport change invalidates every equation.
///
/// After a pan or a zoom every cache entry is dirty: each plottable equation
/// is sampled anew by the next draw, and the table is as it was.
pub proof fn law_viewport_change_is_global<N, C, G>(
    start: EngineState<N, C, G>,
    new_scale: N,
    new_mid: Option<Point<N>>,
    centre: Point<N>,
    id: ExpressionId,
)
    requires
        start.wf(),
        is_plottable(start.equations, id),
    ensures
        start.zoomed(new_scale, new_mid).pending().contains(id),
        start.panned(centre).pending().contains(id),
        start.zoomed(new_scale, new_mid).equations == start.equations,
        start.panned(centre).equations == start.equations,
        !has_geometry(start.zoomed(new_scale, new_mid).cache, id),
        !has_geometry(start.panned(centre).cache, id),
{
    let zoomed = start.zoomed(new_scale, new_mid);
    let panned = start.panned(centre);
    assert(start.cache.contains_key(id));
    let row = choose|i: int| is_row(start.equations, id, i) && start.equations[i].compiled is Ok;
    assert(is_row(start.equations, id, row));
    lemma_pending_rows(zoomed.equations, zoomed.cache, zoomed.equations.len(), id);
    lemma_pending_rows(panned.equations, panned.cache, panned.equations.len(), id);
}

/// An id is handed out once.
///
/// The id of a new equation belongs to no live equation, and is above the id
/// of each of them; the rows that were there stay as they were.
pub proof fn law_new_id_is_fresh<N, C, G>(
    start: EngineState<N, C, G>,
    source: String,
    compiled: Result<C, String>,
)
    requires
        start.wf(),
        start.can_add(),
    ensures
        start.added(source, compiled).wf(),
        !is_live(start.equations, ExpressionId(start.next_id as u32)),
        forall|i: int|
            0 <= i < start.equations.len() ==> (#[trigger] start.equations[i]).id.0
                < start.next_id && start.added(source, compiled).equations[i]
                == start.equations[i],
        is_live(start.added(source, compiled).equations, ExpressionId(start.next_id as u32)),
{
    let id = ExpressionId(start.next_id as u32);
    let after = start.added(source, compiled);
    lemma_added_keeps_wf(start, source, compiled);
    if is_live(start.equations, id) {
        let i = choose|i: int| is_row(start.equations, id, i);
        assert(start.equations[i].id.0 < start.next_id);
    }
    assert(is_row(after.equations, id, start.equations.len() as int));
}

/// The wheel leaves a drag alone, and an event away from the canvas changes
/// nothing.
pub proof fn law_drag_state_is_kept<N>(state: GraphState<N>, delta_y: N, cursor: Cursor<N>, input: Input<N>)
    ensures
        spec_step(state, Input::Wheel(delta_y), cursor).next == state,
        cursor is Outside && !(input is FocusLost) ==> spec_step(state, input, cursor).next == state
            && spec_step(state, input, cursor).emission == Emission::<N>::Nothing,
{
}

} // verus!
