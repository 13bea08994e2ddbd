//! The plotting engine: the viewport, the table of equations and the render
//! cache, changed by the host's events and read once per frame.
//!
//! The engine computes no geometry. Compiling is the host's work, and so is the
//! sampling pass of one equation, which `draw` asks for through `plot` exactly
//! where the cache holds nothing usable.

use crate::cache::{CacheState, ExpressionId, RenderCache};
use crate::viewport::{Point, Viewport};
use vstd::prelude::*;

verus! {

/// One row of the equation table.
#[derive(Debug)]
pub struct Equation<C> {
    pub id: ExpressionId,
    /// The text as the user wrote it.
    pub definition: String,
    /// The compiled form, or the compiler's message.
    pub compiled: Result<C, String>,
}

/// What one sampling pass left: the geometry, or the message of the error that
/// aborted it.
pub type Pass<G> = Result<G, String>;

/// One thing for the host to paint. The host finds the geometry of a graph in
/// the cache and computes the axes anew for each frame.
#[derive(Debug, Clone, Copy, PartialEq, Eq, Structural)]
pub enum DrawItem {
    /// The cached geometry of this equation.
    Graph(ExpressionId),
    /// The line through data x = 0.
    VerticalAxis,
    /// The line through data y = 0.
    HorizontalAxis,
}

/// What one call of `draw` hands to the host.
#[derive(Debug)]
pub struct Frame {
    /// What to paint, in this order.
    pub items: Vec<DrawItem>,
    /// The equations that were sampled anew for this frame, oldest first.
    pub recomputed: Vec<ExpressionId>,
}

/// The engine as the contracts see it.
pub struct EngineState<N, C, G> {
    pub viewport: Viewport<N>,
    /// The live equations, oldest first.
    pub equations: Seq<Equation<C>>,
    pub cache: Map<ExpressionId, CacheState<Pass<G>>>,
    /// The number of the next id to hand out.
    pub next_id: nat,
}

/// The cache with every entry marked dirty.
pub open spec fn all_dirty<T>(cache: Map<ExpressionId, CacheState<T>>) -> Map<
    ExpressionId,
    CacheState<T>,
> {
    Map::new(|id: ExpressionId| cache.contains_key(id), |id: ExpressionId| CacheState::Dirty)
}

/// Whether row `i` of `equations` is the equation `id`.
pub open spec fn is_row<C>(equations: Seq<Equation<C>>, id: ExpressionId, i: int) -> bool {
    0 <= i < equations.len() && equations[i].id == id
}

/// Whether `id` is a live equation.
pub open spec fn is_live<C>(equations: Seq<Equation<C>>, id: ExpressionId) -> bool {
    exists|i: int| is_row(equations, id, i)
}

/// The row of the live equation `id`.
pub open spec fn row_of<C>(equations: Seq<Equation<C>>, id: ExpressionId) -> int {
    choose|i: int| is_row(equations, id, i)
}

/// Whether `id` is a live equation that compiled.
pub open spec fn is_plottable<C>(equations: Seq<Equation<C>>, id: ExpressionId) -> bool {
    exists|i: int| is_row(equations, id, i) && equations[i].compiled is Ok
}

/// The compiled form of the plottable equation `id`.
pub open spec fn compiled_of<C>(equations: Seq<Equation<C>>, id: ExpressionId) -> C {
    equations[row_of(equations, id)].compiled->Ok_0
}

/// Those of the first `n` equations whose cache entry is dirty, oldest first.
pub open spec fn pending_among<C, T>(
    equations: Seq<Equation<C>>,
    cache: Map<ExpressionId, CacheState<T>>,
    n: nat,
) -> Seq<ExpressionId>
    decreases n,
{
    if n == 0 {
        Seq::empty()
    } else {
        let earlier = pending_among(equations, cache, (n - 1) as nat);
        let id = equations[n - 1].id;
        if cache.contains_key(id) && cache[id] is Dirty {
            earlier.push(id)
        } else {
            earlier
        }
    }
}

/// Whether the cache holds geometry for `id`: a clean entry of a pass that was
/// not aborted.
pub open spec fn has_geometry<G>(
    cache: Map<ExpressionId, CacheState<Pass<G>>>,
    id: ExpressionId,
) -> bool {
    cache.contains_key(id) && cache[id] matches CacheState::Clean(Ok(_))
}

/// A graph item for each of the first `n` equations that the cache holds
/// geometry for, oldest first.
pub open spec fn graphs_among<C, G>(
    equations: Seq<Equation<C>>,
    cache: Map<ExpressionId, CacheState<Pass<G>>>,
    n: nat,
) -> Seq<DrawItem>
    decreases n,
{
    if n == 0 {
        Seq::empty()
    } else {
        let earlier = graphs_among(equations, cache, (n - 1) as nat);
        let id = equations[n - 1].id;
        if has_geometry(cache, id) {
            earlier.push(DrawItem::Graph(id))
        } else {
            earlier
        }
    }
}

impl<N, C, G> EngineState<N, C, G> {
    /// The invariant of the engine: a viewport of at least two samples, ids in
    /// the order in which they were handed out and below the next one, and a
    /// cache entry for exactly the equations that compiled.
    pub open spec fn wf(self) -> bool {
        &&& self.viewport.wf()
        &&& self.next_id <= u32::MAX
        &&& forall|i: int|
            0 <= i < self.equations.len() ==> (#[trigger] self.equations[i]).id.0 < self.next_id
        &&& forall|i: int, j: int|
            0 <= i < j < self.equations.len() ==> (#[trigger] self.equations[i]).id.0 < (
            #[trigger] self.equations[j]).id.0
        &&& forall|id: ExpressionId| #[trigger]
            self.cache.contains_key(id) <==> is_plottable(self.equations, id)
    }

    /// Whether an id is left to hand out.
    pub open spec fn can_add(self) -> bool {
        self.next_id < u32::MAX
    }

    /// After `equation_added`, where an id is left: a new last row under the
    /// next id, with a fresh dirty cache entry if it compiled.
    pub open spec fn added(self, source: String, compiled: Result<C, String>) -> Self {
        let id = ExpressionId(self.next_id as u32);
        EngineState {
            equations: self.equations.push(Equation { id, definition: source, compiled }),
            cache: if compiled is Ok {
                self.cache.insert(id, CacheState::Dirty)
            } else {
                self.cache
            },
            next_id: self.next_id + 1,
            ..self
        }
    }

    /// After `equation_changed`: the row of `id` holds the new text and what
    /// the compiler made of it; its cache entry is fresh and dirty if it
    /// compiled and gone if it did not. The other rows and entries stay. An id
    /// that is not live changes nothing.
    pub open spec fn changed(
        self,
        id: ExpressionId,
        source: String,
        compiled: Result<C, String>,
    ) -> Self {
        if is_live(self.equations, id) {
            EngineState {
                equations: self.equations.update(
                    row_of(self.equations, id),
                    Equation { id, definition: source, compiled },
                ),
                cache: if compiled is Ok {
                    self.cache.insert(id, CacheState::Dirty)
                } else {
                    self.cache.remove(id)
                },
                ..self
            }
        } else {
            self
        }
    }

    /// After `equation_removed`: the row of `id` and its cache entry are gone.
    /// An id that is not live changes nothing.
    pub open spec fn removed(self, id: ExpressionId) -> Self {
        if is_live(self.equations, id) {
            EngineState {
                equations: self.equations.remove(row_of(self.equations, id)),
                cache: self.cache.remove(id),
                ..self
            }
        } else {
            self
        }
    }

    /// The message attached to `id`: what the compiler said of an equation that
    /// did not compile, else what aborted its last sampling pass.
    pub open spec fn error_of(self, id: ExpressionId) -> Option<String> {
        if is_live(self.equations, id) {
            match self.equations[row_of(self.equations, id)].compiled {
                Err(message) => Some(message),
                Ok(_) => match self.cache.get(id) {
                    Some(CacheState::Clean(Err(message))) => Some(message),
                    _ => None,
                },
            }
        } else {
            None
        }
    }

    /// The geometry that the cache holds for `id`.
    pub open spec fn geometry_of(self, id: ExpressionId) -> Option<G> {
        match self.cache.get(id) {
            Some(CacheState::Clean(Ok(geometry))) => Some(geometry),
            _ => None,
        }
    }

    /// The equations that the next draw samples anew, oldest first.
    pub open spec fn pending(self) -> Seq<ExpressionId> {
        pending_among(self.equations, self.cache, self.equations.len())
    }

    /// What a frame of this state shows: the graphs that the cache holds
    /// geometry for, oldest first, and after them the two axes.
    pub open spec fn draw_list(self) -> Seq<DrawItem> {
        graphs_among(self.equations, self.cache, self.equations.len()).push(
            DrawItem::VerticalAxis,
        ).push(DrawItem::HorizontalAxis)
    }

    /// Whether `plot` accepts every plottable equation with this viewport and
    /// `canvas_size`.
    pub open spec fn plot_accepts<S, F: Fn(ExpressionId, &C, &Viewport<N>, &S) -> Pass<G>>(
        self,
        canvas_size: S,
        plot: F,
    ) -> bool {
        forall|i: int|
            0 <= i < self.equations.len() && (#[trigger] self.equations[i]).compiled is Ok
                ==> plot.requires(
                (
                    self.equations[i].id,
                    &self.equations[i].compiled->Ok_0,
                    &self.viewport,
                    &canvas_size,
                ),
            )
    }

    /// Whether the entry of `id` in `post` is what a draw makes of its entry
    /// here: a clean entry as it was, a dirty one clean with a result of `plot`
    /// on this equation, this viewport and `canvas_size`.
    pub open spec fn settles<S, F: Fn(ExpressionId, &C, &Viewport<N>, &S) -> Pass<G>>(
        self,
        post: Self,
        id: ExpressionId,
        canvas_size: S,
        plot: F,
    ) -> bool {
        &&& post.cache.contains_key(id)
        &&& match self.cache[id] {
            CacheState::Clean(_) => post.cache[id] == self.cache[id],
            CacheState::Dirty => post.cache[id] is Clean && plot.ensures(
                (id, &compiled_of(self.equations, id), &self.viewport, &canvas_size),
                post.cache[id]->Clean_0,
            ),
        }
    }

    /// Whether `post` is this state after one draw with `plot`: viewport, table
    /// and ids as they were, the same equations in the cache, and each entry
    /// settled on its own.
    pub open spec fn drawn<S, F: Fn(ExpressionId, &C, &Viewport<N>, &S) -> Pass<G>>(
        self,
        post: Self,
        canvas_size: S,
        plot: F,
    ) -> bool {
        &&& post.viewport == self.viewport
        &&& post.equations == self.equations
        &&& post.next_id == self.next_id
        &&& post.cache.dom() == self.cache.dom()
        &&& forall|id: ExpressionId| #[trigger]
            self.cache.contains_key(id) ==> self.settles(post, id, canvas_size, plot)
    }

    /// After `clear_caches`: every entry is dirty.
    pub open spec fn cleared(self) -> Self {
        EngineState { cache: all_dirty(self.cache), ..self }
    }

    /// After `pan`: the new centre, and every entry dirty.
    pub open spec fn panned(self, new_mid: Point<N>) -> Self {
        EngineState { viewport: self.viewport.panned(new_mid), cache: all_dirty(self.cache), ..self }
    }

    /// After `zoom`: the new scale, the new centre where one was given, and
    /// every entry dirty.
    pub open spec fn zoomed(self, new_scale: N, new_mid: Option<Point<N>>) -> Self {
        EngineState {
            viewport: self.viewport.zoomed(new_scale, new_mid),
            cache: all_dirty(self.cache),
            ..self
        }
    }
}

/// Viewport, equation table and render cache.
pub struct Engine<N, C, G> {
    viewport: Viewport<N>,
    equations: Vec<Equation<C>>,
    cache: RenderCache<Pass<G>>,
    next_id: u32,
}

impl<N, C, G> View for Engine<N, C, G> {
    type V = EngineState<N, C, G>;

    closed spec fn view(&self) -> EngineState<N, C, G> {
        EngineState {
            viewport: self.viewport,
            equations: self.equations@,
            cache: self.cache@,
            next_id: self.next_id as nat,
        }
    }
}

impl<N, C, G> Engine<N, C, G> {
    /// An engine without equations.
    pub fn new(viewport: Viewport<N>) -> (engine: Self)
        requires
            viewport.wf(),
        ensures
            engine@.wf(),
            engine@ == (EngineState::<N, C, G> {
                viewport,
                equations: Seq::empty(),
                cache: Map::empty(),
                next_id: 0,
            }),
    {
        Engine { viewport, equations: Vec::new(), cache: RenderCache::new(), next_id: 0 }
    }

    /// The viewport.
    pub fn viewport(&self) -> (viewport: &Viewport<N>)
        ensures
            *viewport == self@.viewport,
    {
        &self.viewport
    }

    /// The live equations, oldest first.
    pub fn equations(&self) -> (equations: &Vec<Equation<C>>)
        ensures
            equations@ == self@.equations,
    {
        &self.equations
    }

    /// The geometry of the last sampling pass of `id`, where the cache holds
    /// one: the entry is clean and the pass was not aborted.
    pub fn geometry(&self, id: ExpressionId) -> (geometry: Option<&G>)
        ensures
            geometry == match self@.geometry_of(id) {
                Some(stored) => Some(&stored),
                None => None,
            },
    {
        match self.cache.get(id) {
            Some(Ok(geometry)) => Some(geometry),
            _ => None,
        }
    }

    /// The message to show beside the equation `id`, if there is one.
    pub fn error(&self, id: ExpressionId) -> (message: Option<&String>)
        requires
            self@.wf(),
        ensures
            message == match self@.error_of(id) {
                Some(text) => Some(&text),
                None => None,
            },
    {
        match self.find(id) {
            None => None,
            Some(row) => {
                proof {
                    lemma_row_is_found(self@, id, row as int);
                }
                match &self.equations[row].compiled {
                    Err(message) => Some(message),
                    Ok(_) => match self.cache.get(id) {
                        Some(Err(message)) => Some(message),
                        _ => None,
                    },
                }
            },
        }
    }

    /// The equations that the next draw samples anew, oldest first.
    pub fn pending(&self) -> (ids: Vec<ExpressionId>)
        ensures
            ids@ == self@.pending(),
    {
        let mut ids: Vec<ExpressionId> = Vec::new();
        let n = self.equations.len();
        let mut i: usize = 0;
        while i < n
            invariant
                0 <= i <= n,
                n == self.equations.len(),
                ids@ == pending_among(self.equations@, self.cache@, i as nat),
            decreases n - i,
        {
            let id = self.equations[i].id;
            if self.cache.is_dirty(id) {
                ids.push(id);
            }
            i = i + 1;
        }
        ids
    }

    /// Marks the cache entry of every live equation dirty.
    pub fn clear_caches(&mut self)
        requires
            old(self)@.wf(),
        ensures
            final(self)@ == old(self)@.cleared(),
            final(self)@.wf(),
    {
        let n = self.equations.len();
        let mut i: usize = 0;
        while i < n
            invariant
                0 <= i <= n,
                n == self.equations.len(),
                self.equations == old(self).equations,
                self.viewport == old(self).viewport,
                self.next_id == old(self).next_id,
                old(self)@.wf(),
                forall|id: ExpressionId|
                    self.cache@.contains_key(id) <==> old(self).cache@.contains_key(id),
                forall|id: ExpressionId| #[trigger]
                    self.cache@.contains_key(id) ==> self.cache@[id] == if exists|j: int|
                        0 <= j < i && is_row(self.equations@, id, j) {
                        CacheState::Dirty
                    } else {
                        old(self).cache@[id]
                    },
            decreases n - i,
        {
            let id = self.equations[i].id;
            self.cache.clear(id);
            assert(is_row(self.equations@, id, i as int));
            i = i + 1;
        }
        assert(self.cache@ =~= all_dirty(old(self).cache@)) by {
            assert forall|id: ExpressionId| #[trigger]
                self.cache@.contains_key(id) implies self.cache@[id] == CacheState::<
                Pass<G>,
            >::Dirty by {
                assert(old(self)@.cache.contains_key(id));
                assert(is_plottable(old(self)@.equations, id));
            }
        }
    }

    /// Moves the centre of the viewport to `new_mid` and marks every cache entry
    /// dirty.
    pub fn pan(&mut self, new_mid: Point<N>)
        requires
            old(self)@.wf(),
        ensures
            final(self)@ == old(self)@.panned(new_mid),
            final(self)@.wf(),
    {
        self.viewport.pan(new_mid);
        proof {
            lemma_viewport_apart(old(self)@, self@);
        }
        self.clear_caches();
    }

    /// Takes a new scale and, where one is given, a new centre, and marks every
    /// cache entry dirty.
    pub fn zoom(&mut self, new_scale: N, new_mid: Option<Point<N>>)
        requires
            old(self)@.wf(),
        ensures
            final(self)@ == old(self)@.zoomed(new_scale, new_mid),
            final(self)@.wf(),
    {
        self.viewport.zoom(new_scale, new_mid);
        proof {
            lemma_viewport_apart(old(self)@, self@);
        }
        self.clear_caches();
    }

    /// The row of `id` in the table.
    fn find(&self, id: ExpressionId) -> (row: Option<usize>)
        ensures
            match row {
                Some(i) => is_row(self@.equations, id, i as int),
                None => !is_live(self@.equations, id),
            },
    {
        let n = self.equations.len();
        let mut i: usize = 0;
        while i < n
            invariant
                0 <= i <= n,
                n == self.equations.len(),
                forall|j: int| 0 <= j < i ==> !is_row(self.equations@, id, j),
            decreases n - i,
        {
            if self.equations[i].id == id {
                return Some(i);
            }
            i = i + 1;
        }
        None
    }

    /// Whether `id` is a live equation.
    pub fn is_live(&self, id: ExpressionId) -> (live: bool)
        ensures
            live == is_live(self@.equations, id),
    {
        self.find(id).is_some()
    }

    /// Takes a new equation into the table and hands out its id.
    ///
    /// `compiled` is what the compiler made of `source`. The equation gets the
    /// next id, which no equation had before, and if it compiled, a fresh dirty
    /// cache entry. Once the ids are used up the table stays as it is and no id
    /// is handed out.
    pub fn equation_added(&mut self, source: String, compiled: Result<C, String>) -> (id: Option<
        ExpressionId,
    >)
        requires
            old(self)@.wf(),
        ensures
            final(self)@.wf(),
            match id {
                Some(id) => old(self)@.can_add() && id == ExpressionId(old(self)@.next_id as u32)
                    && final(self)@ == old(self)@.added(source, compiled),
                None => !old(self)@.can_add() && final(self)@ == old(self)@,
            },
    {
        if self.next_id == u32::MAX {
            return None;
        }
        let id = ExpressionId(self.next_id);
        if compiled.is_ok() {
            self.cache.insert(id);
        }
        self.equations.push(Equation { id, definition: source, compiled });
        self.next_id = self.next_id + 1;
        proof {
            lemma_added_keeps_wf(old(self)@, source, compiled);
        }
        Some(id)
    }

    /// Replaces the text of the equation `id`.
    ///
    /// `compiled` is what the compiler made of `source`. If it compiled, the
    /// equation has a fresh dirty cache entry afterwards; if not, it has none.
    /// No other equation is touched. Returns whether `id` is live; an id that is
    /// not changes nothing.
    pub fn equation_changed(
        &mut self,
        id: ExpressionId,
        source: String,
        compiled: Result<C, String>,
    ) -> (live: bool)
        requires
            old(self)@.wf(),
        ensures
            final(self)@.wf(),
            live == is_live(old(self)@.equations, id),
            final(self)@ == old(self)@.changed(id, source, compiled),
    {
        match self.find(id) {
            None => false,
            Some(row) => {
                if compiled.is_ok() {
                    self.cache.insert(id);
                } else {
                    self.cache.remove(id);
                }
                self.equations[row] = Equation { id, definition: source, compiled };
                proof {
                    lemma_row_is_found(old(self)@, id, row as int);
                    lemma_changed_keeps_wf(old(self)@, id, source, compiled);
                }
                true
            },
        }
    }

    /// Takes the equation `id` out of the table, with its cache entry. No other
    /// equation is touched. Returns whether `id` was live; an id that was not
    /// changes nothing.
    pub fn equation_removed(&mut self, id: ExpressionId) -> (live: bool)
        requires
            old(self)@.wf(),
        ensures
            final(self)@.wf(),
            live == is_live(old(self)@.equations, id),
            final(self)@ == old(self)@.removed(id),
    {
        match self.find(id) {
            None => false,
            Some(row) => {
                self.cache.remove(id);
                self.equations.remove(row);
                proof {
                    lemma_row_is_found(old(self)@, id, row as int);
                    lemma_removed_keeps_wf(old(self)@, id);
                }
                true
            },
        }
    }

    /// Draws one frame.
    ///
    /// Each plottable equation whose cache entry is dirty is handed to `plot`,
    /// once, with the viewport and `canvas_size`, and what `plot` returns is
    /// stored: the geometry, or the message of the error that aborted the pass.
    /// A clean entry is left as it is and `plot` is not called for it. The frame
    /// lists a graph for each equation that the cache then holds geometry for,
    /// oldest first, and the two axes after them, and names the equations that
    /// were sampled anew.
    pub fn draw<S, F>(&mut self, canvas_size: &S, plot: F) -> (frame: Frame) where
        F: Fn(ExpressionId, &C, &Viewport<N>, &S) -> Pass<G>,

        requires
            old(self)@.wf(),
            old(self)@.plot_accepts(*canvas_size, plot),
        ensures
            final(self)@.wf(),
            old(self)@.drawn(final(self)@, *canvas_size, plot),
            frame.recomputed@ == old(self)@.pending(),
            frame.items@ == final(self)@.draw_list(),
            final(self)@.pending() == Seq::<ExpressionId>::empty(),
    {
        let mut items: Vec<DrawItem> = Vec::new();
        let mut recomputed: Vec<ExpressionId> = Vec::new();
        let n = self.equations.len();
        let mut i: usize = 0;
        while i < n
            invariant
                0 <= i <= n,
                n == self.equations.len(),
                old(self)@.wf(),
                old(self)@.plot_accepts(*canvas_size, plot),
                self.equations == old(self).equations,
                self.viewport == old(self).viewport,
                self.next_id == old(self).next_id,
                self.cache@.dom() == old(self).cache@.dom(),
                forall|j: int|
                    0 <= j < i && old(self).cache@.contains_key(
                        (#[trigger] self.equations@[j]).id,
                    ) ==> old(self)@.settles(self@, self.equations@[j].id, *canvas_size, plot),
                forall|j: int|
                    i <= j < n && old(self).cache@.contains_key(
                        (#[trigger] self.equations@[j]).id,
                    ) ==> self.cache@[self.equations@[j].id] == old(self).cache@[self.equations@[j].id],
                recomputed@ == pending_among(self.equations@, old(self).cache@, i as nat),
                items@ == graphs_among(self.equations@, self.cache@, i as nat),
                pending_among(self.equations@, self.cache@, i as nat) == Seq::<
                    ExpressionId,
                >::empty(),
            decreases n - i,
        {
            let ghost before = self.cache@;
            let equation = &self.equations[i];
            let id = equation.id;
            match &equation.compiled {
                Ok(compiled) => {
                    proof {
                        lemma_row_is_found(old(self)@, id, i as int);
                        assert(is_plottable(old(self)@.equations, id));
                    }
                    if self.cache.is_dirty(id) {
                        recomputed.push(id);
                    }
                    let viewport = &self.viewport;
                    let compute = |v: &Viewport<N>, s: &S| -> (pass: Pass<G>)
                        requires
                            plot.requires((id, compiled, v, s)),
                        ensures
                            plot.ensures((id, compiled, v, s), pass),
                        {
                            plot(id, compiled, v, s)
                        };
                    let stored = self.cache.get_or_compute(id, viewport, canvas_size, compute);
                    match stored {
                        Some(Ok(_)) => {
                            items.push(DrawItem::Graph(id));
                        },
                        _ => {},
                    }
                },
                Err(_) => {
                    proof {
                        assert(!self.cache@.contains_key(id)) by {
                            if old(self)@.cache.contains_key(id) {
                                let k = choose|k: int|
                                    is_row(old(self)@.equations, id, k)
                                        && old(self)@.equations[k].compiled is Ok;
                                assert(k == i);
                            }
                        }
                    }
                },
            }
            proof {
                lemma_rows_apart(old(self)@, i as int);
                lemma_same_before(self.equations@, before, self.cache@, i as nat);
            }
            i = i + 1;
        }
        items.push(DrawItem::VerticalAxis);
        items.push(DrawItem::HorizontalAxis);
        proof {
            assert forall|id: ExpressionId| #[trigger]
                old(self)@.cache.contains_key(id) implies old(self)@.settles(
                self@,
                id,
                *canvas_size,
                plot,
            ) by {
                assert(is_plottable(old(self)@.equations, id));
                let k = choose|k: int|
                    is_row(old(self)@.equations, id, k) && old(self)@.equations[k].compiled is Ok;
                assert(self.equations@[k].id == id);
            }
            assert forall|id: ExpressionId| #[trigger]
                self@.cache.contains_key(id) <==> is_plottable(self@.equations, id) by {
                assert(old(self)@.cache.contains_key(id) <==> self@.cache.contains_key(id));
            }
        }
        Frame { items, recomputed }
    }
}

/// A state stays well-formed under a new viewport of the same resolution.
proof fn lemma_viewport_apart<N, C, G>(pre: EngineState<N, C, G>, post: EngineState<N, C, G>)
    requires
        pre.wf(),
        post.viewport.resolution == pre.viewport.resolution,
        post.equations == pre.equations,
        post.cache == pre.cache,
        post.next_id == pre.next_id,
    ensures
        post.wf(),
{
    assert forall|id: ExpressionId| #[trigger]
        post.cache.contains_key(id) <==> is_plottable(post.equations, id) by {
        assert(pre.cache.contains_key(id) <==> is_plottable(pre.equations, id));
    }
}

/// In a well-formed state no two rows hold the same id.
pub proof fn lemma_rows_apart<N, C, G>(state: EngineState<N, C, G>, i: int)
    requires
        state.wf(),
        0 <= i < state.equations.len(),
    ensures
        forall|j: int|
            0 <= j < state.equations.len() && j != i ==> (#[trigger] state.equations[j]).id
                != state.equations[i].id,
{
    assert forall|j: int| 0 <= j < state.equations.len() && j != i implies (
    #[trigger] state.equations[j]).id != state.equations[i].id by {
        if j < i {
            assert(state.equations[j].id.0 < state.equations[i].id.0);
        } else {
            assert(state.equations[i].id.0 < state.equations[j].id.0);
        }
    }
}

/// In a well-formed state the row that holds `id` is the row of `id`.
pub proof fn lemma_row_is_found<N, C, G>(state: EngineState<N, C, G>, id: ExpressionId, i: int)
    requires
        state.wf(),
        is_row(state.equations, id, i),
    ensures
        is_live(state.equations, id),
        row_of(state.equations, id) == i,
        is_plottable(state.equations, id) == (state.equations[i].compiled is Ok),
        state.cache.contains_key(id) == (state.equations[i].compiled is Ok),
{
    lemma_rows_apart(state, i);
    let found = row_of(state.equations, id);
    assert(is_row(state.equations, id, found));
    if is_plottable(state.equations, id) {
        let k = choose|k: int| is_row(state.equations, id, k) && state.equations[k].compiled is Ok;
        assert(k == i);
    }
}

/// A new equation leaves a well-formed state well-formed.
pub proof fn lemma_added_keeps_wf<N, C, G>(
    state: EngineState<N, C, G>,
    source: String,
    compiled: Result<C, String>,
)
    requires
        state.wf(),
        state.can_add(),
    ensures
        state.added(source, compiled).wf(),
{
    let id = ExpressionId(state.next_id as u32);
    let after = state.added(source, compiled);
    let last = state.equations.len() as int;
    assert(is_row(after.equations, id, last));
    assert forall|other: ExpressionId| #[trigger]
        after.cache.contains_key(other) <==> is_plottable(after.equations, other) by {
        if is_plottable(after.equations, other) {
            let i = choose|i: int|
                is_row(after.equations, other, i) && after.equations[i].compiled is Ok;
            if i < last {
                assert(is_row(state.equations, other, i));
                assert(state.cache.contains_key(other));
            }
        }
        if after.cache.contains_key(other) && !(other == id && compiled is Ok) {
            assert(state.cache.contains_key(other));
            let i = choose|i: int|
                is_row(state.equations, other, i) && state.equations[i].compiled is Ok;
            assert(is_row(after.equations, other, i));
        }
    }
}

/// An edit leaves a well-formed state well-formed.
pub proof fn lemma_changed_keeps_wf<N, C, G>(
    state: EngineState<N, C, G>,
    id: ExpressionId,
    source: String,
    compiled: Result<C, String>,
)
    requires
        state.wf(),
    ensures
        state.changed(id, source, compiled).wf(),
{
    let after = state.changed(id, source, compiled);
    if is_live(state.equations, id) {
        let row = row_of(state.equations, id);
        assert(is_row(state.equations, id, row));
        lemma_rows_apart(state, row);
        assert forall|i: int| 0 <= i < after.equations.len() implies (#[trigger] after.equations[i]).id
            == state.equations[i].id by {}
        assert(is_row(after.equations, id, row));
        assert forall|other: ExpressionId| #[trigger]
            after.cache.contains_key(other) <==> is_plottable(after.equations, other) by {
            if is_plottable(after.equations, other) {
                let i = choose|i: int|
                    is_row(after.equations, other, i) && after.equations[i].compiled is Ok;
                if i != row {
                    assert(is_row(state.equations, other, i));
                    assert(state.cache.contains_key(other));
                }
            }
            if after.cache.contains_key(other) && other != id {
                assert(state.cache.contains_key(other));
                let i = choose|i: int|
                    is_row(state.equations, other, i) && state.equations[i].compiled is Ok;
                assert(is_row(after.equations, other, i));
            }
        }
    }
}

/// Taking an equation out leaves a well-formed state well-formed.
pub proof fn lemma_removed_keeps_wf<N, C, G>(state: EngineState<N, C, G>, id: ExpressionId)
    requires
        state.wf(),
    ensures
        state.removed(id).wf(),
{
    let after = state.removed(id);
    if is_live(state.equations, id) {
        let row = row_of(state.equations, id);
        assert(is_row(state.equations, id, row));
        lemma_rows_apart(state, row);
        assert forall|i: int| 0 <= i < after.equations.len() implies (#[trigger] after.equations[i])
            == state.equations[if i < row {
            i
        } else {
            i + 1
        }] by {}
        assert forall|other: ExpressionId| #[trigger]
            after.cache.contains_key(other) <==> is_plottable(after.equations, other) by {
            if is_plottable(after.equations, other) {
                let i = choose|i: int|
                    is_row(after.equations, other, i) && after.equations[i].compiled is Ok;
                let k = if i < row {
                    i
                } else {
                    i + 1
                };
                assert(is_row(state.equations, other, k));
                assert(state.cache.contains_key(other));
            }
            if after.cache.contains_key(other) {
                assert(state.cache.contains_key(other));
                let i = choose|i: int|
                    is_row(state.equations, other, i) && state.equations[i].compiled is Ok;
                let k = if i < row {
                    i
                } else {
                    i - 1
                };
                assert(is_row(after.equations, other, k));
            }
        }
    }
}

/// Two caches that agree on the first `n` equations give the same graphs and
/// the same pending equations among them.
proof fn lemma_same_before<C, G>(
    equations: Seq<Equation<C>>,
    a: Map<ExpressionId, CacheState<Pass<G>>>,
    b: Map<ExpressionId, CacheState<Pass<G>>>,
    n: nat,
)
    requires
        n <= equations.len(),
        forall|j: int|
            0 <= j < n ==> a.contains_key((#[trigger] equations[j]).id) == b.contains_key(
                equations[j].id,
            ) && a[equations[j].id] == b[equations[j].id],
    ensures
        graphs_among(equations, a, n) == graphs_among(equations, b, n),
        pending_among(equations, a, n) == pending_among(equations, b, n),
    decreases n,
{
    if n > 0 {
        lemma_same_before(equations, a, b, (n - 1) as nat);
        assert(a.contains_key(equations[n - 1].id) == b.contains_key(equations[n - 1].id));
    }
}

} // verus!
