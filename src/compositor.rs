//! Backing stores for the engine's layers and their composition into one frame.
//!
//! Each backing store the engine asks for becomes a layer in a table owned by the compositor.
//! The engine holds a [`LayerHandle`]: a slot index plus the generation of that slot, so a
//! handle of a collected layer never reaches another layer that later took its slot.
use vstd::prelude::*;

verus! {

/// Identifies one backing store handed to the engine.
#[derive(Clone, Copy, Debug, PartialEq, Eq, Structural)]
pub struct LayerHandle {
    pub index: usize,
    pub generation: u64,
}

/// What one layer of a frame holds.
#[derive(Clone, Copy, Debug, PartialEq, Eq, Structural)]
pub enum LayerContent {
    /// A backing store that this compositor created.
    BackingStore(LayerHandle),
    /// An embedded native view, which is not supported.
    PlatformView,
}

/// Why a compositor operation was refused. Each of them is a broken contract on the engine's
/// side.
#[derive(Clone, Copy, Debug, PartialEq, Eq, Structural)]
pub enum CompositorError {
    /// The handle names no live backing store: it was collected, or never issued.
    StaleHandle,
    /// A drawable is already open on the layer.
    DrawableAlreadyOpen,
    /// A layer's content is not a backing store.
    UnsupportedContent,
}

/// The error a [`CompositionHandler`] reports.
pub struct HandlerError {
    pub message: String,
}

/// The host side that the compositor hands finished frames to.
pub trait CompositionHandler {
    /// Returns the current size of the rendering area.
    fn get_surface_size(&mut self) -> Result<(u32, u32), HandlerError>;

    /// Commits the current compositor frame. Called after all layers are ready.
    fn present(&mut self) -> Result<(), HandlerError>;
}

/// One backing store: the platform's visual and drawing surface (`V`), and the drawable that
/// the engine is rendering into, between the start of a draw and the frame's presentation.
pub struct CompositorLayer<V, D> {
    pub visual: V,
    pub drawable: Option<D>,
}

/// A slot of the layer table.
struct Slot<V, D> {
    generation: u64,
    layer: Option<CompositorLayer<V, D>>,
}

/// The transformation the engine applies to its output: the surface's y axis points up, so
/// the picture is flipped and moved down by the surface's height.
#[derive(Clone, Copy, Debug, PartialEq, Eq, Structural)]
pub struct SurfaceTransformation {
    pub scale_x: i32,
    pub scale_y: i32,
    pub trans_y: u32,
    pub pers2: i32,
}

/// What the host must do to the platform compositor for one frame, in this order: end the draw
/// on each layer of `closed` and destroy its drawable, then, where `visual_order` is given,
/// remove all visuals of the root and insert the listed layers' visuals, each at the top.
pub struct LayerFrame<D> {
    pub closed: Vec<(LayerHandle, D)>,
    pub visual_order: Option<Vec<LayerHandle>>,
}

/// Composes the engine's layers into frames.
pub struct FlutterCompositor<V, D, H> {
    handler: H,
    slots: Vec<Slot<V, D>>,
    layers: Vec<LayerHandle>,
    retired: Ghost<Set<LayerHandle>>,
}

/// The transformation for a surface of the given size.
pub open spec fn transformation_for(height: u32) -> SurfaceTransformation {
    SurfaceTransformation { scale_x: 1, scale_y: -1i32, trans_y: height, pers2: 1 }
}

/// Computes the transformation for a surface of `width` × `height`.
pub fn surface_transformation(width: u32, height: u32) -> (r: SurfaceTransformation)
    ensures
        r == transformation_for(height),
{
    SurfaceTransformation { scale_x: 1, scale_y: -1, trans_y: height, pers2: 1 }
}

/// The handles of a frame's layers, bottom to top (meaningful where each is a backing store).
pub open spec fn layer_ids(s: Seq<LayerContent>) -> Seq<LayerHandle> {
    s.map_values(|c: LayerContent| c->BackingStore_0)
}

/// Whether every layer of a frame is a backing store.
pub open spec fn all_backing_stores(s: Seq<LayerContent>) -> bool {
    forall|i: int| 0 <= i < s.len() ==> (#[trigger] s[i]) is BackingStore
}

/// The table `m` with every drawable closed.
pub open spec fn with_drawables_closed<V, D>(m: Map<LayerHandle, CompositorLayer<V, D>>) -> Map<
    LayerHandle,
    CompositorLayer<V, D>,
> {
    m.map_values(
        |l: CompositorLayer<V, D>| CompositorLayer { visual: l.visual, drawable: None::<D> },
    )
}

/// `closed` lists each drawable open in `m` exactly once, with its layer, and nothing else.
pub open spec fn lists_open_drawables<V, D>(
    m: Map<LayerHandle, CompositorLayer<V, D>>,
    closed: Seq<(LayerHandle, D)>,
) -> bool {
    &&& forall|j: int|
        0 <= j < closed.len() ==> m.contains_key(#[trigger] closed[j].0) && m[closed[j].0].drawable
            == Some(closed[j].1)
    &&& forall|h: LayerHandle|
        #[trigger] m.contains_key(h) && m[h].drawable is Some ==> exists|j: int|
            0 <= j < closed.len() && closed[j] == (h, m[h].drawable->0)
    &&& forall|j: int, k: int| 0 <= j < k < closed.len() ==> closed[j].0 != closed[k].0
}

/// Whether a frame with `layers` must rebuild the visual tree after a frame with `previous`.
pub open spec fn needs_rebuild(previous: Seq<LayerHandle>, layers: Seq<LayerContent>) -> bool {
    previous != layer_ids(layers)
}

/// The visual tree is rebuilt exactly when the layers differ from the previous frame's by
/// identity or by position: in number, or in the handle at some position.
pub proof fn lemma_rebuild_iff_changed(previous: Seq<LayerHandle>, layers: Seq<LayerContent>)
    ensures
        needs_rebuild(previous, layers) <==> (previous.len() != layers.len() || exists|i: int|
            0 <= i < layers.len() && previous[i] != layer_ids(layers)[i]),
{
    if !needs_rebuild(previous, layers) {
        assert(previous.len() == layer_ids(layers).len());
    } else if previous.len() == layers.len() {
        if forall|i: int| 0 <= i < layers.len() ==> previous[i] == layer_ids(layers)[i] {
            assert(previous =~= layer_ids(layers));
        }
    }
}

/// A frame that repeats the previous frame's layers, in the same order, leaves the visual tree
/// alone; after a frame, the layers remembered are that frame's.
pub proof fn lemma_same_layers_twice(layers: Seq<LayerContent>)
    ensures
        !needs_rebuild(layer_ids(layers), layers),
{
}

/// After a frame no layer has a drawable open, so each layer's next drawable is accepted
/// (see [`FlutterCompositor::open_drawable`]) and a second one on the same layer is refused.
pub proof fn lemma_frame_closes_every_drawable<V, D>(
    m: Map<LayerHandle, CompositorLayer<V, D>>,
    h: LayerHandle,
)
    requires
        m.contains_key(h),
    ensures
        with_drawables_closed(m).contains_key(h),
        with_drawables_closed(m)[h].drawable is None,
        with_drawables_closed(m)[h].visual == m[h].visual,
{
}

/// Whether two layer lists are the same, entry by entry.
fn same_layers(a: &Vec<LayerHandle>, b: &Vec<LayerHandle>) -> (r: bool)
    ensures
        r == (a@ == b@),
{
    if a.len() != b.len() {
        return false;
    }
    let mut i: usize = 0;
    while i < a.len()
        invariant
            a@.len() == b@.len(),
            forall|j: int| 0 <= j < i ==> a@[j] == b@[j],
        decreases a.len() - i,
    {
        if a[i] != b[i] {
            return false;
        }
        i = i + 1;
    }
    assert(a@ =~= b@);
    true
}

impl<V, D, H: CompositionHandler> FlutterCompositor<V, D, H> {
    /// Whether `h` names a live backing store.
    pub closed spec fn is_live(&self, h: LayerHandle) -> bool {
        &&& h.index < self.slots@.len()
        &&& self.slots@[h.index as int].generation == h.generation
        &&& self.slots@[h.index as int].layer is Some
    }

    /// The live backing stores.
    pub closed spec fn backing_stores(&self) -> Map<LayerHandle, CompositorLayer<V, D>> {
        Map::new(
            |h: LayerHandle| self.is_live(h),
            |h: LayerHandle| self.slots@[h.index as int].layer->0,
        )
    }

    /// The handles of the backing stores collected so far: none of them is ever live again.
    pub closed spec fn retired(&self) -> Set<LayerHandle> {
        self.retired@
    }

    /// The layers of the previous frame, bottom to top.
    pub closed spec fn previous_layers(&self) -> Seq<LayerHandle> {
        self.layers@
    }

    /// The host side.
    pub closed spec fn handler(&self) -> H {
        self.handler
    }

    /// The table's invariant.
    pub closed spec fn wf(&self) -> bool {
        &&& forall|i: int|
            0 <= i < self.slots@.len() && self.slots@[i].layer is Some
                ==> self.slots@[i].generation < u64::MAX
        &&& forall|h: LayerHandle|
            self.retired@.contains(h) ==> h.index < self.slots@.len()
                && self.slots@[h.index as int].generation > h.generation
    }

    /// A compositor with no backing stores, handing frames to `handler`.
    pub fn new(handler: H) -> (r: Self)
        ensures
            r.wf(),
            r.backing_stores() == Map::<LayerHandle, CompositorLayer<V, D>>::empty(),
            r.retired() == Set::<LayerHandle>::empty(),
            r.previous_layers() == Seq::<LayerHandle>::empty(),
            r.handler() == handler,
    {
        let r = FlutterCompositor {
            handler,
            slots: Vec::new(),
            layers: Vec::new(),
            retired: Ghost(Set::empty()),
        };
        assert(r.backing_stores() =~= Map::empty());
        r
    }

    /// Asks the handler for the surface's size and returns the transformation for it.
    pub fn get_surface_transformation(&mut self) -> (r: Result<SurfaceTransformation, HandlerError>)
        ensures
            r matches Ok(t) ==> exists|h: u32| t == transformation_for(h),
            final(self).wf() == old(self).wf(),
            final(self).backing_stores() == old(self).backing_stores(),
            final(self).retired() == old(self).retired(),
            final(self).previous_layers() == old(self).previous_layers(),
    {
        let size = self.handler.get_surface_size();
        assert(self.slots@ == old(self).slots@);
        assert(self.retired@ == old(self).retired@);
        match size {
            Ok((width, height)) => Ok(surface_transformation(width, height)),
            Err(e) => Err(e),
        }
    }

    /// Adds a backing store whose platform visual and drawing surface are `visual`, with no
    /// drawable open, and returns its handle: one that was never live and never collected.
    pub fn create_backing_store(&mut self, visual: V) -> (h: LayerHandle)
        requires
            old(self).wf(),
        ensures
            final(self).wf(),
            !old(self).backing_stores().contains_key(h),
            !old(self).retired().contains(h),
            final(self).backing_stores() == old(self).backing_stores().insert(
                h,
                CompositorLayer { visual, drawable: None },
            ),
            final(self).retired() == old(self).retired(),
            final(self).previous_layers() == old(self).previous_layers(),
            final(self).handler() == old(self).handler(),
    {
        let ghost before = self.backing_stores();
        let n = self.slots.len();
        let mut i: usize = 0;
        while i < n
            invariant
                n == self.slots@.len(),
                *self == *old(self),
                old(self).wf(),
                forall|j: int|
                    0 <= j < i ==> self.slots@[j].layer is Some || self.slots@[j].generation
                        == u64::MAX,
            decreases n - i,
        {
            if self.slots[i].layer.is_none() && self.slots[i].generation < u64::MAX {
                let generation = self.slots[i].generation;
                let h = LayerHandle { index: i, generation };
                let layer = CompositorLayer { visual, drawable: None };
                self.slots.set(i, Slot { generation, layer: Some(layer) });
                proof {
                    assert forall|k: LayerHandle| old(self).retired@.contains(k) implies k != h by {
                        assert(old(self).slots@[k.index as int].generation > k.generation);
                    }
                    let l = CompositorLayer { visual, drawable: None };
                    assert forall|k: LayerHandle| #[trigger]
                        self.is_live(k) == (old(self).is_live(k) || k == h) by {}
                    assert forall|k: LayerHandle| old(self).is_live(k) implies #[trigger]
                        self.slots@[k.index as int] == old(self).slots@[k.index as int] by {}
                    assert(self.backing_stores() =~= old(self).backing_stores().insert(h, l));
                }
                return h;
            }
            i = i + 1;
        }
        let h = LayerHandle { index: n, generation: 0 };
        let ghost l = CompositorLayer { visual, drawable: None };
        let layer = CompositorLayer { visual, drawable: None };
        self.slots.push(Slot { generation: 0, layer: Some(layer) });
        proof {
            assert(self.slots@[n as int].layer is Some);
            assert forall|k: LayerHandle| #[trigger]
                self.is_live(k) == (old(self).is_live(k) || k == h) by {}
            assert(self.backing_stores() =~= before.insert(h, l));
        }
        h
    }

    /// Removes the backing store `h`, which the engine no longer uses, and hands back its
    /// visual and the drawable still open on it, if any: the caller destroys that drawable
    /// first, then releases the visual. A handle that is not live, such as one already
    /// collected, is refused and nothing changes.
    pub fn collect_backing_store(&mut self, h: LayerHandle) -> (r: Result<
        CompositorLayer<V, D>,
        CompositorError,
    >)
        requires
            old(self).wf(),
        ensures
            final(self).wf(),
            r is Ok <==> old(self).backing_stores().contains_key(h),
            r matches Ok(l) ==> {
                &&& l == old(self).backing_stores()[h]
                &&& final(self).backing_stores() == old(self).backing_stores().remove(h)
                &&& final(self).retired() == old(self).retired().insert(h)
            },
            r matches Err(e) ==> {
                &&& e == CompositorError::StaleHandle
                &&& final(self).backing_stores() == old(self).backing_stores()
                &&& final(self).retired() == old(self).retired()
            },
            final(self).previous_layers() == old(self).previous_layers(),
            final(self).handler() == old(self).handler(),
    {
        if !self.has_backing_store(h) {
            return Err(CompositorError::StaleHandle);
        }
        let i = h.index;
        let mut slot = Slot { generation: h.generation + 1, layer: None };
        self.slots.set_and_swap(i, &mut slot);
        self.retired = Ghost(self.retired@.insert(h));
        proof {
            assert forall|k: LayerHandle| #[trigger]
                self.is_live(k) == (old(self).is_live(k) && k != h) by {}
            assert forall|k: LayerHandle| self.is_live(k) implies #[trigger]
                self.slots@[k.index as int] == old(self).slots@[k.index as int] by {}
            assert(self.backing_stores() =~= old(self).backing_stores().remove(h));
            assert forall|k: LayerHandle| self.retired@.contains(k) implies k.index
                < self.slots@.len() && #[trigger] self.slots@[k.index as int].generation
                > k.generation by {
                if k != h {
                    assert(old(self).retired@.contains(k));
                }
            }
        }
        match slot.layer {
            Some(l) => Ok(l),
            None => Err(CompositorError::StaleHandle),
        }
    }

    /// Whether `h` names a live backing store.
    pub fn has_backing_store(&self, h: LayerHandle) -> (r: bool)
        ensures
            r == self.backing_stores().contains_key(h),
    {
        h.index < self.slots.len() && self.slots[h.index].generation == h.generation
            && self.slots[h.index].layer.is_some()
    }

    /// The backing store `h`, if it is live.
    pub fn layer(&self, h: LayerHandle) -> (r: Option<&CompositorLayer<V, D>>)
        ensures
            r is Some <==> self.backing_stores().contains_key(h),
            r matches Some(l) ==> *l == self.backing_stores()[h],
    {
        if self.has_backing_store(h) {
            self.slots[h.index].layer.as_ref()
        } else {
            None
        }
    }

    /// Records `drawable` as the one the engine renders into on layer `h`, for this frame.
    /// Refused when `h` is not live, or when a drawable is already open on the layer.
    pub fn open_drawable(&mut self, h: LayerHandle, drawable: D) -> (r: Result<(), CompositorError>)
        requires
            old(self).wf(),
        ensures
            final(self).wf(),
            !old(self).backing_stores().contains_key(h) ==> r == Err::<(), _>(
                CompositorError::StaleHandle,
            ),
            old(self).backing_stores().contains_key(h) && old(self).backing_stores()[h].drawable
                is Some ==> r == Err::<(), _>(CompositorError::DrawableAlreadyOpen),
            old(self).backing_stores().contains_key(h) && old(self).backing_stores()[h].drawable
                is None ==> r is Ok,
            r is Ok ==> final(self).backing_stores() == old(self).backing_stores().insert(
                h,
                CompositorLayer {
                    visual: old(self).backing_stores()[h].visual,
                    drawable: Some(drawable),
                },
            ),
            r is Err ==> final(self).backing_stores() == old(self).backing_stores(),
            final(self).retired() == old(self).retired(),
            final(self).previous_layers() == old(self).previous_layers(),
            final(self).handler() == old(self).handler(),
    {
        if !self.has_backing_store(h) {
            return Err(CompositorError::StaleHandle);
        }
        let i = h.index;
        let mut slot = Slot { generation: h.generation, layer: None };
        self.slots.set_and_swap(i, &mut slot);
        match slot.layer {
            Some(l) => {
                if l.drawable.is_some() {
                    let mut back = Slot { generation: h.generation, layer: Some(l) };
                    self.slots.set_and_swap(i, &mut back);
                    assert(self.slots@ =~= old(self).slots@);
                    return Err(CompositorError::DrawableAlreadyOpen);
                }
                let ghost nl = CompositorLayer { visual: l.visual, drawable: Some(drawable) };
                let mut back = Slot {
                    generation: h.generation,
                    layer: Some(CompositorLayer { visual: l.visual, drawable: Some(drawable) }),
                };
                self.slots.set_and_swap(i, &mut back);
                proof {
                    assert forall|k: LayerHandle| #[trigger]
                        self.is_live(k) == old(self).is_live(k) by {}
                    assert forall|k: LayerHandle| self.is_live(k) && k != h implies #[trigger]
                        self.slots@[k.index as int] == old(self).slots@[k.index as int] by {}
                    assert(self.backing_stores() =~= old(self).backing_stores().insert(h, nl));
                }
                Ok(())
            },
            None => Err(CompositorError::StaleHandle),
        }
    }

    /// A collected backing store's handle is never live again: any later use of it, such as a
    /// second collection, is refused.
    pub proof fn lemma_retired_never_live(&self, h: LayerHandle)
        requires
            self.wf(),
            self.retired().contains(h),
        ensures
            !self.backing_stores().contains_key(h),
    {
    }

    /// Collecting a backing store twice: once the first collection (which hands back the
    /// drawable still open on it, for the caller to destroy first) has removed `h` and retired
    /// it, the second collection finds no live backing store and is refused.
    pub proof fn lemma_collect_twice(before: &Self, after: &Self, h: LayerHandle)
        requires
            before.wf(),
            after.wf(),
            before.backing_stores().contains_key(h),
            after.backing_stores() == before.backing_stores().remove(h),
            after.retired() == before.retired().insert(h),
        ensures
            !after.backing_stores().contains_key(h),
            after.retired().contains(h),
    {
        after.lemma_retired_never_live(h);
    }

    /// Closes every drawable open on a layer and returns them with their layers.
    fn close_open_drawables(&mut self) -> (r: Vec<(LayerHandle, D)>)
        requires
            old(self).wf(),
        ensures
            final(self).wf(),
            final(self).backing_stores() == with_drawables_closed(old(self).backing_stores()),
            lists_open_drawables(old(self).backing_stores(), r@),
            final(self).retired() == old(self).retired(),
            final(self).previous_layers() == old(self).previous_layers(),
            final(self).handler() == old(self).handler(),
    {
        let ghost before = old(self).backing_stores();
        let mut closed: Vec<(LayerHandle, D)> = Vec::new();
        let n = self.slots.len();
        let mut i: usize = 0;
        while i < n
            invariant
                old(self).wf(),
                before == old(self).backing_stores(),
                n == self.slots@.len(),
                n == old(self).slots@.len(),
                self.retired == old(self).retired,
                self.layers == old(self).layers,
                self.handler == old(self).handler,
                forall|j: int|
                    0 <= j < n ==> (#[trigger] self.slots@[j]).generation
                        == old(self).slots@[j].generation && (self.slots@[j].layer is Some)
                        == (old(self).slots@[j].layer is Some),
                forall|j: int|
                    0 <= j < n && (#[trigger] self.slots@[j]).layer is Some
                        ==> self.slots@[j].layer->0.visual == old(self).slots@[j].layer->0.visual,
                forall|j: int|
                    0 <= j < i && (#[trigger] self.slots@[j]).layer is Some
                        ==> self.slots@[j].layer->0.drawable is None,
                forall|j: int| i <= j < n ==> #[trigger] self.slots@[j] == old(self).slots@[j],
                forall|k: int|
                    0 <= k < closed@.len() ==> (#[trigger] closed@[k]).0.index < i
                        && before.contains_key(closed@[k].0) && before[closed@[k].0].drawable
                        == Some(closed@[k].1),
                forall|k: int, m: int|
                    0 <= k < m < closed@.len() ==> closed@[k].0.index < closed@[m].0.index,
                forall|h: LayerHandle|
                    #[trigger] before.contains_key(h) && before[h].drawable is Some && h.index < i
                        ==> exists|k: int|
                        0 <= k < closed@.len() && closed@[k] == (h, before[h].drawable->0),
            decreases n - i,
        {
            let generation = self.slots[i].generation;
            let mut slot = Slot { generation, layer: None };
            self.slots.set_and_swap(i, &mut slot);
            let h = LayerHandle { index: i, generation };
            let ghost closed_before = closed@;
            match slot.layer {
                Some(l) => {
                    let CompositorLayer { visual, drawable } = l;
                    match drawable {
                        Some(d) => {
                            proof {
                                assert(old(self).is_live(h));
                            }
                            closed.push((h, d));
                        },
                        None => {},
                    }
                    let layer = CompositorLayer { visual, drawable: None };
                    let mut back = Slot { generation, layer: Some(layer) };
                    self.slots.set_and_swap(i, &mut back);
                },
                None => {
                    let mut back = Slot { generation, layer: None };
                    self.slots.set_and_swap(i, &mut back);
                },
            }
            proof {
                assert forall|g: LayerHandle|
                    #[trigger] before.contains_key(g) && before[g].drawable is Some && g.index < i
                        + 1 implies exists|k: int|
                        0 <= k < closed@.len() && closed@[k] == (g, before[g].drawable->0) by {
                    if g.index < i {
                        let k = choose|k: int|
                            0 <= k < closed_before.len() && closed_before[k] == (
                                g,
                                before[g].drawable->0,
                            );
                        assert(closed@[k] == closed_before[k]);
                    } else {
                        assert(g == h);
                        assert(closed@[closed@.len() - 1] == (g, before[g].drawable->0));
                    }
                }
            }
            i = i + 1;
        }
        proof {
            let after = self.backing_stores();
            assert forall|g: LayerHandle| #[trigger] self.is_live(g) == old(self).is_live(g) by {}
            assert(after =~= with_drawables_closed(before));
        }
        closed
    }

    /// Takes the layers of one frame, bottom to top. Closes every drawable still open on a
    /// layer, decides whether the platform's visual tree must be rebuilt (it must exactly when
    /// the layers or their order differ from the previous frame's), and remembers the layers.
    /// The caller then carries out the returned [`LayerFrame`] and calls
    /// [`FlutterCompositor::commit_layers`]. A layer that is not a backing store, or names no
    /// live one, is refused and nothing changes.
    pub fn present_layers(&mut self, layers: &Vec<LayerContent>) -> (r: Result<
        LayerFrame<D>,
        CompositorError,
    >)
        requires
            old(self).wf(),
        ensures
            final(self).wf(),
            r is Ok <==> all_backing_stores(layers@) && (forall|i: int|
                0 <= i < layers@.len() ==> old(self).backing_stores().contains_key(
                    #[trigger] layer_ids(layers@)[i],
                )),
            r == Err::<LayerFrame<D>, _>(CompositorError::UnsupportedContent)
                <==> !all_backing_stores(layers@),
            all_backing_stores(layers@) && !(forall|i: int|
                0 <= i < layers@.len() ==> old(self).backing_stores().contains_key(
                    #[trigger] layer_ids(layers@)[i],
                )) ==> r == Err::<LayerFrame<D>, _>(CompositorError::StaleHandle),
            r is Err ==> {
                &&& final(self).backing_stores() == old(self).backing_stores()
                &&& final(self).previous_layers() == old(self).previous_layers()
            },
            r matches Ok(f) ==> {
                &&& final(self).backing_stores() == with_drawables_closed(
                    old(self).backing_stores(),
                )
                &&& lists_open_drawables(old(self).backing_stores(), f.closed@)
                &&& (f.visual_order is Some <==> needs_rebuild(
                    old(self).previous_layers(),
                    layers@,
                ))
                &&& (f.visual_order matches Some(v) ==> v@ == layer_ids(layers@))
                &&& final(self).previous_layers() == layer_ids(layers@)
            },
            final(self).retired() == old(self).retired(),
            final(self).handler() == old(self).handler(),
    {
        let mut i: usize = 0;
        while i < layers.len()
            invariant
                *self == *old(self),
                old(self).wf(),
                i <= layers@.len(),
                forall|j: int| 0 <= j < i ==> (#[trigger] layers@[j]) is BackingStore,
            decreases layers.len() - i,
        {
            match layers[i] {
                LayerContent::BackingStore(_) => {},
                LayerContent::PlatformView => {
                    return Err(CompositorError::UnsupportedContent);
                },
            }
            i = i + 1;
        }
        let mut ids: Vec<LayerHandle> = Vec::new();
        let mut order: Vec<LayerHandle> = Vec::new();
        i = 0;
        while i < layers.len()
            invariant
                *self == *old(self),
                old(self).wf(),
                i <= layers@.len(),
                all_backing_stores(layers@),
                ids@ == layer_ids(layers@).subrange(0, i as int),
                order@ == ids@,
                forall|j: int|
                    0 <= j < i ==> self.backing_stores().contains_key(
                        #[trigger] layer_ids(layers@)[j],
                    ),
            decreases layers.len() - i,
        {
            let h = match layers[i] {
                LayerContent::BackingStore(h) => h,
                LayerContent::PlatformView => {
                    return Err(CompositorError::UnsupportedContent);
                },
            };
            assert(h == layer_ids(layers@)[i as int]);
            if !self.has_backing_store(h) {
                return Err(CompositorError::StaleHandle);
            }
            ids.push(h);
            order.push(h);
            i = i + 1;
            proof {
                assert(ids@ =~= layer_ids(layers@).subrange(0, i as int));
            }
        }
        proof {
            assert(ids@ =~= layer_ids(layers@));
        }
        let closed = self.close_open_drawables();
        let rebuild = !same_layers(&self.layers, &ids);
        if rebuild {
            self.layers = ids;
            Ok(LayerFrame { closed, visual_order: Some(order) })
        } else {
            Ok(LayerFrame { closed, visual_order: None })
        }
    }

    /// Hands the composed frame to the handler, which commits it.
    pub fn commit_layers(&mut self) -> (r: Result<(), HandlerError>)
        ensures
            final(self).wf() == old(self).wf(),
            final(self).backing_stores() == old(self).backing_stores(),
            final(self).retired() == old(self).retired(),
            final(self).previous_layers() == old(self).previous_layers(),
    {
        let r = self.handler.present();
        assert(self.slots@ == old(self).slots@);
        assert(self.retired@ == old(self).retired@);
        r
    }
}

} // verus!
