use vstd::prelude::*;
use crate::resource::{AssetStatus, BindError, GlOp, MainLight, bind_outcome, is_live};

verus! {

/// Number of texture units the allocator hands out.
pub const MAX_TEXTURE_UNITS: u32 = 8;

/// Number of point lights forwarded to the shaders in one frame.
pub const MAX_POINT_LIGHTS: usize = 4;

/// The resource category whose bound identity a cache slot tracks.
#[derive(Clone, Copy, Debug, PartialEq, Eq, Structural)]
pub enum CacheSlot {
    Program,
    MeshBuffer,
}

/// Adds one to a diagnostic counter, stopping at the largest value.
pub open spec fn count_up(x: u64) -> u64 {
    if x == u64::MAX { x } else { (x + 1) as u64 }
}

fn bump(x: u64) -> (r: u64)
    ensures
        r == count_up(x),
{
    x.saturating_add(1)
}

/// Per-pass binding state: which program, mesh buffer and textures are bound,
/// the lights selected for the pass, and how many binds were issued.
pub struct EngineContext {
    pub mesh_buffer: Option<u64>,
    pub prog: Option<u64>,
    /// Texture units in assignment order: the front is the oldest assignment.
    pub textures: Vec<(u32, u64)>,
    pub main_light: MainLight,
    pub point_lights: Vec<u64>,
    pub switch_mesh: u64,
    pub switch_prog: u64,
    pub switch_tex: u64,
}

/// The contents of an `EngineContext`.
pub struct ContextView {
    pub mesh_buffer: Option<u64>,
    pub prog: Option<u64>,
    pub textures: Seq<(u32, u64)>,
    pub main_light: MainLight,
    pub point_lights: Seq<u64>,
    pub switch_mesh: u64,
    pub switch_prog: u64,
    pub switch_tex: u64,
}

impl View for EngineContext {
    type V = ContextView;

    open spec fn view(&self) -> ContextView {
        ContextView {
            mesh_buffer: self.mesh_buffer,
            prog: self.prog,
            textures: self.textures@,
            main_light: self.main_light,
            point_lights: self.point_lights@,
            switch_mesh: self.switch_mesh,
            switch_prog: self.switch_prog,
            switch_tex: self.switch_tex,
        }
    }
}

/// The texture queue holds at most `MAX_TEXTURE_UNITS` entries whose unit
/// indices are distinct and below the queue's length.
pub open spec fn units_wf(q: Seq<(u32, u64)>) -> bool {
    &&& q.len() <= MAX_TEXTURE_UNITS
    &&& forall|i: int| 0 <= i < q.len() ==> (q[i].0 as int) < q.len()
    &&& forall|i: int, j: int| 0 <= i < q.len() && 0 <= j < q.len() && i != j ==> q[i].0 != q[j].0
}

impl ContextView {
    pub open spec fn wf(self) -> bool {
        units_wf(self.textures) && self.point_lights.len() <= MAX_POINT_LIGHTS
    }

    /// The fresh state of a pass: nothing bound, no lights, no binds counted.
    pub open spec fn empty() -> ContextView {
        ContextView {
            mesh_buffer: None,
            prog: None,
            textures: Seq::empty(),
            main_light: MainLight::Default,
            point_lights: Seq::empty(),
            switch_mesh: 0,
            switch_prog: 0,
            switch_tex: 0,
        }
    }

    pub open spec fn cached(self, slot: CacheSlot) -> Option<u64> {
        match slot {
            CacheSlot::Program => self.prog,
            CacheSlot::MeshBuffer => self.mesh_buffer,
        }
    }

    /// The state after `id` was bound into `slot`: the slot remembers it and
    /// the slot's counter goes up.
    pub open spec fn record(self, slot: CacheSlot, id: u64) -> ContextView {
        match slot {
            CacheSlot::Program => ContextView {
                prog: Some(id),
                switch_prog: count_up(self.switch_prog),
                ..self
            },
            CacheSlot::MeshBuffer => ContextView {
                mesh_buffer: Some(id),
                switch_mesh: count_up(self.switch_mesh),
                ..self
            },
        }
    }
}

/// A bind of `new_p` is needed unless the slot still holds that very resource.
pub open spec fn need_bind(cached: Option<u64>, new_p: u64, a: &AssetStatus) -> bool {
    match cached {
        None => true,
        Some(p) => !is_live(a, p) || p != new_p,
    }
}

/// Bind-only-if-different: state, operations and result after asking for
/// `new_p` in `slot`, where `op` is what binding it issues.
pub open spec fn prepare_step(
    c: ContextView,
    ops: Seq<GlOp>,
    slot: CacheSlot,
    new_p: u64,
    op: GlOp,
    a: &AssetStatus,
) -> (ContextView, Seq<GlOp>, Result<(), BindError>) {
    if need_bind(c.cached(slot), new_p, a) {
        match bind_outcome(a, new_p) {
            Ok(()) => (c.record(slot, new_p), ops.push(op), Ok(())),
            Err(e) => (c, ops, Err(e)),
        }
    } else {
        (c, ops, Ok(()))
    }
}

/// The unit of the first entry that holds live texture `t`.
pub open spec fn find_unit(q: Seq<(u32, u64)>, t: u64, a: &AssetStatus) -> Option<u32>
    decreases q.len(),
{
    if q.len() == 0 {
        None
    } else if is_live(a, q[0].1) && q[0].1 == t {
        Some(q[0].0)
    } else {
        find_unit(q.drop_first(), t, a)
    }
}

/// Position of the first entry whose texture has expired.
pub open spec fn first_stale(q: Seq<(u32, u64)>, a: &AssetStatus) -> Option<int>
    decreases q.len(),
{
    if q.len() == 0 {
        None
    } else if !is_live(a, q[0].1) {
        Some(0)
    } else {
        match first_stale(q.drop_first(), a) {
            Some(p) => Some(p + 1),
            None => None,
        }
    }
}

/// The unit chosen for a texture that is not bound, and the queue without the
/// entry it evicts: the next unused unit while fewer than `MAX_TEXTURE_UNITS`
/// are in use, else the unit of the first expired entry, else that of the oldest.
pub open spec fn choose_unit(q: Seq<(u32, u64)>, a: &AssetStatus) -> (u32, Seq<(u32, u64)>) {
    if q.len() < MAX_TEXTURE_UNITS {
        (q.len() as u32, q)
    } else {
        match first_stale(q, a) {
            Some(p) => (q[p].0, q.remove(p)),
            None => (q[0].0, q.drop_first()),
        }
    }
}

/// Texture-unit assignment: state, operations and result after asking for
/// texture `t`.
pub open spec fn assign_step(c: ContextView, ops: Seq<GlOp>, t: u64, a: &AssetStatus) -> (
    ContextView,
    Seq<GlOp>,
    Result<u32, BindError>,
) {
    match find_unit(c.textures, t, a) {
        Some(u) => (c, ops, Ok(u)),
        None => {
            let (unit, rest) = choose_unit(c.textures, a);
            match bind_outcome(a, t) {
                Ok(()) => (
                    ContextView {
                        textures: rest.push((unit, t)),
                        switch_tex: count_up(c.switch_tex),
                        ..c
                    },
                    ops.push(GlOp::BindTexture { texture: t, unit }),
                    Ok(unit),
                ),
                Err(e) => (c, ops, Err(e)),
            }
        },
    }
}

proof fn lemma_first_stale_bounds(q: Seq<(u32, u64)>, a: &AssetStatus)
    ensures
        first_stale(q, a) matches Some(p) ==> 0 <= p < q.len() && !is_live(a, q[p].1),
    decreases q.len(),
{
    if q.len() > 0 && is_live(a, q[0].1) {
        lemma_first_stale_bounds(q.drop_first(), a);
    }
}

proof fn lemma_choose_unit_wf(q: Seq<(u32, u64)>, a: &AssetStatus)
    requires
        units_wf(q),
    ensures
        ({
            let (unit, rest) = choose_unit(q, a);
            &&& rest.len() < MAX_TEXTURE_UNITS
            &&& units_wf(rest.push((unit, 0)))
            &&& forall|i: int| 0 <= i < rest.len() ==> rest[i].0 != unit
        }),
{
    lemma_first_stale_bounds(q, a);
    let (unit, rest) = choose_unit(q, a);
    if q.len() < MAX_TEXTURE_UNITS {
        assert(units_wf(rest.push((unit, 0))));
    } else {
        assert(forall|i: int| 0 <= i < rest.len() ==> rest[i].0 != unit);
        assert(units_wf(rest.push((unit, 0))));
    }
}

/// The queue's well-formedness depends only on its units.
proof fn lemma_units_wf_any_texture(rest: Seq<(u32, u64)>, unit: u32, t: u64)
    requires
        units_wf(rest.push((unit, 0))),
    ensures
        units_wf(rest.push((unit, t))),
{
    let q0 = rest.push((unit, 0));
    let q1 = rest.push((unit, t));
    assert forall|i: int| 0 <= i < q1.len() implies q1[i].0 == q0[i].0 by {}
}

proof fn lemma_assign_wf(c: ContextView, ops: Seq<GlOp>, t: u64, a: &AssetStatus)
    requires
        c.wf(),
    ensures
        assign_step(c, ops, t, a).0.wf(),
{
    if find_unit(c.textures, t, a).is_none() {
        lemma_choose_unit_wf(c.textures, a);
        let (unit, rest) = choose_unit(c.textures, a);
        lemma_units_wf_any_texture(rest, unit, t);
    }
}

/// Two entries of a well-formed texture queue never share a unit: a unit index
/// handed out stays bound to one texture until its entry is evicted.
pub proof fn lemma_units_distinct(c: ContextView)
    requires
        c.wf(),
    ensures
        forall|i: int, j: int|
            0 <= i < c.textures.len() && 0 <= j < c.textures.len() && i != j
                ==> c.textures[i].0 != c.textures[j].0,
        forall|i: int| 0 <= i < c.textures.len() ==> c.textures[i].0 < MAX_TEXTURE_UNITS,
{
}

/// Asking again for a resource that was just bound into the same slot issues
/// no further bind and succeeds.
pub proof fn lemma_repeat_bind_is_free(
    c: ContextView,
    ops: Seq<GlOp>,
    slot: CacheSlot,
    id: u64,
    op: GlOp,
    again: GlOp,
    a: &AssetStatus,
)
    requires
        is_live(a, id),
        prepare_step(c, ops, slot, id, op, a).2 is Ok,
    ensures
        ({
            let (c1, ops1, _) = prepare_step(c, ops, slot, id, op, a);
            prepare_step(c1, ops1, slot, id, again, a) == (c1, ops1, Ok::<(), BindError>(()))
        }),
{
}

/// Binds issued when resource `id` is asked for in `slot` `n` times in a row.
pub open spec fn repeat_prepare(
    c: ContextView,
    ops: Seq<GlOp>,
    slot: CacheSlot,
    id: u64,
    op: GlOp,
    a: &AssetStatus,
    n: nat,
) -> (ContextView, Seq<GlOp>, Result<(), BindError>)
    decreases n,
{
    if n == 0 {
        (c, ops, Ok(()))
    } else {
        let (c1, ops1, r) = repeat_prepare(c, ops, slot, id, op, a, (n - 1) as nat);
        if r is Ok {
            prepare_step(c1, ops1, slot, id, op, a)
        } else {
            (c1, ops1, r)
        }
    }
}

/// However many times in a row one live, loadable resource is asked for in a
/// slot that does not hold it, exactly one bind is issued.
pub proof fn lemma_run_binds_once(
    c: ContextView,
    ops: Seq<GlOp>,
    slot: CacheSlot,
    id: u64,
    op: GlOp,
    a: &AssetStatus,
    n: nat,
)
    requires
        n >= 1,
        is_live(a, id),
        bind_outcome(a, id) is Ok,
        need_bind(c.cached(slot), id, a),
    ensures
        repeat_prepare(c, ops, slot, id, op, a, n) == (c.record(slot, id), ops.push(op), Ok::<(), BindError>(())),
    decreases n,
{
    assert(c.record(slot, id).cached(slot) == Some(id));
    if n > 1 {
        lemma_run_binds_once(c, ops, slot, id, op, a, (n - 1) as nat);
    } else {
        assert(repeat_prepare(c, ops, slot, id, op, a, 0) == (c, ops, Ok::<(), BindError>(())));
    }
}

impl EngineContext {
    /// The fresh state of a pass.
    pub fn new() -> (r: EngineContext)
        ensures
            r@ == ContextView::empty(),
            r@.wf(),
    {
        EngineContext {
            mesh_buffer: None,
            prog: None,
            textures: Vec::new(),
            main_light: MainLight::Default,
            point_lights: Vec::new(),
            switch_mesh: 0,
            switch_prog: 0,
            switch_tex: 0,
        }
    }

    /// Whether binding `new_p` into `slot` is needed.
    pub fn need_cache(&self, slot: CacheSlot, new_p: u64, assets: &AssetStatus) -> (r: bool)
        ensures
            r == need_bind(self@.cached(slot), new_p, assets),
    {
        let cached = match slot {
            CacheSlot::Program => self.prog,
            CacheSlot::MeshBuffer => self.mesh_buffer,
        };
        match cached {
            None => true,
            Some(p) => !assets.live(p) || p != new_p,
        }
    }

    /// Binds `new_p` into `slot` by issuing `op`, unless the slot already holds
    /// that resource. On a failed bind the slot keeps its previous resource.
    pub fn prepare_cache(
        &mut self,
        slot: CacheSlot,
        new_p: u64,
        op: GlOp,
        assets: &AssetStatus,
        ops: &mut Vec<GlOp>,
    ) -> (r: Result<(), BindError>)
        ensures
            (final(self)@, final(ops)@, r) == prepare_step(old(self)@, old(ops)@, slot, new_p, op, assets),
    {
        if self.need_cache(slot, new_p, assets) {
            match assets.bind(new_p) {
                Ok(()) => {
                    ops.push(op);
                    match slot {
                        CacheSlot::Program => {
                            self.prog = Some(new_p);
                            self.switch_prog = bump(self.switch_prog);
                        },
                        CacheSlot::MeshBuffer => {
                            self.mesh_buffer = Some(new_p);
                            self.switch_mesh = bump(self.switch_mesh);
                        },
                    }
                    Ok(())
                },
                Err(e) => Err(e),
            }
        } else {
            Ok(())
        }
    }

    /// The unit already holding live texture `new_tex`, if any.
    pub fn need_cache_tex(&self, new_tex: u64, assets: &AssetStatus) -> (r: Option<u32>)
        ensures
            r == find_unit(self@.textures, new_tex, assets),
    {
        let ghost q = self@.textures;
        assert(q.subrange(0, q.len() as int) =~= q);
        let mut i: usize = 0;
        while i < self.textures.len()
            invariant
                i <= q.len(),
                q == self@.textures,
                find_unit(q, new_tex, assets) == find_unit(q.subrange(i as int, q.len() as int), new_tex, assets),
            decreases q.len() - i,
        {
            let ghost tail = q.subrange(i as int, q.len() as int);
            assert(tail.drop_first() =~= q.subrange(i + 1, q.len() as int));
            let (u, t) = self.textures[i];
            if assets.live(t) && t == new_tex {
                return Some(u);
            }
            i = i + 1;
        }
        None
    }

    fn stale_position(&self, assets: &AssetStatus) -> (r: Option<usize>)
        ensures
            r matches Some(p) ==> first_stale(self@.textures, assets) == Some(p as int),
            r is None ==> first_stale(self@.textures, assets) is None,
    {
        let ghost q = self@.textures;
        assert(q.subrange(0, q.len() as int) =~= q);
        let mut i: usize = 0;
        while i < self.textures.len()
            invariant
                i <= q.len(),
                q == self@.textures,
                first_stale(q, assets) == (match first_stale(q.subrange(i as int, q.len() as int), assets) {
                    Some(p) => Some(p + i),
                    None => None,
                }),
            decreases q.len() - i,
        {
            let ghost tail = q.subrange(i as int, q.len() as int);
            assert(tail.drop_first() =~= q.subrange(i + 1, q.len() as int));
            if !assets.live(self.textures[i].1) {
                return Some(i);
            }
            i = i + 1;
        }
        None
    }

    /// Assigns a texture unit to `new_tex`: the unit already holding it, or a
    /// newly chosen one (see `choose_unit`) to which it is bound. On a failed
    /// bind the allocator is left as it was.
    pub fn prepare_cache_tex(&mut self, new_tex: u64, assets: &AssetStatus, ops: &mut Vec<GlOp>) -> (r: Result<u32, BindError>)
        requires
            old(self)@.wf(),
        ensures
            (final(self)@, final(ops)@, r) == assign_step(old(self)@, old(ops)@, new_tex, assets),
            final(self)@.wf(),
            r matches Ok(u) ==> final(self)@.textures.contains((u, new_tex)),
    {
        proof {
            lemma_assign_wf(self@, ops@, new_tex, assets);
            lemma_first_stale_bounds(self@.textures, assets);
        }
        if let Some(u) = self.need_cache_tex(new_tex, assets) {
            proof {
                lemma_find_unit_in(self@.textures, new_tex, assets);
            }
            return Ok(u);
        }
        match assets.bind(new_tex) {
            Err(e) => Err(e),
            Ok(()) => {
                let unit: u32;
                if self.textures.len() < MAX_TEXTURE_UNITS as usize {
                    unit = self.textures.len() as u32;
                } else {
                    match self.stale_position(assets) {
                        Some(pos) => {
                            unit = self.textures.remove(pos).0;
                        },
                        None => {
                            unit = self.textures.remove(0).0;
                        },
                    }
                }
                self.textures.push((unit, new_tex));
                self.switch_tex = bump(self.switch_tex);
                ops.push(GlOp::BindTexture { texture: new_tex, unit });
                proof {
                    let q = self@.textures;
                    assert(q[q.len() - 1] == (unit, new_tex));
                }
                Ok(unit)
            },
        }
    }
}

proof fn lemma_find_unit_in(q: Seq<(u32, u64)>, t: u64, a: &AssetStatus)
    ensures
        find_unit(q, t, a) matches Some(u) ==> q.contains((u, t)),
    decreases q.len(),
{
    if q.len() > 0 {
        if is_live(a, q[0].1) && q[0].1 == t {
            assert(q[0] == (q[0].0, t));
        } else {
            lemma_find_unit_in(q.drop_first(), t, a);
            if let Some(u) = find_unit(q.drop_first(), t, a) {
                let k = choose|k: int| 0 <= k < q.drop_first().len() && q.drop_first()[k] == (u, t);
                assert(q[k + 1] == (u, t));
            }
        }
    }
}

} // verus!
