use vstd::prelude::*;

verus! {

/// The queue a surface is drawn in, in drawing order.
#[derive(Clone, Copy, Debug, PartialEq, Eq, Structural)]
pub enum RenderQueue {
    Opaque,
    Skybox,
    Transparent,
}

#[derive(Clone, Copy, Debug, PartialEq, Eq, Structural)]
pub enum LightKind {
    Directional,
    Point,
}

/// A light component; `id` names its parameters in the scene layer.
#[derive(Clone, Copy, Debug, PartialEq, Eq, Structural)]
pub struct Light {
    pub kind: LightKind,
    pub id: u64,
}

/// A shader program, a queue tag and texture bindings as (sampler slot, texture).
pub struct Material {
    pub program: u64,
    pub render_queue: RenderQueue,
    pub textures: Vec<(u32, u64)>,
}

/// A vertex buffer drawn with the material at this index of the scene's table.
#[derive(Clone, Copy, Debug, PartialEq, Eq, Structural)]
pub struct MeshSurface {
    pub buffer: u64,
    pub material: usize,
}

pub struct Mesh {
    pub surfaces: Vec<MeshSurface>,
}

/// A capability attached to an object.
pub enum Component {
    Mesh(Mesh),
    Light(Light),
    Camera,
}

/// A scene node as the renderer reads it.
pub struct GameObject {
    pub active: bool,
    pub components: Vec<Component>,
    /// Squared distance from the current pass's camera to the object's
    /// position, as an order-preserving key.
    pub cam_distance: u64,
}

/// Where an object lives in the scene. Slots are never reused, so a handle
/// never names another object than the one it was made for.
#[derive(Clone, Copy, Debug, PartialEq, Eq, Structural)]
pub struct Handle {
    pub index: usize,
}

/// One slot of the scene: the object while it lives, and whether outside
/// logic holds it right now.
pub struct Slot {
    pub object: Option<GameObject>,
    pub borrowed: bool,
}

/// The owner of all objects, and the table of materials their surfaces use.
pub struct Scene {
    pub slots: Vec<Slot>,
    pub materials: Vec<Material>,
}

impl Scene {
    /// Whether the object behind `h` still exists.
    pub open spec fn live(&self, h: Handle) -> bool {
        h.index < self.slots@.len() && self.slots@[h.index as int].object is Some
    }

    /// The object behind `h` when it exists and nothing else holds it.
    pub open spec fn reachable(&self, h: Handle) -> Option<GameObject> {
        if self.live(h) && !self.slots@[h.index as int].borrowed {
            Some(self.slots@[h.index as int].object.unwrap())
        } else {
            None
        }
    }

    pub fn new() -> (r: Scene)
        ensures
            r.slots@.len() == 0,
            r.materials@.len() == 0,
    {
        Scene { slots: Vec::new(), materials: Vec::new() }
    }

    /// Adds a material and returns its index.
    pub fn add_material(&mut self, m: Material) -> (r: usize)
        requires
            old(self).materials@.len() < usize::MAX,
        ensures
            r == old(self).materials@.len(),
            final(self).materials@ == old(self).materials@.push(m),
            final(self).slots@ == old(self).slots@,
    {
        let r = self.materials.len();
        self.materials.push(m);
        r
    }

    /// Takes ownership of `obj` in a new slot.
    pub fn insert(&mut self, obj: GameObject) -> (r: Handle)
        requires
            old(self).slots@.len() < usize::MAX,
        ensures
            r.index == old(self).slots@.len(),
            final(self).slots@ == old(self).slots@.push(Slot { object: Some(obj), borrowed: false }),
            final(self).materials@ == old(self).materials@,
            final(self).live(r),
    {
        let r = Handle { index: self.slots.len() };
        self.slots.push(Slot { object: Some(obj), borrowed: false });
        r
    }

    /// Drops the object behind `h`, if it exists.
    pub fn remove(&mut self, h: Handle)
        ensures
            final(self).materials@ == old(self).materials@,
            final(self).slots@.len() == old(self).slots@.len(),
            !final(self).live(h),
            forall|g: Handle| g != h ==> final(self).live(g) == old(self).live(g),
            forall|g: Handle| g != h ==> final(self).reachable(g) == old(self).reachable(g),
    {
        if h.index < self.slots.len() {
            let borrowed = self.slots[h.index].borrowed;
            self.slots.set(h.index, Slot { object: None, borrowed });
        }
    }

    /// Marks the object behind `h` as held, or no longer held, by outside logic.
    pub fn set_borrowed(&mut self, h: Handle, borrowed: bool)
        ensures
            final(self).materials@ == old(self).materials@,
            forall|g: Handle| final(self).live(g) == old(self).live(g),
            forall|g: Handle| g != h ==> final(self).reachable(g) == old(self).reachable(g),
            old(self).live(h) ==> (final(self).reachable(h) is Some <==> !borrowed),
    {
        if h.index < self.slots.len() {
            let mut slot = self.slots.remove(h.index);
            slot.borrowed = borrowed;
            self.slots.insert(h.index, slot);
        }
    }

    /// Whether the object behind `h` still exists.
    pub fn is_live(&self, h: Handle) -> (r: bool)
        ensures
            r == self.live(h),
    {
        h.index < self.slots.len() && self.slots[h.index].object.is_some()
    }

    /// The object behind `h` when it exists and nothing else holds it.
    pub fn try_get(&self, h: Handle) -> (r: Option<&GameObject>)
        ensures
            r is Some <==> self.reachable(h) is Some,
            r matches Some(o) ==> self.reachable(h) == Some(*o),
    {
        if h.index < self.slots.len() && !self.slots[h.index].borrowed {
            match &self.slots[h.index].object {
                Some(o) => Some(o),
                None => None,
            }
        } else {
            None
        }
    }
}

/// The object's light components, in component order.
pub open spec fn object_lights(cs: Seq<Component>) -> Seq<Light>
    decreases cs.len(),
{
    if cs.len() == 0 {
        Seq::empty()
    } else {
        let prev = object_lights(cs.drop_last());
        if let Component::Light(l) = cs.last() {
            prev.push(l)
        } else {
            prev
        }
    }
}

/// Index of the object's first mesh component.
pub open spec fn first_mesh(cs: Seq<Component>) -> Option<int>
    decreases cs.len(),
{
    if cs.len() == 0 {
        None
    } else if cs[0] is Mesh {
        Some(0)
    } else {
        match first_mesh(cs.drop_first()) {
            Some(i) => Some(i + 1),
            None => None,
        }
    }
}

impl GameObject {
    /// Appends the object's light components, in component order, to `out`.
    pub fn collect_lights(&self, out: &mut Vec<Light>)
        ensures
            final(out)@ == old(out)@ + object_lights(self.components@),
    {
        let ghost cs = self.components@;
        let ghost base = out@;
        assert(cs.take(0) =~= Seq::<Component>::empty());
        assert(base + Seq::<Light>::empty() =~= base);
        let mut i: usize = 0;
        while i < self.components.len()
            invariant
                i <= cs.len(),
                cs == self.components@,
                base == old(out)@,
                out@ == base + object_lights(cs.take(i as int)),
            decreases cs.len() - i,
        {
            assert(cs.take(i + 1).drop_last() =~= cs.take(i as int));
            if let Component::Light(l) = &self.components[i] {
                out.push(*l);
                assert(out@ =~= base + object_lights(cs.take(i + 1)));
            }
            i = i + 1;
        }
        assert(cs.take(cs.len() as int) =~= cs);
    }

    /// The object's first mesh component.
    pub fn find_mesh(&self) -> (r: Option<&Mesh>)
        ensures
            r matches Some(m) ==> first_mesh(self.components@) matches Some(i)
                && 0 <= i < self.components@.len() && self.components@[i] == Component::Mesh(*m),
            r is None ==> first_mesh(self.components@) is None,
    {
        let ghost cs = self.components@;
        assert(cs.subrange(0, cs.len() as int) =~= cs);
        let mut i: usize = 0;
        while i < self.components.len()
            invariant
                i <= cs.len(),
                cs == self.components@,
                first_mesh(cs) == (match first_mesh(cs.subrange(i as int, cs.len() as int)) {
                    Some(p) => Some(p + i),
                    None => None,
                }),
            decreases cs.len() - i,
        {
            assert(cs.subrange(i as int, cs.len() as int).drop_first() =~= cs.subrange(i + 1, cs.len() as int));
            if let Component::Mesh(m) = &self.components[i] {
                return Some(m);
            }
            i = i + 1;
        }
        None
    }
}

} // verus!
