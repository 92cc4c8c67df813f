use vstd::prelude::*;

verus! {

/// Why binding a resource did not succeed.
#[derive(Clone, Copy, Debug, PartialEq, Eq, Structural)]
pub enum BindError {
    /// The resource is not loaded yet; the draw that needs it is skipped this frame.
    NotReady,
    /// The graphics layer rejected the resource for another reason.
    Failed,
}

/// Depth comparison function of the graphics layer.
#[derive(Clone, Copy, Debug, PartialEq, Eq, Structural)]
pub enum DepthTest {
    Never,
    Less,
    Equal,
    LessEqual,
    Greater,
    NotEqual,
    GreaterEqual,
    Always,
}

impl DepthTest {
    /// The comparison used when none is configured.
    pub fn default_func() -> (r: DepthTest)
        ensures
            r == DepthTest::Less,
    {
        DepthTest::Less
    }
}

/// A target buffer that a clear operation resets.
#[derive(Clone, Copy, Debug, PartialEq, Eq, Structural)]
pub enum BufferBit {
    Color,
    Depth,
    Stencil,
}

/// A colour as four IEEE-754 single-precision bit patterns (red, green, blue, alpha).
#[derive(Clone, Copy, Debug, PartialEq, Eq, Structural)]
pub struct Rgba {
    pub r: u32,
    pub g: u32,
    pub b: u32,
    pub a: u32,
}

/// Bit pattern of the single-precision value 0.0.
pub const F32_ZERO_BITS: u32 = 0x0000_0000;

/// Bit pattern of the single-precision value 0.3.
pub const F32_POINT_THREE_BITS: u32 = 0x3E99_999A;

/// Bit pattern of the single-precision value 1.0.
pub const F32_ONE_BITS: u32 = 0x3F80_0000;

/// Which light fills the directional slot of a frame.
#[derive(Clone, Copy, Debug, PartialEq, Eq, Structural)]
pub enum MainLight {
    /// No directional light is in the scene: the built-in one is used.
    Default,
    /// The directional light component with this identity.
    Found(u64),
}

/// One primitive operation for the graphics layer. Resources are named by identity.
#[derive(Clone, Copy, Debug, PartialEq, Eq, Structural)]
pub enum GlOp {
    BindFrameBuffer { target: u64 },
    UnbindFrameBuffer { target: u64 },
    Viewport { x: i32, y: i32, w: u32, h: u32 },
    DepthMask { enabled: bool },
    ClearColor { color: Rgba },
    Clear { bit: BufferBit },
    EnableDepthTest,
    DisableDepthTest,
    DepthFunc { func: DepthTest },
    EnableBlend,
    /// Blending by source alpha and one minus source alpha.
    BlendAlpha,
    /// Culling of back faces.
    EnableCullBack,
    BindProgram { program: u64 },
    BindTexture { texture: u64, unit: u32 },
    /// Points the program's sampler `slot` at texture unit `unit`.
    SetSampler { program: u64, slot: u32, unit: u32 },
    BindDirectionalLight { light: MainLight, program: u64 },
    BindPointLight { slot: u32, point: u64, program: u64 },
    BindMesh { buffer: u64, program: u64 },
    /// Per-object uniforms (model, model-view, normal matrices, view position)
    /// of the object at this index of the scene, for the given camera.
    SetObjectUniforms { program: u64, object: u64 },
    Commit { program: u64 },
    Render { buffer: u64 },
    UnbindMesh { buffer: u64 },
}

/// Readiness of shared resources as reported by the asset layer for one frame.
/// A resource in none of the lists is loaded and binds successfully.
pub struct AssetStatus {
    /// Resources still loading: binding them reports `NotReady`.
    pub pending: Vec<u64>,
    /// Resources the graphics layer rejects: binding them reports `Failed`.
    pub broken: Vec<u64>,
    /// Resources whose last owner is gone: cached references to them have expired.
    pub released: Vec<u64>,
}

/// What binding resource `id` reports.
pub open spec fn bind_outcome(a: &AssetStatus, id: u64) -> Result<(), BindError> {
    if a.pending@.contains(id) {
        Err(BindError::NotReady)
    } else if a.broken@.contains(id) {
        Err(BindError::Failed)
    } else {
        Ok(())
    }
}

/// Whether a reference to resource `id` is still valid.
pub open spec fn is_live(a: &AssetStatus, id: u64) -> bool {
    !a.released@.contains(id)
}

/// Whether `v` holds `x`.
pub fn contains_id(v: &Vec<u64>, x: u64) -> (r: bool)
    ensures
        r == v@.contains(x),
{
    let mut i: usize = 0;
    while i < v.len()
        invariant
            i <= v.len(),
            forall|j: int| 0 <= j < i ==> v@[j] != x,
        decreases v.len() - i,
    {
        if v[i] == x {
            return true;
        }
        i = i + 1;
    }
    false
}

impl AssetStatus {
    /// A table in which every resource is loaded and live.
    pub fn all_ready() -> (r: AssetStatus)
        ensures
            r.pending@ == Seq::<u64>::empty(),
            r.broken@ == Seq::<u64>::empty(),
            r.released@ == Seq::<u64>::empty(),
    {
        AssetStatus { pending: Vec::new(), broken: Vec::new(), released: Vec::new() }
    }

    /// What binding resource `id` reports.
    pub fn bind(&self, id: u64) -> (r: Result<(), BindError>)
        ensures
            r == bind_outcome(self, id),
    {
        if contains_id(&self.pending, id) {
            Err(BindError::NotReady)
        } else if contains_id(&self.broken, id) {
            Err(BindError::Failed)
        } else {
            Ok(())
        }
    }

    /// Whether a reference to resource `id` is still valid.
    pub fn live(&self, id: u64) -> (r: bool)
        ensures
            r == is_live(self, id),
    {
        !contains_id(&self.released, id)
    }
}

} // verus!
