use vstd::prelude::*;

use crate::vector::{Vec3f, Vec4f};

verus! {

/// The view of an optional string.
pub open spec fn opt_str_view(s: Option<String>) -> Option<Seq<char>> {
    match s {
        Some(v) => Some(v@),
        None => None,
    }
}

/// A colour as written in a scene: a vector, or a `#rrggbb` hex string.
#[derive(Debug)]
pub enum ColorWrapper {
    Vec3(Vec3f),
    Hex(String),
}

#[verifier::ext_equal]
pub enum ColorView {
    Vec3(Vec3f),
    Hex(Seq<char>),
}

impl View for ColorWrapper {
    type V = ColorView;

    open spec fn view(&self) -> ColorView {
        match self {
            ColorWrapper::Vec3(v) => ColorView::Vec3(*v),
            ColorWrapper::Hex(s) => ColorView::Hex(s@),
        }
    }
}

/// Camera settings.
#[derive(Clone, Copy, Debug, PartialEq, Eq, Structural)]
pub struct CameraWrapper {
    pub pos: Vec3f,
    pub dir: Vec4f,
    pub fov: u32,
    pub gamma: u32,
    pub exp: u32,
    pub aprt: u32,
    pub foc: u32,
}

impl View for CameraWrapper {
    type V = CameraWrapper;

    open spec fn view(&self) -> CameraWrapper {
        *self
    }
}

/// Ray tracer settings: bounce limit, samples per pixel and energy loss per
/// bounce.
#[derive(Clone, Copy, Debug, PartialEq, Eq, Structural)]
pub struct RayTracerWrapper {
    pub bounce: usize,
    pub sample: usize,
    pub loss: u32,
}

/// Frame settings: resolution, supersampling factor and camera.
#[derive(Clone, Copy, Debug)]
pub struct FrameWrapper {
    pub res: (u16, u16),
    pub ssaa: u32,
    pub cam: CameraWrapper,
}

/// Sky colour and power.
#[derive(Debug)]
pub struct SkyWrapper {
    pub color: ColorWrapper,
    pub pwr: u32,
}

#[verifier::ext_equal]
pub struct SkyView {
    pub color: ColorView,
    pub pwr: u32,
}

impl View for SkyWrapper {
    type V = SkyView;

    open spec fn view(&self) -> SkyView {
        SkyView { color: self.color@, pwr: self.pwr }
    }
}

/// A point light at `pos` or a directional light along `dir`.
#[derive(Clone, Copy, Debug, PartialEq, Eq, Structural)]
pub enum LightKindWrapper {
    Point { pos: Vec3f },
    Dir { dir: Vec3f },
}

impl View for LightKindWrapper {
    type V = LightKindWrapper;

    open spec fn view(&self) -> LightKindWrapper {
        *self
    }
}

/// A light: its kind, power and colour.
#[derive(Debug)]
pub struct LightWrapper {
    pub kind: LightKindWrapper,
    pub pwr: u32,
    pub color: ColorWrapper,
}

#[verifier::ext_equal]
pub struct LightView {
    pub kind: LightKindWrapper,
    pub pwr: u32,
    pub color: ColorView,
}

impl View for LightWrapper {
    type V = LightView;

    open spec fn view(&self) -> LightView {
        LightView { kind: self.kind, pwr: self.pwr, color: self.color@ }
    }
}

/// A texture given as `w` by `h` pixels, row by row.
#[derive(Debug)]
pub struct TextureBufferWrapper {
    pub w: usize,
    pub h: usize,
    pub dat: Option<Vec<Vec3f>>,
}

#[verifier::ext_equal]
pub struct TextureBufferView {
    pub w: usize,
    pub h: usize,
    pub dat: Option<Seq<Vec3f>>,
}

impl View for TextureBufferWrapper {
    type V = TextureBufferView;

    open spec fn view(&self) -> TextureBufferView {
        TextureBufferView {
            w: self.w,
            h: self.h,
            dat: match self.dat {
                Some(d) => Some(d@),
                None => None,
            },
        }
    }
}

/// A texture: a pixel buffer, an inline packed string, or a file name.
#[derive(Debug)]
pub enum TextureWrapper {
    Buffer(TextureBufferWrapper),
    InlineBase64(String),
    File(String),
}

#[verifier::ext_equal]
pub enum TextureView {
    Buffer(TextureBufferView),
    InlineBase64(Seq<char>),
    File(Seq<char>),
}

impl View for TextureWrapper {
    type V = TextureView;

    open spec fn view(&self) -> TextureView {
        match self {
            TextureWrapper::Buffer(b) => TextureView::Buffer(b@),
            TextureWrapper::InlineBase64(s) => TextureView::InlineBase64(s@),
            TextureWrapper::File(s) => TextureView::File(s@),
        }
    }
}

pub open spec fn opt_tex_view(t: Option<TextureWrapper>) -> Option<TextureView> {
    match t {
        Some(v) => Some(v@),
        None => None,
    }
}

/// Surface material: albedo, roughness, metalness, glassiness, opacity,
/// emission, and optional maps for each of them.
#[derive(Debug)]
pub struct MaterialWrapper {
    pub albedo: ColorWrapper,
    pub rough: u32,
    pub metal: u32,
    pub glass: u32,
    pub opacity: u32,
    pub emit: u32,
    pub tex: Option<TextureWrapper>,
    pub rmap: Option<TextureWrapper>,
    pub mmap: Option<TextureWrapper>,
    pub gmap: Option<TextureWrapper>,
    pub omap: Option<TextureWrapper>,
    pub emap: Option<TextureWrapper>,
}

#[verifier::ext_equal]
pub struct MaterialView {
    pub albedo: ColorView,
    pub rough: u32,
    pub metal: u32,
    pub glass: u32,
    pub opacity: u32,
    pub emit: u32,
    pub tex: Option<TextureView>,
    pub rmap: Option<TextureView>,
    pub mmap: Option<TextureView>,
    pub gmap: Option<TextureView>,
    pub omap: Option<TextureView>,
    pub emap: Option<TextureView>,
}

impl View for MaterialWrapper {
    type V = MaterialView;

    open spec fn view(&self) -> MaterialView {
        MaterialView {
            albedo: self.albedo@,
            rough: self.rough,
            metal: self.metal,
            glass: self.glass,
            opacity: self.opacity,
            emit: self.emit,
            tex: opt_tex_view(self.tex),
            rmap: opt_tex_view(self.rmap),
            mmap: opt_tex_view(self.mmap),
            gmap: opt_tex_view(self.gmap),
            omap: opt_tex_view(self.omap),
            emap: opt_tex_view(self.emap),
        }
    }
}

/// A triangle mesh: a list of triangles, an inline packed string, or a file
/// name.
#[derive(Debug)]
pub enum MeshWrapper {
    Mesh(Vec<(Vec3f, Vec3f, Vec3f)>),
    InlineBase64(String),
    File(String),
}

#[verifier::ext_equal]
pub enum MeshView {
    Mesh(Seq<(Vec3f, Vec3f, Vec3f)>),
    InlineBase64(Seq<char>),
    File(Seq<char>),
}

impl View for MeshWrapper {
    type V = MeshView;

    open spec fn view(&self) -> MeshView {
        match self {
            MeshWrapper::Mesh(m) => MeshView::Mesh(m@),
            MeshWrapper::InlineBase64(s) => MeshView::InlineBase64(s@),
            MeshWrapper::File(s) => MeshView::File(s@),
        }
    }
}

/// The shape of a scene object.
#[derive(Debug)]
pub enum RendererKindWrapper {
    Sphere { r: u32 },
    Plane { n: Vec3f },
    Box { sizes: Vec3f },
    Triangle { vtx: (Vec3f, Vec3f, Vec3f) },
    Mesh { mesh: MeshWrapper },
}

#[verifier::ext_equal]
pub enum RendererKindView {
    Sphere { r: u32 },
    Plane { n: Vec3f },
    Box { sizes: Vec3f },
    Triangle { vtx: (Vec3f, Vec3f, Vec3f) },
    Mesh { mesh: MeshView },
}

impl View for RendererKindWrapper {
    type V = RendererKindView;

    open spec fn view(&self) -> RendererKindView {
        match self {
            RendererKindWrapper::Sphere { r } => RendererKindView::Sphere { r: *r },
            RendererKindWrapper::Plane { n } => RendererKindView::Plane { n: *n },
            RendererKindWrapper::Box { sizes } => RendererKindView::Box { sizes: *sizes },
            RendererKindWrapper::Triangle { vtx } => RendererKindView::Triangle { vtx: *vtx },
            RendererKindWrapper::Mesh { mesh } => RendererKindView::Mesh { mesh: mesh@ },
        }
    }
}

/// A scene object: shape, material, placement, optional instances and name.
#[derive(Debug)]
pub struct RendererWrapper {
    pub kind: RendererKindWrapper,
    pub mat: MaterialWrapper,
    pub pos: Option<Vec3f>,
    pub dir: Option<Vec4f>,
    pub inst: Option<Vec<(Vec3f, Vec4f)>>,
    pub name: Option<String>,
}

#[verifier::ext_equal]
pub struct RendererView {
    pub kind: RendererKindView,
    pub mat: MaterialView,
    pub pos: Option<Vec3f>,
    pub dir: Option<Vec4f>,
    pub inst: Option<Seq<(Vec3f, Vec4f)>>,
    pub name: Option<Seq<char>>,
}

impl View for RendererWrapper {
    type V = RendererView;

    open spec fn view(&self) -> RendererView {
        RendererView {
            kind: self.kind@,
            mat: self.mat@,
            pos: self.pos,
            dir: self.dir,
            inst: match self.inst {
                Some(v) => Some(v@),
                None => None,
            },
            name: opt_str_view(self.name),
        }
    }
}

/// The objects, lights and sky of a scene.
#[derive(Debug)]
pub struct SceneWrapper {
    pub renderer: Option<Vec<RendererWrapper>>,
    pub light: Option<Vec<LightWrapper>>,
    pub sky: SkyWrapper,
}

/// A whole render description: tracer settings, frame and scene.
#[derive(Debug)]
pub struct RenderWrapper {
    pub rt: RayTracerWrapper,
    pub frame: FrameWrapper,
    pub scene: SceneWrapper,
}

} // verus!
