use vstd::prelude::*;

use crate::assets::texture_buffered;
use crate::scene::{
    CameraWrapper, FrameWrapper, LightKindWrapper, RendererView, RendererWrapper, TextureBufferView,
    TextureView, TextureWrapper,
};
use crate::vector::{Vec3f, Vec4f, MINUS_ONE, ZERO};
use crate::wrapper::Wrapper;

verus! {

/// A texture in pixel form: `w` by `h` pixels, row by row.
#[derive(Debug, Clone)]
pub struct Texture {
    pub w: usize,
    pub h: usize,
    pub dat: Option<Vec<Vec3f>>,
}

impl View for Texture {
    type V = TextureBufferView;

    open spec fn view(&self) -> TextureBufferView {
        TextureBufferView {
            w: self.w,
            h: self.h,
            dat: match self.dat {
                Some(d) => Some(d@),
                None => None,
            },
        }
    }
}

impl Texture {
    /// The pixel in column `x` and row `y` (the index `x + y * w`), or the
    /// zero colour when the texture has no pixels.  Turning texture
    /// coordinates into the column and row is floating-point work left to
    /// the caller.
    pub fn get_color(&self, x: usize, y: usize) -> (c: Vec3f)
        requires
            self.dat is Some ==> x + y * self.w < self.dat->Some_0@.len(),
        ensures
            c == match self.dat {
                Some(d) => d@[x + y * self.w],
                None => Vec3f { x: ZERO, y: ZERO, z: ZERO },
            },
    {
        match &self.dat {
            Some(d) => {
                let n = d.len();
                proof {
                    assert(0 <= y * self.w) by (nonlinear_arith);
                    assert(y * self.w < n);
                }
                d[x + y * self.w]
            },
            None => Vec3f::zero(),
        }
    }
}

impl TextureWrapper {
    /// The readers may give a pixel buffer only.
    pub open spec fn readers_give_buffers<
        L: FnOnce(&str) -> Result<TextureWrapper, String>,
        P: FnOnce(&str) -> Result<TextureWrapper, String>,
    >(load: L, parse: P) -> bool {
        &&& forall|n: &str, r: Result<TextureWrapper, String>|
            #[trigger] load.ensures((n,), r) && r is Ok ==> r->Ok_0 is Buffer
        &&& forall|j: &str, r: Result<TextureWrapper, String>|
            #[trigger] parse.ensures((j,), r) && r is Ok ==> r->Ok_0 is Buffer
    }

    /// The texture in pixel form, brought there as `to_buffer` does.
    pub fn unwrap<
        L: FnOnce(&str) -> Result<TextureWrapper, String>,
        P: FnOnce(&str) -> Result<TextureWrapper, String>,
    >(self, load: L, parse: P) -> (r: Result<Texture, String>)
        requires
            forall|n: &str| load.requires((n,)),
            forall|j: &str| parse.requires((j,)),
            TextureWrapper::readers_give_buffers(load, parse),
        ensures
            exists|b: Result<TextureWrapper, String>|
                #[trigger] texture_buffered(self@, load, parse, b) && match b {
                    Ok(t) => t@ is Buffer && (r matches Ok(x) && TextureView::Buffer(x@) == t@),
                    Err(e) => r matches Err(e2) && e2@ == e@,
                },
    {
        let b = self.to_buffer(load, parse);
        match b {
            Ok(TextureWrapper::Buffer(buf)) => {
                let r = Ok(Texture { w: buf.w, h: buf.h, dat: buf.dat });
                r
            },
            Ok(_) => {
                proof {
                    assert(false);
                }
                Err(String::new())
            },
            Err(e) => Err(e),
        }
    }
}

/// One placement of an object: position and orientation.
#[derive(Clone, Copy, Debug, PartialEq, Eq, Structural)]
pub struct RendererInstance {
    pub pos: Vec3f,
    pub dir: Vec4f,
}

/// The placements of an object: with no instance list, the one placement at
/// `pos` (origin by default) facing `dir` (backward by default); with an
/// instance list, that list, preceded by the object's own placement when a
/// position or an orientation is given.
pub open spec fn spec_instances(o: RendererView) -> Seq<RendererInstance> {
    let own = RendererInstance {
        pos: match o.pos {
            Some(p) => p,
            None => Vec3f { x: ZERO, y: ZERO, z: ZERO },
        },
        dir: match o.dir {
            Some(d) => d,
            None => Vec4f { w: ZERO, x: ZERO, y: MINUS_ONE, z: ZERO },
        },
    };
    match o.inst {
        None => seq![own],
        Some(v) => {
            let listed = v.map_values(|i: (Vec3f, Vec4f)| RendererInstance { pos: i.0, dir: i.1 });
            if o.pos is Some || o.dir is Some {
                seq![own] + listed
            } else {
                listed
            }
        },
    }
}

/// The object's own placement comes first, at its own position and facing
/// its own orientation (origin and backward where not given); it is the
/// only one without an instance list, and with one it is followed by the
/// listed placements in order (it is left out when neither position nor
/// orientation is given).
pub proof fn lemma_instances_placements(o: RendererView)
    ensures
        ({
            let r = spec_instances(o);
            let own = o.inst is None || o.pos is Some || o.dir is Some;
            let skip: int = if own { 1 } else { 0 };
            &&& own ==> r.len() >= 1
            &&& own && o.dir is Some ==> r[0].dir == o.dir->Some_0
            &&& own && o.dir is None ==> r[0].dir == Vec4f { w: ZERO, x: ZERO, y: MINUS_ONE, z: ZERO }
            &&& own && o.pos is Some ==> r[0].pos == o.pos->Some_0
            &&& own && o.pos is None ==> r[0].pos == Vec3f { x: ZERO, y: ZERO, z: ZERO }
            &&& o.inst is None ==> r.len() == 1
            &&& o.inst matches Some(v) ==> {
                &&& r.len() == skip + v.len()
                &&& forall|k: int|
                    0 <= k < v.len() ==> r[skip + k].pos == (#[trigger] v[k]).0 && r[skip + k].dir
                        == v[k].1
            }
        }),
{
}

impl RendererWrapper {
    /// The placements at which the object is drawn.
    pub fn instances(&self) -> (r: Vec<RendererInstance>)
        ensures
            r@ == spec_instances(self@),
    {
        let own = RendererInstance {
            pos: match self.pos {
                Some(p) => p,
                None => Vec3f::zero(),
            },
            dir: match self.dir {
                Some(d) => d,
                None => Vec4f::backward(),
            },
        };
        let mut r: Vec<RendererInstance> = Vec::new();
        match &self.inst {
            None => {
                r.push(own);
                assert(r@ =~= spec_instances(self@));
            },
            Some(v) => {
                let ghost listed = v@.map_values(
                    |i: (Vec3f, Vec4f)| RendererInstance { pos: i.0, dir: i.1 },
                );
                let ghost head: Seq<RendererInstance> = if self.pos.is_some() || self.dir.is_some() {
                    seq![own]
                } else {
                    seq![]
                };
                if self.pos.is_some() || self.dir.is_some() {
                    r.push(own);
                }
                assert(r@ =~= head);
                let mut k: usize = 0;
                while k < v.len()
                    invariant
                        k <= v@.len(),
                        listed == v@.map_values(
                            |i: (Vec3f, Vec4f)| RendererInstance { pos: i.0, dir: i.1 },
                        ),
                        r@ =~= head + listed.subrange(0, k as int),
                    decreases v@.len() - k,
                {
                    let (p, d) = v[k];
                    r.push(RendererInstance { pos: p, dir: d });
                    k = k + 1;
                    assert(listed.subrange(0, k as int) =~= listed.subrange(0, k - 1).push(
                        listed[k - 1],
                    ));
                }
                assert(listed.subrange(0, v@.len() as int) =~= listed);
            },
        }
        r
    }
}

/// The kind of a light, as rendering uses it.
#[derive(Clone, Copy, Debug, PartialEq, Eq, Structural)]
pub enum LightKind {
    Point { pos: Vec3f },
    Dir { dir: Vec3f },
}

impl Wrapper<LightKind> for LightKindWrapper {
    open spec fn can_unwrap(&self) -> bool {
        true
    }

    /// The same kind and vector.
    fn unwrap(self) -> (r: Result<LightKind, String>)
        ensures
            r == match self {
                LightKindWrapper::Point { pos } => Ok::<LightKind, String>(LightKind::Point { pos }),
                LightKindWrapper::Dir { dir } => Ok::<LightKind, String>(LightKind::Dir { dir }),
            },
    {
        match self {
            LightKindWrapper::Point { pos } => Ok(LightKind::Point { pos }),
            LightKindWrapper::Dir { dir } => Ok(LightKind::Dir { dir }),
        }
    }
}

/// The camera as rendering uses it.
#[derive(Clone, Copy, Debug, PartialEq, Eq, Structural)]
pub struct Camera {
    pub pos: Vec3f,
    pub dir: Vec4f,
    pub fov: u32,
    pub gamma: u32,
    pub exp: u32,
    pub aprt: u32,
    pub foc: u32,
}

/// The frame as rendering uses it.
#[derive(Clone, Copy, Debug)]
pub struct Frame {
    pub res: (u16, u16),
    pub ssaa: u32,
    pub cam: Camera,
}

pub open spec fn spec_camera(c: CameraWrapper) -> Camera {
    Camera { pos: c.pos, dir: c.dir, fov: c.fov, gamma: c.gamma, exp: c.exp, aprt: c.aprt, foc: c.foc }
}

impl Wrapper<Camera> for CameraWrapper {
    open spec fn can_unwrap(&self) -> bool {
        true
    }

    /// The same settings.
    fn unwrap(self) -> (r: Result<Camera, String>)
        ensures
            r == Ok::<Camera, String>(spec_camera(self)),
    {
        Ok(
            Camera {
                pos: self.pos,
                dir: self.dir,
                fov: self.fov,
                gamma: self.gamma,
                exp: self.exp,
                aprt: self.aprt,
                foc: self.foc,
            },
        )
    }
}

impl Wrapper<Frame> for FrameWrapper {
    open spec fn can_unwrap(&self) -> bool {
        true
    }

    /// The same resolution and supersampling, and the camera.
    fn unwrap(self) -> (r: Result<Frame, String>)
        ensures
            r matches Ok(f) && f.res == self.res && f.ssaa == self.ssaa && f.cam == spec_camera(
                self.cam,
            ),
    {
        Ok(Frame { res: self.res, ssaa: self.ssaa, cam: self.cam.unwrap()? })
    }
}

} // verus!
