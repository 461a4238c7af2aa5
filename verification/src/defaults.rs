use vstd::prelude::*;

use crate::scene::{
    CameraWrapper, ColorView, ColorWrapper, FrameWrapper, LightKindWrapper, LightView,
    LightWrapper, MaterialView, MaterialWrapper, RayTracerWrapper, RenderWrapper, SceneWrapper,
    SkyView, SkyWrapper, TextureBufferView, TextureBufferWrapper,
};
use crate::vector::{Vec3f, Vec4f, HALF, MINUS_ONE, MINUS_ZERO, ONE, ZERO};

verus! {

/// Bit pattern of `0.15`.
pub const LOSS_DEFAULT: u32 = 0x3e19_999au32;

/// Bit pattern of `70.0`.
pub const FOV_DEFAULT: u32 = 0x428c_0000u32;

/// Bit pattern of `0.8`.
pub const GAMMA_DEFAULT: u32 = 0x3f4c_cccdu32;

/// Bit pattern of `0.2`.
pub const EXP_DEFAULT: u32 = 0x3e4c_cccdu32;

/// Bit pattern of `0.001`.
pub const APRT_DEFAULT: u32 = 0x3a83_126fu32;

/// Bit pattern of `100.0`.
pub const FOC_DEFAULT: u32 = 0x42c8_0000u32;

/// The white colour `(1, 1, 1)`.
pub open spec fn white() -> Vec3f {
    Vec3f { x: ONE, y: ONE, z: ONE }
}

/// The zero vector.
pub open spec fn zero3() -> Vec3f {
    Vec3f { x: ZERO, y: ZERO, z: ZERO }
}

pub open spec fn camera_default() -> CameraWrapper {
    CameraWrapper {
        pos: Vec3f { x: MINUS_ZERO, y: MINUS_ONE, z: MINUS_ZERO },
        dir: Vec4f { w: ZERO, x: ZERO, y: ONE, z: ZERO },
        fov: FOV_DEFAULT,
        gamma: GAMMA_DEFAULT,
        exp: EXP_DEFAULT,
        aprt: APRT_DEFAULT,
        foc: FOC_DEFAULT,
    }
}

pub open spec fn material_default() -> MaterialView {
    MaterialView {
        albedo: ColorView::Vec3(white()),
        rough: ZERO,
        metal: ZERO,
        glass: ZERO,
        opacity: ONE,
        emit: ZERO,
        tex: None,
        rmap: None,
        mmap: None,
        gmap: None,
        omap: None,
        emap: None,
    }
}

pub open spec fn sky_default() -> SkyView {
    SkyView { color: ColorView::Vec3(zero3()), pwr: HALF }
}

pub open spec fn light_default() -> LightView {
    LightView { kind: LightKindWrapper::Point { pos: zero3() }, pwr: HALF, color: ColorView::Vec3(white()) }
}

impl Default for TextureBufferWrapper {
    /// An empty buffer: no size, no pixels.
    fn default() -> (r: Self)
        ensures
            r@ == (TextureBufferView { w: 0, h: 0, dat: None }),
    {
        TextureBufferWrapper { w: 0, h: 0, dat: None }
    }
}

impl Default for RayTracerWrapper {
    /// 8 bounces, 16 samples, loss 0.15.
    fn default() -> (r: Self)
        ensures
            r == (RayTracerWrapper { bounce: 8, sample: 16, loss: LOSS_DEFAULT }),
    {
        RayTracerWrapper { bounce: 8, sample: 16, loss: LOSS_DEFAULT }
    }
}

impl Default for CameraWrapper {
    /// A camera one unit behind the origin looking forward, field of view 70.
    fn default() -> (r: Self)
        ensures
            r == camera_default(),
    {
        CameraWrapper {
            pos: Vec3f { x: MINUS_ZERO, y: MINUS_ONE, z: MINUS_ZERO },
            dir: Vec4f::forward(),
            fov: FOV_DEFAULT,
            gamma: GAMMA_DEFAULT,
            exp: EXP_DEFAULT,
            aprt: APRT_DEFAULT,
            foc: FOC_DEFAULT,
        }
    }
}

impl Default for FrameWrapper {
    /// 1280 by 720 pixels, no supersampling, the default camera.
    fn default() -> (r: Self)
        ensures
            r.res == (1280u16, 720u16),
            r.ssaa == ONE,
            r.cam == camera_default(),
    {
        FrameWrapper { res: (1280, 720), ssaa: ONE, cam: CameraWrapper::default() }
    }
}

impl Default for SkyWrapper {
    /// A black sky of power 0.5.
    fn default() -> (r: Self)
        ensures
            r@ == sky_default(),
    {
        SkyWrapper { color: ColorWrapper::Vec3(Vec3f::zero()), pwr: HALF }
    }
}

impl Default for SceneWrapper {
    /// No objects, no lights, the default sky.
    fn default() -> (r: Self)
        ensures
            r.renderer is None,
            r.light is None,
            r.sky@ == sky_default(),
    {
        SceneWrapper { renderer: None, light: None, sky: SkyWrapper::default() }
    }
}

impl Default for MaterialWrapper {
    /// White, smooth, non-metal, opaque, not emitting, without maps.
    fn default() -> (r: Self)
        ensures
            r@ == material_default(),
    {
        MaterialWrapper {
            albedo: ColorWrapper::Vec3(Vec3f::new(ONE, ONE, ONE)),
            rough: ZERO,
            metal: ZERO,
            glass: ZERO,
            opacity: ONE,
            emit: ZERO,
            tex: None,
            rmap: None,
            mmap: None,
            gmap: None,
            omap: None,
            emap: None,
        }
    }
}

impl Default for LightWrapper {
    /// A white point light at the origin of power 0.5.
    fn default() -> (r: Self)
        ensures
            r@ == light_default(),
    {
        LightWrapper {
            kind: LightKindWrapper::Point { pos: Vec3f::zero() },
            pwr: HALF,
            color: ColorWrapper::Vec3(Vec3f::new(ONE, ONE, ONE)),
        }
    }
}

impl Default for RenderWrapper {
    /// The default tracer, frame and scene.
    fn default() -> (r: Self)
        ensures
            r.rt == (RayTracerWrapper { bounce: 8, sample: 16, loss: LOSS_DEFAULT }),
            r.frame.res == (1280u16, 720u16),
            r.frame.ssaa == ONE,
            r.frame.cam == camera_default(),
            r.scene.renderer is None,
            r.scene.light is None,
            r.scene.sky@ == sky_default(),
    {
        RenderWrapper {
            rt: RayTracerWrapper::default(),
            frame: FrameWrapper::default(),
            scene: SceneWrapper::default(),
        }
    }
}

} // verus!
