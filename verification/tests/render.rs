use raytracer::bvh::{Box, AABB, BVH};
use raytracer::defaults::{FOV_DEFAULT, LOSS_DEFAULT};
use raytracer::render::{Camera, LightKind, RendererInstance};
use raytracer::scene::{
    CameraWrapper, FrameWrapper, LightKindWrapper, MaterialWrapper, RayTracerWrapper, RenderWrapper,
    RendererKindWrapper, RendererWrapper,
};
use raytracer::vector::{Vec3f, Vec4f};
use raytracer::wrapper::Wrapper;

fn obj(pos: Option<Vec3f>, dir: Option<Vec4f>, inst: Option<Vec<(Vec3f, Vec4f)>>) -> RendererWrapper {
    RendererWrapper { kind: RendererKindWrapper::Sphere { r: 1 }, mat: MaterialWrapper::default(), pos, dir, inst, name: None }
}

fn p(i: u32) -> Vec3f {
    Vec3f { x: i, y: i, z: i }
}

fn d(i: u32) -> Vec4f {
    Vec4f { w: i, x: i, y: i, z: i }
}

#[test]
fn single_placement_defaults() {
    let i = obj(None, None, None).instances();
    assert_eq!(i, vec![RendererInstance { pos: p(0), dir: Vec4f::backward() }]);
}

#[test]
fn instance_list_without_own_placement() {
    let i = obj(None, None, Some(vec![(p(1), d(1)), (p(2), d(2))])).instances();
    assert_eq!(i, vec![RendererInstance { pos: p(1), dir: d(1) }, RendererInstance { pos: p(2), dir: d(2) }]);
}

#[test]
fn instance_list_with_own_placement_first() {
    let i = obj(Some(p(7)), None, Some(vec![(p(1), d(1))])).instances();
    assert_eq!(i, vec![RendererInstance { pos: p(7), dir: Vec4f::backward() }, RendererInstance { pos: p(1), dir: d(1) }]);
}

#[test]
fn light_kind_is_kept() {
    assert_eq!(LightKindWrapper::Dir { dir: p(3) }.unwrap(), Ok(LightKind::Dir { dir: p(3) }));
    assert_eq!(LightKindWrapper::Point { pos: p(4) }.unwrap(), Ok(LightKind::Point { pos: p(4) }));
}

#[test]
fn camera_and_frame_are_kept() {
    let c = CameraWrapper::default();
    let cam: Camera = c.unwrap().unwrap();
    assert_eq!(cam.fov, FOV_DEFAULT);
    let f = FrameWrapper::default().unwrap().unwrap();
    assert_eq!(f.res, (1280, 720));
    assert_eq!(f.cam, cam);
}

#[test]
fn render_defaults() {
    let r = RenderWrapper::default();
    assert_eq!(r.rt, RayTracerWrapper { bounce: 8, sample: 16, loss: LOSS_DEFAULT });
    assert_eq!(LOSS_DEFAULT, 0.15f32.to_bits());
    assert_eq!(FOV_DEFAULT, 70.0f32.to_bits());
    assert!(r.scene.renderer.is_none());
    assert_eq!(r.scene.sky.pwr, 0.5f32.to_bits());
}

struct Dot(i32);

impl AABB for Dot {
    fn gen_aabb(&self) -> Option<Box> {
        None
    }

    fn check_in_aabb(&self, aabb: &Box, rel_pos: Vec3f) -> Vec<(usize, bool)> {
        // one instance; inside when the cell's x centre has the dot's sign
        let x = f32::from_bits(rel_pos.x);
        let _ = aabb;
        vec![(0, (x > 0.0) == (self.0 > 0))]
    }
}

fn split(b: &Box, pos: Vec3f, i: usize) -> (Box, Vec3f) {
    let sx = if i % 2 == 0 { 1.0f32 } else { -1.0 };
    let half = |v: u32| (f32::from_bits(v) * 0.5).to_bits();
    let off = (f32::from_bits(pos.x) + f32::from_bits(b.0.x) * 0.25 * sx).to_bits();
    (Box(Vec3f { x: half(b.0.x), y: half(b.0.y), z: half(b.0.z) }), Vec3f { x: off, y: pos.y, z: pos.z })
}

#[test]
fn bvh_keeps_only_reached_cells() {
    let objs = vec![Dot(1), Dot(-1)];
    let root = Box(Vec3f { x: 2.0f32.to_bits(), y: 2.0f32.to_bits(), z: 2.0f32.to_bits() });
    let bvh = BVH::gen(root, &objs, 1, &split).unwrap();
    assert!(bvh.content.is_none());
    let childs = bvh.childs.unwrap();
    assert_eq!(childs.len(), 8);
    let c0 = childs[0].as_ref().unwrap();
    assert_eq!(c0.content, Some(vec![(0, 0)]));
    assert_eq!(c0.rel_pos.x, 0.5f32.to_bits());
    let c1 = childs[1].as_ref().unwrap();
    assert_eq!(c1.content, Some(vec![(1, 0)]));
}

#[test]
fn bvh_depth_zero_is_a_leaf() {
    let objs = vec![Dot(-1), Dot(-2)];
    let root = Box(Vec3f { x: 0, y: 0, z: 0 });
    let bvh = BVH::gen(root, &objs, 0, &split).unwrap();
    assert!(bvh.childs.is_none());
    assert_eq!(bvh.content, Some(vec![(0, 0), (1, 0)]));
}

#[test]
fn bvh_without_objects_is_empty() {
    let objs: Vec<Dot> = Vec::new();
    let root = Box(Vec3f { x: 0, y: 0, z: 0 });
    let bvh = BVH::gen(root, &objs, 2, &split).unwrap();
    assert!(bvh.childs.is_none());
    assert!(bvh.content.is_none());
}

/// A point shape with a single instance, inside a box when it lies within
/// the box's half extents around the box's centre.
struct Point(f32, f32, f32);

impl AABB for Point {
    fn gen_aabb(&self) -> Option<Box> {
        None
    }

    fn check_in_aabb(&self, aabb: &Box, rel_pos: Vec3f) -> Vec<(usize, bool)> {
        let f = f32::from_bits;
        let inside = |p: f32, c: u32, e: u32| (p - f(c)).abs() <= f(e) * 0.5;
        vec![(
            0,
            inside(self.0, rel_pos.x, aabb.0.x) && inside(self.1, rel_pos.y, aabb.0.y) && inside(self.2, rel_pos.z, aabb.0.z),
        )]
    }
}

const OCTANTS: [(f32, f32, f32); 8] = [
    (1.0, 1.0, 1.0),
    (-1.0, 1.0, 1.0),
    (-1.0, -1.0, 1.0),
    (1.0, -1.0, 1.0),
    (1.0, 1.0, -1.0),
    (-1.0, 1.0, -1.0),
    (-1.0, -1.0, -1.0),
    (1.0, -1.0, -1.0),
];

fn octant(b: &Box, pos: Vec3f, i: usize) -> (Box, Vec3f) {
    let f = f32::from_bits;
    let (sx, sy, sz) = OCTANTS[i];
    (
        Box(Vec3f { x: (f(b.0.x) * 0.5).to_bits(), y: (f(b.0.y) * 0.5).to_bits(), z: (f(b.0.z) * 0.5).to_bits() }),
        Vec3f {
            x: (f(pos.x) + f(b.0.x) * sx * 0.25).to_bits(),
            y: (f(pos.y) + f(b.0.y) * sy * 0.25).to_bits(),
            z: (f(pos.z) + f(b.0.z) * sz * 0.25).to_bits(),
        },
    )
}

#[test]
fn bvh_one_point_keeps_one_octant() {
    let objs = vec![Point(1.0, 1.0, 1.0)];
    let four = 4.0f32.to_bits();
    let two = 2.0f32.to_bits();
    let one = 1.0f32.to_bits();
    let bvh = BVH::gen(Box(Vec3f { x: four, y: four, z: four }), &objs, 1, &octant).unwrap();
    assert_eq!(bvh.aabb, Box(Vec3f { x: four, y: four, z: four }));
    assert_eq!(bvh.rel_pos, Vec3f { x: 0, y: 0, z: 0 });
    assert!(bvh.content.is_none());
    let childs = bvh.childs.unwrap();
    assert_eq!(childs.len(), 1);
    let c = childs[0].as_ref().unwrap();
    assert_eq!(c.aabb, Box(Vec3f { x: two, y: two, z: two }));
    assert_eq!(c.rel_pos, Vec3f { x: one, y: one, z: one });
    assert_eq!(c.content, Some(vec![(0, 0)]));
    assert!(c.childs.is_none());
}

#[test]
fn bvh_children_keep_octant_order() {
    // one point in octant 6, one in octant 0
    let objs = vec![Point(-1.0, -1.0, -1.0), Point(1.0, 1.0, 1.0)];
    let four = 4.0f32.to_bits();
    let bvh = BVH::gen(Box(Vec3f { x: four, y: four, z: four }), &objs, 1, &octant).unwrap();
    let childs = bvh.childs.unwrap();
    assert_eq!(childs.len(), 2);
    assert_eq!(childs[0].as_ref().unwrap().content, Some(vec![(1, 0)]));
    assert_eq!(childs[1].as_ref().unwrap().content, Some(vec![(0, 0)]));
    assert_eq!(childs[1].as_ref().unwrap().rel_pos.x, (-1.0f32).to_bits());
}
