use vstd::prelude::*;

use crate::args::{
    lemma_color_prefix, lemma_color_shift, lemma_scalar_prefix, lemma_scalar_shift,
    lemma_vec3_prefix, lemma_vec3_shift, lemma_vec4_prefix, lemma_vec4_shift, res_view, spec_color,
    spec_scalar, spec_vec3, spec_vec4, Arg, ParseFromStrIter,
};
use crate::defaults::{camera_default, light_default, material_default, zero3};
use crate::scene::{
    CameraWrapper, ColorView, ColorWrapper, LightKindWrapper, LightView, LightWrapper, MaterialView,
    MaterialWrapper, MeshView, MeshWrapper, RendererKindView, RendererKindWrapper, RendererView,
    RendererWrapper, TextureView, TextureWrapper,
};
use crate::text::{concat3, concat5, contains_char, str_eq};
use crate::vector::{Vec3f, Vec4f, HALF, MINUS_HALF, MINUS_ONE, MINUS_QUARTER, ONE, ZERO};

verus! {

/// The message for a word that names no parameter of `owner`.
pub open spec fn msg_param(param: Seq<char>, owner: Seq<char>) -> Seq<char> {
    "`"@ + param + "` param for `"@ + owner + "` is unxpected!"@
}

/// The message for an object type that is not known.
pub open spec fn msg_type(t: Seq<char>) -> Seq<char> {
    "`"@ + t + "` type is unxpected!"@
}

/// A value built from a list of command-line words.
pub trait FromArgs: Sized + View {
    /// The word lists that `from_args` takes.
    spec fn accepts(args: Seq<Arg>) -> bool;

    /// The value, or the error, that the word list gives.
    spec fn spec_from_args(args: Seq<Arg>) -> Result<<Self as View>::V, Seq<char>>;

    /// Every non-empty word list is taken.
    proof fn lemma_nonempty_accepted(args: Seq<Arg>)
        requires
            args.len() > 0,
        ensures
            Self::accepts(args),
    ;

    fn from_args(args: &Vec<Arg>) -> (r: Result<Self, String>)
        requires
            Self::accepts(args@),
        ensures
            res_view(r) == Self::spec_from_args(args@),
    ;
}

// ---------------------------------------------------------------- camera

/// One camera parameter at `args[pos]` and its values: the position after
/// them and the updated camera, or an error.
pub open spec fn camera_step(args: Seq<Arg>, pos: int, cam: CameraWrapper) -> (int, Result<
    CameraWrapper,
    Seq<char>,
>) {
    let p = args[pos].text@;
    let q = pos + 1;
    if p == "pos:"@ {
        let (q2, r) = spec_vec3(args, q);
        (q2, match r { Ok(v) => Ok(CameraWrapper { pos: v, ..cam }), Err(e) => Err(e) })
    } else if p == "dir:"@ {
        let (q2, r) = spec_vec4(args, q);
        (q2, match r { Ok(v) => Ok(CameraWrapper { dir: v, ..cam }), Err(e) => Err(e) })
    } else if p == "fov:"@ {
        let (q2, r) = spec_scalar(args, q);
        (q2, match r { Ok(v) => Ok(CameraWrapper { fov: v, ..cam }), Err(e) => Err(e) })
    } else if p == "gamma:"@ {
        let (q2, r) = spec_scalar(args, q);
        (q2, match r { Ok(v) => Ok(CameraWrapper { gamma: v, ..cam }), Err(e) => Err(e) })
    } else if p == "exp:"@ {
        let (q2, r) = spec_scalar(args, q);
        (q2, match r { Ok(v) => Ok(CameraWrapper { exp: v, ..cam }), Err(e) => Err(e) })
    } else if p == "aprt:"@ {
        let (q2, r) = spec_scalar(args, q);
        (q2, match r { Ok(v) => Ok(CameraWrapper { aprt: v, ..cam }), Err(e) => Err(e) })
    } else if p == "foc:"@ {
        let (q2, r) = spec_scalar(args, q);
        (q2, match r { Ok(v) => Ok(CameraWrapper { foc: v, ..cam }), Err(e) => Err(e) })
    } else {
        (q, Err(msg_param(p, "cam"@)))
    }
}

/// The camera that the words `args[pos..]` give, starting from `cam`.
pub open spec fn camera_loop(args: Seq<Arg>, pos: int, cam: CameraWrapper) -> Result<
    CameraWrapper,
    Seq<char>,
>
    decreases args.len() - pos,
{
    if pos < 0 || pos >= args.len() {
        Ok(cam)
    } else {
        let (q, r) = camera_step(args, pos, cam);
        match r {
            Err(e) => Err(e),
            Ok(c) => camera_loop(args, q, c),
        }
    }
}

fn camera_param(args: &Vec<Arg>, pos: &mut usize, cam: &mut CameraWrapper) -> (r: Result<(), String>)
    requires
        *old(pos) < args@.len(),
    ensures
        camera_step(args@, *old(pos) as int, *old(cam)) == (*final(pos) as int, match r {
            Ok(_) => Ok(*final(cam)),
            Err(e) => Err(e@),
        }),
        *old(pos) < *final(pos) <= args@.len(),
{
    let _len = args.len();  // the word count is a usize, so the next position is one too
    let p = &args[*pos].text;
    *pos = *pos + 1;
    if str_eq(p.as_str(), "pos:") {
        cam.pos = <Vec3f as ParseFromStrIter>::parse(args, pos)?;
    } else if str_eq(p.as_str(), "dir:") {
        cam.dir = <Vec4f as ParseFromStrIter>::parse(args, pos)?;
    } else if str_eq(p.as_str(), "fov:") {
        cam.fov = <u32 as ParseFromStrIter>::parse(args, pos)?;
    } else if str_eq(p.as_str(), "gamma:") {
        cam.gamma = <u32 as ParseFromStrIter>::parse(args, pos)?;
    } else if str_eq(p.as_str(), "exp:") {
        cam.exp = <u32 as ParseFromStrIter>::parse(args, pos)?;
    } else if str_eq(p.as_str(), "aprt:") {
        cam.aprt = <u32 as ParseFromStrIter>::parse(args, pos)?;
    } else if str_eq(p.as_str(), "foc:") {
        cam.foc = <u32 as ParseFromStrIter>::parse(args, pos)?;
    } else {
        return Err(concat5("`", p.as_str(), "` param for `", "cam", "` is unxpected!"));
    }
    Ok(())
}

impl FromArgs for CameraWrapper {
    open spec fn accepts(args: Seq<Arg>) -> bool {
        true
    }

    proof fn lemma_nonempty_accepted(args: Seq<Arg>) {
    }

    open spec fn spec_from_args(args: Seq<Arg>) -> Result<CameraWrapper, Seq<char>> {
        camera_loop(args, 0, camera_default())
    }

    /// Starts from the default camera and applies `pos:`, `dir:`, `fov:`,
    /// `gamma:`, `exp:`, `aprt:` and `foc:` in order; any other word is an
    /// error.
    fn from_args(args: &Vec<Arg>) -> (r: Result<CameraWrapper, String>) {
        let mut pos: usize = 0;
        let mut cam = CameraWrapper::default();
        while pos < args.len()
            invariant
                pos <= args@.len(),
                camera_loop(args@, pos as int, cam) == camera_loop(args@, 0, camera_default()),
            decreases args@.len() - pos,
        {
            camera_param(args, &mut pos, &mut cam)?;
        }
        Ok(cam)
    }
}

proof fn lemma_values_prefix(a: Seq<Arg>, b: Seq<Arg>, q: int)
    requires
        0 <= q,
    ensures
        spec_scalar(a, q).1 is Ok ==> spec_scalar(a + b, q) == spec_scalar(a, q),
        spec_vec3(a, q).1 is Ok ==> spec_vec3(a + b, q) == spec_vec3(a, q),
        spec_vec4(a, q).1 is Ok ==> spec_vec4(a + b, q) == spec_vec4(a, q),
        spec_color(a, q).1 is Ok ==> spec_color(a + b, q) == spec_color(a, q),
{
    if spec_scalar(a, q).1 is Ok {
        lemma_scalar_prefix(a, b, q);
    }
    if spec_vec3(a, q).1 is Ok {
        lemma_vec3_prefix(a, b, q);
    }
    if spec_vec4(a, q).1 is Ok {
        lemma_vec4_prefix(a, b, q);
    }
    if spec_color(a, q).1 is Ok {
        lemma_color_prefix(a, b, q);
    }
}

proof fn lemma_values_shift(a: Seq<Arg>, b: Seq<Arg>, k: int)
    requires
        0 <= k,
    ensures
        spec_scalar(a + b, a.len() + k) == (a.len() + spec_scalar(b, k).0, spec_scalar(b, k).1),
        spec_vec3(a + b, a.len() + k) == (a.len() + spec_vec3(b, k).0, spec_vec3(b, k).1),
        spec_vec4(a + b, a.len() + k) == (a.len() + spec_vec4(b, k).0, spec_vec4(b, k).1),
        spec_color(a + b, a.len() + k) == (a.len() + spec_color(b, k).0, spec_color(b, k).1),
{
    lemma_scalar_shift(a, b, k);
    lemma_vec3_shift(a, b, k);
    lemma_vec4_shift(a, b, k);
    lemma_color_shift(a, b, k);
}

proof fn lemma_camera_loop_shift(a: Seq<Arg>, b: Seq<Arg>, k: int, cam: CameraWrapper)
    requires
        0 <= k,
    ensures
        camera_loop(a + b, a.len() + k, cam) == camera_loop(b, k, cam),
    decreases b.len() - k,
{
    if k < b.len() {
        assert((a + b)[a.len() + k] == b[k]);
        lemma_values_shift(a, b, k + 1);
        let (q, r) = camera_step(b, k, cam);
        if r is Ok {
            lemma_camera_loop_shift(a, b, q, r->Ok_0);
        }
    }
}

proof fn lemma_camera_loop_prefix(a: Seq<Arg>, b: Seq<Arg>, pos: int, cam: CameraWrapper)
    requires
        0 <= pos <= a.len(),
        camera_loop(a, pos, cam) is Ok,
    ensures
        camera_loop(a + b, pos, cam) == camera_loop(b, 0, camera_loop(a, pos, cam)->Ok_0),
    decreases a.len() - pos,
{
    if pos == a.len() {
        lemma_camera_loop_shift(a, b, 0, cam);
    } else {
        assert((a + b)[pos] == a[pos]);
        lemma_values_prefix(a, b, pos + 1);
        let (q, r) = camera_step(a, pos, cam);
        lemma_camera_loop_prefix(a, b, q, r->Ok_0);
    }
}

/// Camera words are read one after another: when the words `a` give a
/// camera, the words `a + b` give what `b` makes of that camera.
pub proof fn lemma_camera_concat(a: Seq<Arg>, b: Seq<Arg>)
    requires
        CameraWrapper::spec_from_args(a) is Ok,
    ensures
        CameraWrapper::spec_from_args(a + b) == camera_loop(
            b,
            0,
            CameraWrapper::spec_from_args(a)->Ok_0,
        ),
{
    lemma_camera_loop_prefix(a, b, 0, camera_default());
}

/// The last value given for a camera parameter is the one kept: appending
/// `fov: v` to words that give a camera gives that camera with field of
/// view `v`.
pub proof fn lemma_camera_last_fov_wins(a: Seq<Arg>, key: Arg, value: Arg)
    requires
        CameraWrapper::spec_from_args(a) is Ok,
        key.text@ == "fov:"@,
        value.num is Some,
    ensures
        CameraWrapper::spec_from_args(a + seq![key, value]) == Ok::<CameraWrapper, Seq<char>>(
            CameraWrapper { fov: value.num->Some_0, ..CameraWrapper::spec_from_args(a)->Ok_0 },
        ),
{
    let b = seq![key, value];
    lemma_camera_concat(a, b);
    let c = CameraWrapper::spec_from_args(a)->Ok_0;
    reveal_strlit("pos:");
    reveal_strlit("dir:");
    reveal_strlit("fov:");
    assert("fov:"@[0] != "pos:"@[0]);
    assert("fov:"@[0] != "dir:"@[0]);
    assert(b[0] == key);
    assert(b[1] == value);
    assert(camera_step(b, 0, c) == (2int, Ok::<CameraWrapper, Seq<char>>(CameraWrapper { fov: value.num->Some_0, ..c })));
    assert(camera_loop(b, 2, CameraWrapper { fov: value.num->Some_0, ..c }) == Ok::<CameraWrapper, Seq<char>>(CameraWrapper { fov: value.num->Some_0, ..c }));
}

// ---------------------------------------------------------------- light

/// The light kind that a type word names, with its default placement.
pub open spec fn light_kind_of(t: Seq<char>) -> Option<LightKindWrapper> {
    if t == "pt:"@ || t == "point:"@ {
        Some(LightKindWrapper::Point { pos: zero3() })
    } else if t == "dir:"@ {
        Some(LightKindWrapper::Dir { dir: Vec3f { x: ZERO, y: ONE, z: ZERO } })
    } else {
        None
    }
}

/// The parameter of the light's own kind, if `p` names it: the position
/// after its values, the updated light or an error, and whether it was one.
pub open spec fn light_type_param(args: Seq<Arg>, p: Seq<char>, q: int, l: LightView) -> (
    int,
    Result<LightView, Seq<char>>,
    bool,
) {
    match l.kind {
        LightKindWrapper::Point { .. } => if p == "pt:"@ || p == "point:"@ {
            let (q2, r) = spec_vec3(args, q);
            (q2, match r {
                Ok(v) => Ok(LightView { kind: LightKindWrapper::Point { pos: v }, ..l }),
                Err(e) => Err(e),
            }, true)
        } else {
            (q, Ok(l), false)
        },
        LightKindWrapper::Dir { .. } => if p == "dir:"@ {
            let (q2, r) = spec_vec3(args, q);
            (q2, match r {
                Ok(v) => Ok(LightView { kind: LightKindWrapper::Dir { dir: v }, ..l }),
                Err(e) => Err(e),
            }, true)
        } else {
            (q, Ok(l), false)
        },
    }
}

/// One light parameter at `args[pos]` and its values.
pub open spec fn light_step(args: Seq<Arg>, pos: int, l: LightView) -> (int, Result<
    LightView,
    Seq<char>,
>) {
    let p = args[pos].text@;
    let (q1, r1, is_type) = light_type_param(args, p, pos + 1, l);
    match r1 {
        Err(e) => (q1, Err(e)),
        Ok(l1) => if p == "col:"@ {
            let (q2, r) = spec_color(args, q1);
            (q2, match r { Ok(c) => Ok(LightView { color: c, ..l1 }), Err(e) => Err(e) })
        } else if p == "pwr:"@ {
            let (q2, r) = spec_scalar(args, q1);
            (q2, match r { Ok(v) => Ok(LightView { pwr: v, ..l1 }), Err(e) => Err(e) })
        } else if !is_type {
            (q1, Err(msg_param(p, "light"@)))
        } else {
            (q1, Ok(l1))
        },
    }
}

/// The light that the words `args[pos..]` give, starting from `l`.
pub open spec fn light_loop(args: Seq<Arg>, pos: int, l: LightView) -> Result<LightView, Seq<char>>
    decreases args.len() - pos,
{
    if pos < 0 || pos >= args.len() {
        Ok(l)
    } else {
        let (q, r) = light_step(args, pos, l);
        match r {
            Err(e) => Err(e),
            Ok(l1) => light_loop(args, q, l1),
        }
    }
}

fn light_param(args: &Vec<Arg>, pos: &mut usize, l: &mut LightWrapper) -> (r: Result<(), String>)
    requires
        *old(pos) < args@.len(),
    ensures
        light_step(args@, *old(pos) as int, old(l)@) == (*final(pos) as int, match r {
            Ok(_) => Ok(final(l)@),
            Err(e) => Err(e@),
        }),
        *old(pos) < *final(pos) <= args@.len(),
{
    let _len = args.len();  // the word count is a usize, so the next position is one too
    let p = &args[*pos].text;
    *pos = *pos + 1;
    let is_type = match l.kind {
        LightKindWrapper::Point { .. } => {
            if str_eq(p.as_str(), "pt:") || str_eq(p.as_str(), "point:") {
                let v = <Vec3f as ParseFromStrIter>::parse(args, pos)?;
                l.kind = LightKindWrapper::Point { pos: v };
                true
            } else {
                false
            }
        },
        LightKindWrapper::Dir { .. } => {
            if str_eq(p.as_str(), "dir:") {
                let v = <Vec3f as ParseFromStrIter>::parse(args, pos)?;
                l.kind = LightKindWrapper::Dir { dir: v };
                true
            } else {
                false
            }
        },
    };
    if str_eq(p.as_str(), "col:") {
        l.color = <ColorWrapper as ParseFromStrIter>::parse(args, pos)?;
    } else if str_eq(p.as_str(), "pwr:") {
        l.pwr = <u32 as ParseFromStrIter>::parse(args, pos)?;
    } else if !is_type {
        return Err(concat5("`", p.as_str(), "` param for `", "light", "` is unxpected!"));
    }
    Ok(())
}

impl FromArgs for LightWrapper {
    open spec fn accepts(args: Seq<Arg>) -> bool {
        args.len() > 0
    }

    proof fn lemma_nonempty_accepted(args: Seq<Arg>) {
    }

    open spec fn spec_from_args(args: Seq<Arg>) -> Result<LightView, Seq<char>> {
        match light_kind_of(args[0].text@) {
            None => Err(msg_type(args[0].text@)),
            Some(k) => light_loop(args, 0, LightView { kind: k, ..light_default() }),
        }
    }

    /// The first word names the kind (`pt:`/`point:` or `dir:`); the words
    /// are then read from the first one on, so that the kind word also sets
    /// the position or direction.  `col:` and `pwr:` set colour and power.
    /// The direction is kept as written; its normalisation is floating-point
    /// work left to the caller.
    fn from_args(args: &Vec<Arg>) -> (r: Result<LightWrapper, String>) {
        let t = &args[0].text;
        let kind = if str_eq(t.as_str(), "pt:") || str_eq(t.as_str(), "point:") {
            LightKindWrapper::Point { pos: Vec3f::zero() }
        } else if str_eq(t.as_str(), "dir:") {
            LightKindWrapper::Dir { dir: Vec3f::new(ZERO, ONE, ZERO) }
        } else {
            return Err(concat3("`", t.as_str(), "` type is unxpected!"));
        };
        let mut l = LightWrapper { kind, ..Default::default() };
        let mut pos: usize = 0;
        while pos < args.len()
            invariant
                pos <= args@.len(),
                args@.len() > 0,
                light_kind_of(args@[0].text@) == Some(kind),
                light_loop(args@, pos as int, l@) == light_loop(
                    args@,
                    0,
                    LightView { kind: kind, ..light_default() },
                ),
            decreases args@.len() - pos,
        {
            light_param(args, &mut pos, &mut l)?;
        }
        Ok(l)
    }
}

proof fn lemma_light_loop_shift(a: Seq<Arg>, b: Seq<Arg>, k: int, l: LightView)
    requires
        0 <= k,
    ensures
        light_loop(a + b, a.len() + k, l) == light_loop(b, k, l),
    decreases b.len() - k,
{
    if k < b.len() {
        assert((a + b)[a.len() + k] == b[k]);
        lemma_values_shift(a, b, k + 1);
        let (q, r) = light_step(b, k, l);
        let (q1, r1, t) = light_type_param(b, b[k].text@, k + 1, l);
        if r1 is Ok {
            lemma_values_shift(a, b, q1);
        }
        if r is Ok {
            lemma_light_loop_shift(a, b, q, r->Ok_0);
        }
    }
}

proof fn lemma_light_loop_prefix(a: Seq<Arg>, b: Seq<Arg>, pos: int, l: LightView)
    requires
        0 <= pos <= a.len(),
        light_loop(a, pos, l) is Ok,
    ensures
        light_loop(a + b, pos, l) == light_loop(b, 0, light_loop(a, pos, l)->Ok_0),
    decreases a.len() - pos,
{
    if pos == a.len() {
        lemma_light_loop_shift(a, b, 0, l);
    } else {
        assert((a + b)[pos] == a[pos]);
        lemma_values_prefix(a, b, pos + 1);
        let (q1, r1, t) = light_type_param(a, a[pos].text@, pos + 1, l);
        if r1 is Ok {
            lemma_values_prefix(a, b, q1);
        }
        let (q, r) = light_step(a, pos, l);
        lemma_light_loop_prefix(a, b, q, r->Ok_0);
    }
}

/// Light words are read one after another: when the words `a` give a
/// light, the words `a + b` give what `b` makes of that light.
pub proof fn lemma_light_concat(a: Seq<Arg>, b: Seq<Arg>)
    requires
        a.len() > 0,
        LightWrapper::spec_from_args(a) is Ok,
    ensures
        LightWrapper::spec_from_args(a + b) == light_loop(
            b,
            0,
            LightWrapper::spec_from_args(a)->Ok_0,
        ),
{
    assert((a + b)[0] == a[0]);
    let k = light_kind_of(a[0].text@)->Some_0;
    lemma_light_loop_prefix(a, b, 0, LightView { kind: k, ..light_default() });
}

// ---------------------------------------------------------------- objects

/// The triangle that a new triangle or mesh object starts with.
pub open spec fn default_tri() -> (Vec3f, Vec3f, Vec3f) {
    (
        Vec3f { x: HALF, y: ZERO, z: MINUS_QUARTER },
        Vec3f { x: ZERO, y: ZERO, z: HALF },
        Vec3f { x: MINUS_HALF, y: ZERO, z: MINUS_QUARTER },
    )
}

/// The object shape that a type word names, with its default size.
pub open spec fn renderer_kind_of(t: Seq<char>) -> Option<RendererKindView> {
    if t == "sph"@ || t == "sphere"@ {
        Some(RendererKindView::Sphere { r: HALF })
    } else if t == "pln"@ || t == "plane"@ {
        Some(RendererKindView::Plane { n: Vec3f { x: ZERO, y: ZERO, z: ONE } })
    } else if t == "box"@ {
        Some(RendererKindView::Box { sizes: Vec3f { x: HALF, y: HALF, z: HALF } })
    } else if t == "tri"@ || t == "triangle"@ {
        Some(RendererKindView::Triangle { vtx: default_tri() })
    } else if t == "mesh"@ {
        Some(RendererKindView::Mesh { mesh: MeshView::Mesh(seq![default_tri()]) })
    } else {
        None
    }
}

/// A new object of shape `k`: at the origin, facing backward, with the
/// default material, no instances and no name.
pub open spec fn renderer_init(k: RendererKindView) -> RendererView {
    RendererView {
        kind: k,
        mat: material_default(),
        pos: Some(zero3()),
        dir: Some(Vec4f { w: ZERO, x: ZERO, y: MINUS_ONE, z: ZERO }),
        inst: None,
        name: None,
    }
}

/// A texture word: a file name when it holds a `.`, packed data otherwise.
pub open spec fn tex_of(s: Seq<char>) -> TextureView {
    if s.contains('.') {
        TextureView::File(s)
    } else {
        TextureView::InlineBase64(s)
    }
}

/// Three vectors; the first failure ends the reading.
pub open spec fn spec_tri(args: Seq<Arg>, pos: int) -> (int, Result<(Vec3f, Vec3f, Vec3f), Seq<char>>) {
    let (p0, r0) = spec_vec3(args, pos);
    match r0 {
        Err(e) => (p0, Err(e)),
        Ok(a) => {
            let (p1, r1) = spec_vec3(args, p0);
            match r1 {
                Err(e) => (p1, Err(e)),
                Ok(b) => {
                    let (p2, r2) = spec_vec3(args, p1);
                    match r2 {
                        Err(e) => (p2, Err(e)),
                        Ok(c) => (p2, Ok((a, b, c))),
                    }
                },
            }
        },
    }
}

/// Further mesh triangles: three vectors are read, all three of them even
/// when one fails; the first triangle with a failing vector ends the list,
/// and the words its reading took are spent.
pub open spec fn mesh_tail(args: Seq<Arg>, pos: int, acc: Seq<(Vec3f, Vec3f, Vec3f)>) -> (
    int,
    Seq<(Vec3f, Vec3f, Vec3f)>,
)
    decreases args.len() - pos,
{
    let (p0, r0) = spec_vec3(args, pos);
    let (p1, r1) = spec_vec3(args, p0);
    let (p2, r2) = spec_vec3(args, p1);
    if pos >= 0 && r0 is Ok && r1 is Ok && r2 is Ok {
        mesh_tail(args, p2, acc.push((r0->Ok_0, r1->Ok_0, r2->Ok_0)))
    } else {
        (p2, acc)
    }
}

/// The parameter of the object's own shape, if `p` names it: the position
/// after its values, the updated object or an error, and whether it was one.
pub open spec fn renderer_type_param(args: Seq<Arg>, p: Seq<char>, q: int, o: RendererView) -> (
    int,
    Result<RendererView, Seq<char>>,
    bool,
) {
    match o.kind {
        RendererKindView::Sphere { .. } => if p == "r:"@ {
            let (q2, r) = spec_scalar(args, q);
            (q2, match r {
                Ok(v) => Ok(RendererView { kind: RendererKindView::Sphere { r: v }, ..o }),
                Err(e) => Err(e),
            }, true)
        } else {
            (q, Ok(o), false)
        },
        RendererKindView::Plane { .. } => if p == "n:"@ {
            let (q2, r) = spec_vec3(args, q);
            (q2, match r {
                Ok(v) => Ok(RendererView { kind: RendererKindView::Plane { n: v }, ..o }),
                Err(e) => Err(e),
            }, true)
        } else {
            (q, Ok(o), false)
        },
        RendererKindView::Box { .. } => if p == "size:"@ {
            let (q2, r) = spec_vec3(args, q);
            (q2, match r {
                Ok(v) => Ok(RendererView { kind: RendererKindView::Box { sizes: v }, ..o }),
                Err(e) => Err(e),
            }, true)
        } else {
            (q, Ok(o), false)
        },
        RendererKindView::Triangle { .. } => if p == "vtx:"@ {
            let (q2, r) = spec_tri(args, q);
            (q2, match r {
                Ok(v) => Ok(RendererView { kind: RendererKindView::Triangle { vtx: v }, ..o }),
                Err(e) => Err(e),
            }, true)
        } else {
            (q, Ok(o), false)
        },
        RendererKindView::Mesh { .. } => if p == "mesh:"@ {
            let (q2, r) = spec_tri(args, q);
            match r {
                Err(e) => (q2, Err(e), true),
                Ok(first) => {
                    let (q3, tris) = mesh_tail(args, q2, seq![first]);
                    (q3, Ok(RendererView {
                        kind: RendererKindView::Mesh { mesh: MeshView::Mesh(tris) },
                        ..o
                    }), true)
                },
            }
        } else {
            (q, Ok(o), false)
        },
    }
}

/// A material scalar parameter: the updated material, if `p` names one.
pub open spec fn mat_scalar(m: MaterialView, p: Seq<char>, v: u32) -> MaterialView {
    if p == "rough:"@ {
        MaterialView { rough: v, ..m }
    } else if p == "metal:"@ {
        MaterialView { metal: v, ..m }
    } else if p == "glass:"@ {
        MaterialView { glass: v, ..m }
    } else if p == "opacity:"@ {
        MaterialView { opacity: v, ..m }
    } else {
        MaterialView { emit: v, ..m }
    }
}

pub open spec fn is_mat_scalar(p: Seq<char>) -> bool {
    p == "rough:"@ || p == "metal:"@ || p == "glass:"@ || p == "opacity:"@ || p == "emit:"@
}

/// A material map parameter: the updated material, if `p` names one.
pub open spec fn mat_map(m: MaterialView, p: Seq<char>, t: TextureView) -> MaterialView {
    if p == "tex:"@ {
        MaterialView { tex: Some(t), ..m }
    } else if p == "rmap:"@ {
        MaterialView { rmap: Some(t), ..m }
    } else if p == "mmap:"@ {
        MaterialView { mmap: Some(t), ..m }
    } else if p == "gmap:"@ {
        MaterialView { gmap: Some(t), ..m }
    } else if p == "omap:"@ {
        MaterialView { omap: Some(t), ..m }
    } else {
        MaterialView { emap: Some(t), ..m }
    }
}

pub open spec fn is_mat_map(p: Seq<char>) -> bool {
    p == "tex:"@ || p == "rmap:"@ || p == "mmap:"@ || p == "gmap:"@ || p == "omap:"@ || p == "emap:"@
}

/// The parameters that every object has, read after the shape parameter.
pub open spec fn renderer_common(
    args: Seq<Arg>,
    t: Seq<char>,
    p: Seq<char>,
    q: int,
    o: RendererView,
    is_type: bool,
) -> (int, Result<RendererView, Seq<char>>) {
    if p == "name:"@ {
        if q < args.len() {
            (q + 1, Ok(RendererView { name: Some(args[q].text@), ..o }))
        } else {
            (q, Ok(RendererView { name: None, ..o }))
        }
    } else if p == "pos:"@ {
        let (q2, r) = spec_vec3(args, q);
        (q2, match r { Ok(v) => Ok(RendererView { pos: Some(v), ..o }), Err(e) => Err(e) })
    } else if p == "dir:"@ {
        let (q2, r) = spec_vec4(args, q);
        (q2, match r { Ok(v) => Ok(RendererView { dir: Some(v), ..o }), Err(e) => Err(e) })
    } else if p == "albedo:"@ {
        let (q2, r) = spec_color(args, q);
        (q2, match r {
            Ok(c) => Ok(RendererView { mat: MaterialView { albedo: c, ..o.mat }, ..o }),
            Err(e) => Err(e),
        })
    } else if is_mat_scalar(p) {
        let (q2, r) = spec_scalar(args, q);
        (q2, match r {
            Ok(v) => Ok(RendererView { mat: mat_scalar(o.mat, p, v), ..o }),
            Err(e) => Err(e),
        })
    } else if is_mat_map(p) {
        if q < args.len() {
            (q + 1, Ok(RendererView { mat: mat_map(o.mat, p, tex_of(args[q].text@)), ..o }))
        } else {
            (q, Err("unexpected ended!"@))
        }
    } else if !is_type {
        (q, Err(msg_param(p, t)))
    } else {
        (q, Ok(o))
    }
}

/// One object parameter at `args[pos]` and its values.
pub open spec fn renderer_step(args: Seq<Arg>, t: Seq<char>, pos: int, o: RendererView) -> (
    int,
    Result<RendererView, Seq<char>>,
) {
    let p = args[pos].text@;
    let (q1, r1, is_type) = renderer_type_param(args, p, pos + 1, o);
    match r1 {
        Err(e) => (q1, Err(e)),
        Ok(o1) => renderer_common(args, t, p, q1, o1, is_type),
    }
}

/// Reading further mesh triangles never moves backward.
pub proof fn lemma_mesh_tail_advances(args: Seq<Arg>, pos: int, acc: Seq<(Vec3f, Vec3f, Vec3f)>)
    requires
        0 <= pos <= args.len(),
    ensures
        pos <= mesh_tail(args, pos, acc).0 <= args.len(),
    decreases args.len() - pos,
{
    let (p0, r0) = spec_vec3(args, pos);
    let (p1, r1) = spec_vec3(args, p0);
    let (p2, r2) = spec_vec3(args, p1);
    if r0 is Ok && r1 is Ok && r2 is Ok {
        lemma_mesh_tail_advances(args, p2, acc.push((r0->Ok_0, r1->Ok_0, r2->Ok_0)));
    }
}

/// One object parameter always takes at least its own word.
pub proof fn lemma_renderer_step_advances(args: Seq<Arg>, t: Seq<char>, pos: int, o: RendererView)
    requires
        0 <= pos < args.len(),
    ensures
        pos < renderer_step(args, t, pos, o).0 <= args.len(),
{
    let p = args[pos].text@;
    if o.kind is Mesh && p == "mesh:"@ {
        let (q2, r) = spec_tri(args, pos + 1);
        if r is Ok {
            lemma_mesh_tail_advances(args, q2, seq![r->Ok_0]);
        }
    }
}

/// The object that the words `args[pos..]` give, starting from `o`.
pub open spec fn renderer_loop(args: Seq<Arg>, t: Seq<char>, pos: int, o: RendererView) -> Result<
    RendererView,
    Seq<char>,
>
    decreases args.len() - pos,
{
    if pos < 0 || pos >= args.len() {
        Ok(o)
    } else {
        proof {
            lemma_renderer_step_advances(args, t, pos, o);
        }
        let (q, r) = renderer_step(args, t, pos, o);
        match r {
            Err(e) => Err(e),
            Ok(o1) => renderer_loop(args, t, q, o1),
        }
    }
}

/// Reading `albedo:` sets the object's albedo to the colour written after
/// it and leaves every other field as it was; the words after the colour
/// are then read on from there.  A colour that cannot be read is the
/// object's error.
pub proof fn lemma_albedo_sets_colour(args: Seq<Arg>, t: Seq<char>, pos: int, o: RendererView)
    requires
        0 <= pos < args.len(),
        args[pos].text@ == "albedo:"@,
    ensures
        spec_color(args, pos + 1).1 matches Ok(c) ==> renderer_loop(args, t, pos, o)
            == renderer_loop(
            args,
            t,
            spec_color(args, pos + 1).0,
            RendererView { mat: MaterialView { albedo: c, ..o.mat }, ..o },
        ),
        spec_color(args, pos + 1).1 matches Err(e) ==> renderer_loop(args, t, pos, o) == Err::<
            RendererView,
            Seq<char>,
        >(e),
{
    reveal_strlit("albedo:");
    reveal_strlit("r:");
    reveal_strlit("n:");
    reveal_strlit("size:");
    reveal_strlit("vtx:");
    reveal_strlit("mesh:");
    reveal_strlit("name:");
    reveal_strlit("pos:");
    reveal_strlit("dir:");
    let p = args[pos].text@;
    assert(p != "r:"@ && p != "n:"@ && p != "size:"@ && p != "vtx:"@ && p != "mesh:"@);
    assert(p != "name:"@ && p != "pos:"@ && p != "dir:"@);
    assert(renderer_type_param(args, p, pos + 1, o) == (pos + 1, Ok::<RendererView, Seq<char>>(o), false));
    lemma_renderer_step_advances(args, t, pos, o);
}

/// An object given only its albedo as a `#` word: the words `t albedo: #..`
/// give the new object of shape `t` whose albedo is that hex word, all else
/// at its defaults.
pub proof fn lemma_object_with_hex_albedo(args: Seq<Arg>)
    requires
        args.len() == 3,
        renderer_kind_of(args[0].text@) is Some,
        args[1].text@ == "albedo:"@,
        args[2].text@.len() > 0,
        args[2].text@[0] == '#',
    ensures
        RendererWrapper::spec_from_args(args) == Ok::<RendererView, Seq<char>>(
            RendererView {
                mat: MaterialView { albedo: ColorView::Hex(args[2].text@), ..material_default() },
                ..renderer_init(renderer_kind_of(args[0].text@)->Some_0)
            },
        ),
{
    let init = renderer_init(renderer_kind_of(args[0].text@)->Some_0);
    lemma_albedo_sets_colour(args, args[0].text@, 1, init);
    assert(spec_color(args, 2) == (3int, Ok::<ColorView, Seq<char>>(ColorView::Hex(args[2].text@))));
}

fn default_triangle() -> (r: (Vec3f, Vec3f, Vec3f))
    ensures
        r == default_tri(),
{
    (
        Vec3f::new(HALF, ZERO, MINUS_QUARTER),
        Vec3f::new(ZERO, ZERO, HALF),
        Vec3f::new(MINUS_HALF, ZERO, MINUS_QUARTER),
    )
}

/// The texture that a map word names.
fn texture_word(s: &String) -> (r: TextureWrapper)
    ensures
        r@ == tex_of(s@),
{
    if contains_char(s.as_str(), '.') {
        TextureWrapper::File(s.clone())
    } else {
        TextureWrapper::InlineBase64(s.clone())
    }
}

fn read_tri(args: &Vec<Arg>, pos: &mut usize) -> (r: Result<(Vec3f, Vec3f, Vec3f), String>)
    requires
        *old(pos) <= args@.len(),
    ensures
        spec_tri(args@, *old(pos) as int) == (*final(pos) as int, match r {
            Ok(v) => Ok(v),
            Err(e) => Err(e@),
        }),
        *old(pos) <= *final(pos) <= args@.len(),
{
    let a = <Vec3f as ParseFromStrIter>::parse(args, pos)?;
    let b = <Vec3f as ParseFromStrIter>::parse(args, pos)?;
    let c = <Vec3f as ParseFromStrIter>::parse(args, pos)?;
    Ok((a, b, c))
}

fn mesh_rest(args: &Vec<Arg>, pos: &mut usize, first: (Vec3f, Vec3f, Vec3f)) -> (tris: Vec<
    (Vec3f, Vec3f, Vec3f),
>)
    requires
        *old(pos) <= args@.len(),
    ensures
        mesh_tail(args@, *old(pos) as int, seq![first]) == (*final(pos) as int, tris@),
        *old(pos) <= *final(pos) <= args@.len(),
{
    let ghost start = *pos as int;
    let mut tris: Vec<(Vec3f, Vec3f, Vec3f)> = Vec::new();
    tris.push(first);
    assert(tris@ =~= seq![first]);
    loop
        invariant_except_break
            *pos <= args@.len(),
            mesh_tail(args@, *pos as int, tris@) == mesh_tail(args@, start, seq![first]),
        ensures
            *pos <= args@.len(),
            mesh_tail(args@, start, seq![first]) == (*pos as int, tris@),
        decreases args@.len() - *pos,
    {
        let v0 = <Vec3f as ParseFromStrIter>::parse(args, pos);
        let v1 = <Vec3f as ParseFromStrIter>::parse(args, pos);
        let v2 = <Vec3f as ParseFromStrIter>::parse(args, pos);
        match (v0, v1, v2) {
            (Ok(a), Ok(b), Ok(c)) => {
                tris.push((a, b, c));
            },
            _ => {
                break;
            },
        }
    }
    proof {
        lemma_mesh_tail_advances(args@, start, seq![first]);
    }
    tris
}

fn renderer_shape_param(args: &Vec<Arg>, p: &String, pos: &mut usize, o: &mut RendererWrapper) -> (r:
    Result<bool, String>)
    requires
        *old(pos) <= args@.len(),
    ensures
        renderer_type_param(args@, p@, *old(pos) as int, old(o)@) == (*final(pos) as int, match r {
            Ok(_) => Ok(final(o)@),
            Err(e) => Err(e@),
        }, match r {
            Ok(b) => b,
            Err(_) => true,
        }),
        *old(pos) <= *final(pos) <= args@.len(),
{
    match o.kind {
        RendererKindWrapper::Sphere { .. } => {
            if str_eq(p.as_str(), "r:") {
                let v = <u32 as ParseFromStrIter>::parse(args, pos)?;
                o.kind = RendererKindWrapper::Sphere { r: v };
                Ok(true)
            } else {
                Ok(false)
            }
        },
        RendererKindWrapper::Plane { .. } => {
            if str_eq(p.as_str(), "n:") {
                let v = <Vec3f as ParseFromStrIter>::parse(args, pos)?;
                o.kind = RendererKindWrapper::Plane { n: v };
                Ok(true)
            } else {
                Ok(false)
            }
        },
        RendererKindWrapper::Box { .. } => {
            if str_eq(p.as_str(), "size:") {
                let v = <Vec3f as ParseFromStrIter>::parse(args, pos)?;
                o.kind = RendererKindWrapper::Box { sizes: v };
                Ok(true)
            } else {
                Ok(false)
            }
        },
        RendererKindWrapper::Triangle { .. } => {
            if str_eq(p.as_str(), "vtx:") {
                let v = read_tri(args, pos)?;
                o.kind = RendererKindWrapper::Triangle { vtx: v };
                Ok(true)
            } else {
                Ok(false)
            }
        },
        RendererKindWrapper::Mesh { .. } => {
            if str_eq(p.as_str(), "mesh:") {
                let first = read_tri(args, pos)?;
                let tris = mesh_rest(args, pos, first);
                o.kind = RendererKindWrapper::Mesh { mesh: MeshWrapper::Mesh(tris) };
                Ok(true)
            } else {
                Ok(false)
            }
        },
    }
}

fn renderer_common_param(
    args: &Vec<Arg>,
    t: &String,
    p: &String,
    pos: &mut usize,
    o: &mut RendererWrapper,
    is_type: bool,
) -> (r: Result<(), String>)
    requires
        *old(pos) <= args@.len(),
    ensures
        renderer_common(args@, t@, p@, *old(pos) as int, old(o)@, is_type) == (
            *final(pos) as int,
            match r {
                Ok(_) => Ok(final(o)@),
                Err(e) => Err(e@),
            },
        ),
        *old(pos) <= *final(pos) <= args@.len(),
{
    let n = args.len();
    let ps = p.as_str();
    if str_eq(ps, "name:") {
        if *pos < n {
            o.name = Some(args[*pos].text.clone());
            *pos = *pos + 1;
        } else {
            o.name = None;
        }
    } else if str_eq(ps, "pos:") {
        o.pos = Some(<Vec3f as ParseFromStrIter>::parse(args, pos)?);
    } else if str_eq(ps, "dir:") {
        o.dir = Some(<Vec4f as ParseFromStrIter>::parse(args, pos)?);
    } else if str_eq(ps, "albedo:") {
        o.mat.albedo = <ColorWrapper as ParseFromStrIter>::parse(args, pos)?;
    } else if str_eq(ps, "rough:") {
        o.mat.rough = <u32 as ParseFromStrIter>::parse(args, pos)?;
    } else if str_eq(ps, "metal:") {
        o.mat.metal = <u32 as ParseFromStrIter>::parse(args, pos)?;
    } else if str_eq(ps, "glass:") {
        o.mat.glass = <u32 as ParseFromStrIter>::parse(args, pos)?;
    } else if str_eq(ps, "opacity:") {
        o.mat.opacity = <u32 as ParseFromStrIter>::parse(args, pos)?;
    } else if str_eq(ps, "emit:") {
        o.mat.emit = <u32 as ParseFromStrIter>::parse(args, pos)?;
    } else if str_eq(ps, "tex:") || str_eq(ps, "rmap:") || str_eq(ps, "mmap:") || str_eq(ps, "gmap:")
        || str_eq(ps, "omap:") || str_eq(ps, "emap:") {
        if *pos >= n {
            return Err(String::from_str("unexpected ended!"));
        }
        let tex = texture_word(&args[*pos].text);
        *pos = *pos + 1;
        if str_eq(ps, "tex:") {
            o.mat.tex = Some(tex);
        } else if str_eq(ps, "rmap:") {
            o.mat.rmap = Some(tex);
        } else if str_eq(ps, "mmap:") {
            o.mat.mmap = Some(tex);
        } else if str_eq(ps, "gmap:") {
            o.mat.gmap = Some(tex);
        } else if str_eq(ps, "omap:") {
            o.mat.omap = Some(tex);
        } else {
            o.mat.emap = Some(tex);
        }
    } else if !is_type {
        return Err(concat5("`", ps, "` param for `", t.as_str(), "` is unxpected!"));
    }
    Ok(())
}

fn renderer_param(args: &Vec<Arg>, t: &String, pos: &mut usize, o: &mut RendererWrapper) -> (r: Result<
    (),
    String,
>)
    requires
        *old(pos) < args@.len(),
    ensures
        renderer_step(args@, t@, *old(pos) as int, old(o)@) == (*final(pos) as int, match r {
            Ok(_) => Ok(final(o)@),
            Err(e) => Err(e@),
        }),
        *old(pos) < *final(pos) <= args@.len(),
{
    let _len = args.len();  // the word count is a usize, so the next position is one too
    let p = &args[*pos].text;
    *pos = *pos + 1;
    let is_type = renderer_shape_param(args, p, pos, o)?;
    renderer_common_param(args, t, p, pos, o, is_type)
}

impl FromArgs for RendererWrapper {
    open spec fn accepts(args: Seq<Arg>) -> bool {
        args.len() > 0
    }

    proof fn lemma_nonempty_accepted(args: Seq<Arg>) {
    }

    open spec fn spec_from_args(args: Seq<Arg>) -> Result<RendererView, Seq<char>> {
        match renderer_kind_of(args[0].text@) {
            None => Err(msg_type(args[0].text@)),
            Some(k) => renderer_loop(args, args[0].text@, 1, renderer_init(k)),
        }
    }

    /// The first word names the shape (`sph`/`sphere`, `pln`/`plane`,
    /// `box`, `tri`/`triangle`, `mesh`); the words after it set the shape
    /// parameter (`r:`, `n:`, `size:`, `vtx:`, `mesh:`), the name, placement
    /// and the material.
    fn from_args(args: &Vec<Arg>) -> (r: Result<RendererWrapper, String>) {
        let t = &args[0].text;
        let ts = t.as_str();
        let kind = if str_eq(ts, "sph") || str_eq(ts, "sphere") {
            RendererKindWrapper::Sphere { r: HALF }
        } else if str_eq(ts, "pln") || str_eq(ts, "plane") {
            RendererKindWrapper::Plane { n: Vec3f::new(ZERO, ZERO, ONE) }
        } else if str_eq(ts, "box") {
            RendererKindWrapper::Box { sizes: Vec3f::new(HALF, HALF, HALF) }
        } else if str_eq(ts, "tri") || str_eq(ts, "triangle") {
            RendererKindWrapper::Triangle { vtx: default_triangle() }
        } else if str_eq(ts, "mesh") {
            let mut tris: Vec<(Vec3f, Vec3f, Vec3f)> = Vec::new();
            tris.push(default_triangle());
            assert(tris@ =~= seq![default_tri()]);
            RendererKindWrapper::Mesh { mesh: MeshWrapper::Mesh(tris) }
        } else {
            return Err(concat3("`", ts, "` type is unxpected!"));
        };
        let mut o = RendererWrapper {
            kind,
            pos: Some(Vec3f::zero()),
            dir: Some(Vec4f::backward()),
            inst: None,
            mat: MaterialWrapper::default(),
            name: None,
        };
        let ghost init = o@;
        assert(init == renderer_init(renderer_kind_of(t@)->Some_0));
        let mut pos: usize = 1;
        while pos < args.len()
            invariant
                1 <= pos <= args@.len(),
                t@ == args@[0].text@,
                renderer_kind_of(t@) == Some(init.kind),
                init == renderer_init(init.kind),
                renderer_loop(args@, t@, pos as int, o@) == renderer_loop(args@, t@, 1, init),
            decreases args@.len() - pos,
        {
            renderer_param(args, t, &mut pos, &mut o)?;
        }
        Ok(o)
    }
}

} // verus!
