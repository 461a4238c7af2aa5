use raytracer::args::{Arg, ParseFromStrIter};
use raytracer::from_args::FromArgs;
use raytracer::parse_args::ParseFromArgs;
use raytracer::scene::{
    CameraWrapper, ColorWrapper, LightKindWrapper, LightWrapper, MeshWrapper, RendererKindWrapper,
    RendererWrapper, SceneWrapper, TextureWrapper,
};
use raytracer::vector::{Vec3f, Vec4f};

fn word(s: &str) -> Arg {
    Arg { text: s.to_string(), num: s.parse::<f32>().ok().map(f32::to_bits) }
}

fn words(s: &str) -> Vec<Arg> {
    s.split_whitespace().map(word).collect()
}

fn b(x: f32) -> u32 {
    x.to_bits()
}

fn v3(x: f32, y: f32, z: f32) -> Vec3f {
    Vec3f { x: b(x), y: b(y), z: b(z) }
}

#[test]
fn scalar_reads_one_number() {
    let a = words("2.5 x");
    let mut pos = 0;
    assert_eq!(<u32 as ParseFromStrIter>::parse(&a, &mut pos), Ok(b(2.5)));
    assert_eq!(pos, 1);
    assert_eq!(<u32 as ParseFromStrIter>::parse(&a, &mut pos), Err("should be <f32>!".to_string()));
    assert_eq!(pos, 2);
    assert_eq!(<u32 as ParseFromStrIter>::parse(&a, &mut pos), Err("unexpected ends!".to_string()));
    assert_eq!(pos, 2);
}

#[test]
fn vectors_read_in_order() {
    let a = words("1 2 3 4");
    let mut pos = 0;
    assert_eq!(<Vec4f as ParseFromStrIter>::parse(&a, &mut pos), Ok(Vec4f { w: b(1.0), x: b(2.0), y: b(3.0), z: b(4.0) }));
    let mut pos = 1;
    assert_eq!(<Vec3f as ParseFromStrIter>::parse(&a, &mut pos), Ok(v3(2.0, 3.0, 4.0)));
    assert_eq!(pos, 4);
    let mut pos = 2;
    assert!(<Vec3f as ParseFromStrIter>::parse(&a, &mut pos).is_err());
    assert_eq!(pos, 4);
}

#[test]
fn color_takes_hex_word_or_three_numbers() {
    let a = words("#ff0080 1 0.5 0");
    let mut pos = 0;
    match <ColorWrapper as ParseFromStrIter>::parse(&a, &mut pos) {
        Ok(ColorWrapper::Hex(s)) => assert_eq!(s, "#ff0080"),
        other => panic!("{:?}", other),
    }
    assert_eq!(pos, 1);
    match <ColorWrapper as ParseFromStrIter>::parse(&a, &mut pos) {
        Ok(ColorWrapper::Vec3(v)) => assert_eq!(v, v3(1.0, 0.5, 0.0)),
        other => panic!("{:?}", other),
    }
    assert_eq!(pos, 4);
}

#[test]
fn camera_defaults_and_params() {
    let cam = CameraWrapper::from_args(&Vec::new()).unwrap();
    assert_eq!(cam, CameraWrapper::default());
    assert_eq!(cam.fov, b(70.0));
    assert_eq!(cam.pos, v3(-0.0, -1.0, -0.0));
    let cam = CameraWrapper::from_args(&words("fov: 45 pos: 1 2 3 dir: 0 0 1 0 foc: 7 aprt: 0.5 gamma: 2 exp: 3")).unwrap();
    assert_eq!(cam.fov, b(45.0));
    assert_eq!(cam.pos, v3(1.0, 2.0, 3.0));
    assert_eq!(cam.dir, Vec4f { w: b(0.0), x: b(0.0), y: b(1.0), z: b(0.0) });
    assert_eq!(cam.foc, b(7.0));
    assert_eq!(cam.aprt, b(0.5));
    assert_eq!(cam.gamma, b(2.0));
    assert_eq!(cam.exp, b(3.0));
}

#[test]
fn camera_last_value_wins() {
    let cam = CameraWrapper::from_args(&words("fov: 10 fov: 20")).unwrap();
    assert_eq!(cam.fov, b(20.0));
}

#[test]
fn camera_errors() {
    assert_eq!(
        CameraWrapper::from_args(&words("zoom: 2")).unwrap_err(),
        "`zoom:` param for `cam` is unxpected!"
    );
    assert_eq!(CameraWrapper::from_args(&words("fov:")).unwrap_err(), "unexpected ends!");
    assert_eq!(CameraWrapper::from_args(&words("fov: wide")).unwrap_err(), "should be <f32>!");
}

#[test]
fn camera_words_compose() {
    let a = words("fov: 30");
    let mut ab = words("fov: 30");
    ab.extend(words("gamma: 1"));
    let first = CameraWrapper::from_args(&a).unwrap();
    let both = CameraWrapper::from_args(&ab).unwrap();
    assert_eq!(both, CameraWrapper { gamma: b(1.0), ..first });
}

#[test]
fn point_light() {
    let l = LightWrapper::from_args(&words("pt: 1 2 3 pwr: 2 col: #ffffff")).unwrap();
    assert_eq!(l.kind, LightKindWrapper::Point { pos: v3(1.0, 2.0, 3.0) });
    assert_eq!(l.pwr, b(2.0));
    match l.color {
        ColorWrapper::Hex(s) => assert_eq!(s, "#ffffff"),
        _ => panic!(),
    }
}

#[test]
fn point_light_alias_and_defaults() {
    let l = LightWrapper::from_args(&words("point: 0 0 1")).unwrap();
    assert_eq!(l.kind, LightKindWrapper::Point { pos: v3(0.0, 0.0, 1.0) });
    assert_eq!(l.pwr, b(0.5));
    match l.color {
        ColorWrapper::Vec3(v) => assert_eq!(v, v3(1.0, 1.0, 1.0)),
        _ => panic!(),
    }
}

#[test]
fn dir_light_keeps_direction_as_written() {
    let l = LightWrapper::from_args(&words("dir: 0 0 -2")).unwrap();
    assert_eq!(l.kind, LightKindWrapper::Dir { dir: v3(0.0, 0.0, -2.0) });
}

#[test]
fn light_errors() {
    assert_eq!(LightWrapper::from_args(&words("spot: 1 2 3")).unwrap_err(), "`spot:` type is unxpected!");
    assert_eq!(
        LightWrapper::from_args(&words("dir: 0 0 1 pt: 1 1 1")).unwrap_err(),
        "`pt:` param for `light` is unxpected!"
    );
    assert_eq!(LightWrapper::from_args(&words("pt: 1 2")).unwrap_err(), "unexpected ends!");
}

#[test]
fn sphere_with_material() {
    let o = RendererWrapper::from_args(&words(
        "sph r: 2 pos: 1 0 0 albedo: #102030 rough: 0.5 metal: 1 glass: 0.25 opacity: 0.75 emit: 3 name: ball",
    ))
    .unwrap();
    match o.kind {
        RendererKindWrapper::Sphere { r } => assert_eq!(r, b(2.0)),
        _ => panic!(),
    }
    assert_eq!(o.pos, Some(v3(1.0, 0.0, 0.0)));
    assert_eq!(o.dir, Some(Vec4f { w: b(0.0), x: b(0.0), y: b(-1.0), z: b(0.0) }));
    assert_eq!(o.mat.rough, b(0.5));
    assert_eq!(o.mat.metal, b(1.0));
    assert_eq!(o.mat.glass, b(0.25));
    assert_eq!(o.mat.opacity, b(0.75));
    assert_eq!(o.mat.emit, b(3.0));
    assert_eq!(o.name, Some("ball".to_string()));
    assert!(o.inst.is_none());
}

#[test]
fn shape_defaults() {
    match RendererWrapper::from_args(&words("plane")).unwrap().kind {
        RendererKindWrapper::Plane { n } => assert_eq!(n, v3(0.0, 0.0, 1.0)),
        _ => panic!(),
    }
    match RendererWrapper::from_args(&words("box")).unwrap().kind {
        RendererKindWrapper::Box { sizes } => assert_eq!(sizes, v3(0.5, 0.5, 0.5)),
        _ => panic!(),
    }
    match RendererWrapper::from_args(&words("tri")).unwrap().kind {
        RendererKindWrapper::Triangle { vtx } => {
            assert_eq!(vtx, (v3(0.5, 0.0, -0.25), v3(0.0, 0.0, 0.5), v3(-0.5, 0.0, -0.25)))
        },
        _ => panic!(),
    }
    match RendererWrapper::from_args(&words("mesh")).unwrap().kind {
        RendererKindWrapper::Mesh { mesh: MeshWrapper::Mesh(m) } => assert_eq!(m.len(), 1),
        _ => panic!(),
    }
}

#[test]
fn triangle_and_box_params() {
    match RendererWrapper::from_args(&words("triangle vtx: 0 0 0 1 0 0 0 1 0")).unwrap().kind {
        RendererKindWrapper::Triangle { vtx } => {
            assert_eq!(vtx, (v3(0.0, 0.0, 0.0), v3(1.0, 0.0, 0.0), v3(0.0, 1.0, 0.0)))
        },
        _ => panic!(),
    }
    match RendererWrapper::from_args(&words("box size: 1 2 3")).unwrap().kind {
        RendererKindWrapper::Box { sizes } => assert_eq!(sizes, v3(1.0, 2.0, 3.0)),
        _ => panic!(),
    }
    match RendererWrapper::from_args(&words("pln n: 0 1 0 dir: 1 0 0 0")).unwrap() {
        o => {
            match o.kind {
                RendererKindWrapper::Plane { n } => assert_eq!(n, v3(0.0, 1.0, 0.0)),
                _ => panic!(),
            }
            assert_eq!(o.dir, Some(Vec4f { w: b(1.0), x: b(0.0), y: b(0.0), z: b(0.0) }));
        },
    }
}

#[test]
fn mesh_reads_triangles_until_one_fails() {
    let o = RendererWrapper::from_args(&words("mesh mesh: 0 0 0 1 0 0 0 1 0 1 1 1 2 2 2 3 3 3")).unwrap();
    match o.kind {
        RendererKindWrapper::Mesh { mesh: MeshWrapper::Mesh(m) } => {
            assert_eq!(m.len(), 2);
            assert_eq!(m[1], (v3(1.0, 1.0, 1.0), v3(2.0, 2.0, 2.0), v3(3.0, 3.0, 3.0)));
        },
        _ => panic!(),
    }
}

#[test]
fn mesh_list_spends_the_words_of_the_failed_triangle() {
    // after the first triangle, `name:` and `box` are spent by the failed
    // reading of a second triangle, so no name is set
    let o = RendererWrapper::from_args(&words("mesh mesh: 0 0 0 1 0 0 0 1 0 name: box")).unwrap();
    assert_eq!(o.name, None);
}

#[test]
fn texture_words() {
    let o = RendererWrapper::from_args(&words("sph tex: wood.png rmap: H4sIAAAA gmap: a.b")).unwrap();
    match o.mat.tex {
        Some(TextureWrapper::File(f)) => assert_eq!(f, "wood.png"),
        _ => panic!(),
    }
    match o.mat.rmap {
        Some(TextureWrapper::InlineBase64(s)) => assert_eq!(s, "H4sIAAAA"),
        _ => panic!(),
    }
    assert!(o.mat.gmap.is_some());
    assert!(o.mat.mmap.is_none());
    assert_eq!(RendererWrapper::from_args(&words("sph emap:")).unwrap_err(), "unexpected ended!");
}

#[test]
fn name_at_end_is_none() {
    let o = RendererWrapper::from_args(&words("sph name:")).unwrap();
    assert_eq!(o.name, None);
}

#[test]
fn renderer_errors() {
    assert_eq!(RendererWrapper::from_args(&words("cone")).unwrap_err(), "`cone` type is unxpected!");
    assert_eq!(
        RendererWrapper::from_args(&words("sph n: 0 0 1")).unwrap_err(),
        "`n:` param for `sph` is unxpected!"
    );
    assert_eq!(RendererWrapper::from_args(&words("box size: 1 x 1")).unwrap_err(), "should be <f32>!");
}

#[test]
fn objects_are_read_last_first() {
    let a = words("sph r: 1 box size: 1 1 1 tri");
    let objs = <SceneWrapper as ParseFromArgs<RendererWrapper>>::parse_args(&a, &["sph", "box", "tri"]).unwrap();
    assert_eq!(objs.len(), 3);
    assert!(matches!(objs[0].kind, RendererKindWrapper::Triangle { .. }));
    assert!(matches!(objs[1].kind, RendererKindWrapper::Box { .. }));
    assert!(matches!(objs[2].kind, RendererKindWrapper::Sphere { .. }));
}

#[test]
fn words_before_the_first_type_word_form_an_object() {
    let a = words("r: 1 sph");
    let err = <SceneWrapper as ParseFromArgs<RendererWrapper>>::parse_args(&a, &["sph"]).unwrap_err();
    assert_eq!(err, "`r:` type is unxpected!");
}

#[test]
fn lights_split_on_type_words() {
    let a = words("pt: 0 0 1 dir: 0 0 -1 pwr: 2");
    let ls = <SceneWrapper as ParseFromArgs<LightWrapper>>::parse_args(&a, &["pt:", "dir:"]).unwrap();
    assert_eq!(ls.len(), 2);
    assert_eq!(ls[0].kind, LightKindWrapper::Dir { dir: v3(0.0, 0.0, -1.0) });
    assert_eq!(ls[0].pwr, b(2.0));
    assert_eq!(ls[1].kind, LightKindWrapper::Point { pos: v3(0.0, 0.0, 1.0) });
}

#[test]
fn no_words_no_objects() {
    let ls = <SceneWrapper as ParseFromArgs<LightWrapper>>::parse_args(&Vec::new(), &["pt:"]).unwrap();
    assert!(ls.is_empty());
}

#[test]
fn light_words_compose() {
    let first = LightWrapper::from_args(&words("pt: 1 1 1")).unwrap();
    let both = LightWrapper::from_args(&words("pt: 1 1 1 pwr: 3")).unwrap();
    assert_eq!(both.kind, first.kind);
    assert_eq!(both.pwr, b(3.0));
}

#[test]
fn objects_given_one_after_another() {
    let a = words("sph r: 1");
    let mut ab = words("sph r: 1");
    ab.extend(words("box size: 2 2 2"));
    let pat = ["sph", "box"];
    let only_a = <SceneWrapper as ParseFromArgs<RendererWrapper>>::parse_args(&a, &pat).unwrap();
    let both = <SceneWrapper as ParseFromArgs<RendererWrapper>>::parse_args(&ab, &pat).unwrap();
    assert_eq!(both.len(), only_a.len() + 1);
    assert!(matches!(both[0].kind, RendererKindWrapper::Box { .. }));
    assert!(matches!(both[1].kind, RendererKindWrapper::Sphere { .. }));
}
