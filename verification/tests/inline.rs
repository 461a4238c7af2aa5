use raytracer::assets::mesh_from_polys;
use raytracer::inline::{pack_inline, unpack_inline};
use raytracer::render::Texture;
use raytracer::scene::{MeshWrapper, TextureBufferWrapper, TextureWrapper};
use raytracer::vector::Vec3f;

#[test]
fn pack_then_unpack_gives_the_text_back() {
    let text = "{\"Mesh\":[[[0.0,1.0,2.0],[3.0,4.0,5.0],[6.0,7.0,8.0]]]}";
    let packed = pack_inline(text).unwrap();
    assert!(!packed.contains('.'));
    assert_eq!(unpack_inline(&packed).unwrap(), text);
}

#[test]
fn pack_is_gzip_then_base64() {
    let packed = pack_inline("hi").unwrap();
    let raw = base64::decode(&packed).unwrap();
    assert_eq!(&raw[..2], &[0x1f, 0x8b]);
    assert_ne!(packed, "hi");
}

#[test]
fn unpack_errors() {
    assert!(unpack_inline("not base64!").is_err());
    // valid base64 of bytes that are not gzip
    assert!(unpack_inline("aGVsbG8=").is_err());
}

fn never_load(_: &str) -> Result<MeshWrapper, String> {
    panic!("must not load")
}

#[test]
fn mesh_buffer_is_kept() {
    let m = MeshWrapper::Mesh(vec![(Vec3f { x: 1, y: 2, z: 3 }, Vec3f { x: 4, y: 5, z: 6 }, Vec3f { x: 7, y: 8, z: 9 })]);
    match m.to_buffer(never_load, never_load).unwrap() {
        MeshWrapper::Mesh(t) => assert_eq!(t[0].2, Vec3f { x: 7, y: 8, z: 9 }),
        _ => panic!(),
    }
}

#[test]
fn mesh_file_is_loaded() {
    let m = MeshWrapper::File("teapot.obj".to_string());
    let r = m.to_buffer(|n: &str| Err(format!("loaded {}", n)), never_load);
    assert_eq!(r.unwrap_err(), "loaded teapot.obj");
}

#[test]
fn inline_with_dot_is_a_file_name() {
    let m = MeshWrapper::InlineBase64("cube.obj".to_string());
    let r = m.to_buffer(|n: &str| Err(format!("loaded {}", n)), never_load);
    assert_eq!(r.unwrap_err(), "loaded cube.obj");
}

#[test]
fn inline_mesh_is_unpacked_and_read() {
    let packed = pack_inline("TEXT").unwrap();
    let m = MeshWrapper::InlineBase64(packed);
    let r = m.to_buffer(never_load, |j: &str| Err(format!("parsed {}", j)));
    assert_eq!(r.unwrap_err(), "parsed TEXT");
}

#[test]
fn inline_mesh_with_bad_data() {
    let m = MeshWrapper::InlineBase64("@@@@".to_string());
    let r = m.to_buffer(never_load, |_: &str| Ok(MeshWrapper::Mesh(Vec::new())));
    assert!(r.is_err());
}

fn buffer_tex() -> TextureWrapper {
    TextureWrapper::Buffer(TextureBufferWrapper { w: 1, h: 1, dat: Some(vec![Vec3f { x: 1, y: 1, z: 1 }]) })
}

#[test]
fn texture_file_and_inline() {
    let r = TextureWrapper::File("a.png".to_string())
        .to_buffer(|_: &str| Ok(buffer_tex()), |_: &str| Err("no".to_string()));
    assert!(matches!(r, Ok(TextureWrapper::Buffer(_))));
    let packed = pack_inline("{}").unwrap();
    let r = TextureWrapper::InlineBase64(packed)
        .to_buffer(|_: &str| Err("no".to_string()), |j: &str| Err(j.to_string()));
    assert_eq!(r.unwrap_err(), "{}");
}

#[test]
fn texture_unwrap_gives_pixels() {
    let t: Texture = TextureWrapper::File("a.png".to_string())
        .unwrap(|_: &str| Ok(buffer_tex()), |_: &str| Err("no".to_string()))
        .unwrap();
    assert_eq!(t.w, 1);
    assert_eq!(t.get_color(0, 0), Vec3f { x: 1, y: 1, z: 1 });
    let e = TextureWrapper::File("a.png".to_string())
        .unwrap(|_: &str| Err("missing".to_string()), |_: &str| Err("no".to_string()));
    assert_eq!(e.unwrap_err(), "missing");
}

#[test]
fn texture_get_color_indexes_rows() {
    let px = |i: u32| Vec3f { x: i, y: i, z: i };
    let t = Texture { w: 2, h: 2, dat: Some(vec![px(0), px(1), px(2), px(3)]) };
    assert_eq!(t.get_color(1, 0), px(1));
    assert_eq!(t.get_color(0, 1), px(2));
    assert_eq!(t.get_color(1, 1), px(3));
    let empty = Texture { w: 2, h: 2, dat: None };
    assert_eq!(empty.get_color(5, 5), Vec3f { x: 0, y: 0, z: 0 });
}

#[test]
fn mesh_faces_pick_positions() {
    let p = |k: u32| Vec3f { x: k, y: k + 1, z: k + 2 };
    let pos = vec![p(0), p(10), p(20), p(30)];
    let faces = vec![(0, 1, 2), (3, 3, 0)];
    let mesh = mesh_from_polys(&pos, &faces);
    assert_eq!(mesh, vec![(p(0), p(10), p(20)), (p(30), p(30), p(0))]);
    assert!(mesh_from_polys(&pos, &Vec::new()).is_empty());
}

#[test]
fn inline_text_reads_back_through_buffer_form() {
    let text = "{\"Mesh\":[]}";
    let m = MeshWrapper::inline_text(text);
    match &m {
        MeshWrapper::InlineBase64(p) => assert!(!p.contains('.')),
        _ => panic!("not inline"),
    }
    let r = m.to_buffer(never_load, |j: &str| Err(format!("read {}", j)));
    assert_eq!(r.unwrap_err(), format!("read {}", text));
}

#[test]
fn inline_texture_text_reads_back() {
    let text = "{\"Buffer\":{\"w\":0,\"h\":0}}";
    let t = TextureWrapper::inline_text(text);
    let r = t.to_buffer(|_: &str| Err("loaded".to_string()), |j: &str| Err(format!("read {}", j)));
    assert_eq!(r.unwrap_err(), format!("read {}", text));
}

#[test]
fn packing_an_empty_text_succeeds() {
    let p = pack_inline("").unwrap();
    assert_eq!(unpack_inline(&p).unwrap(), "");
}
