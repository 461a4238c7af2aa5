use raytracer::color::Color;
use raytracer::scene::ColorWrapper;
use raytracer::vector::Vec3f;
use raytracer::wrapper::Wrapper;

#[test]
fn hex_channels() {
    let c = ColorWrapper::Hex("#ff8000".to_string()).unwrap();
    assert_eq!(c, Ok(Color::Rgb { r: 255, g: 128, b: 0 }));
}

#[test]
fn hex_upper_case_and_trailing_text() {
    let c = ColorWrapper::Hex("#A0b1C2 and more".to_string()).unwrap();
    assert_eq!(c, Ok(Color::Rgb { r: 0xa0, g: 0xb1, b: 0xc2 }));
}

#[test]
fn hex_with_plus_sign_reads_five_digits() {
    // `u32::from_str_radix` accepts a leading `+`
    let c = ColorWrapper::Hex("#+12345".to_string()).unwrap();
    assert_eq!(c, Ok(Color::Rgb { r: 0x01, g: 0x23, b: 0x45 }));
}

#[test]
fn hex_bad_digit() {
    let c = ColorWrapper::Hex("#12345g".to_string()).unwrap();
    assert_eq!(c, Err("invalid digit found in string".to_string()));
    let c = ColorWrapper::Hex("#-12345".to_string()).unwrap();
    assert_eq!(c, Err("invalid digit found in string".to_string()));
}

#[test]
fn hex_without_hash() {
    let c = ColorWrapper::Hex("ff8000".to_string()).unwrap();
    assert_eq!(c, Err("ff8000 is not a hex color!".to_string()));
}

#[test]
fn vector_colour_is_kept() {
    let v = Vec3f { x: 1, y: 2, z: 3 };
    assert_eq!(ColorWrapper::Vec3(v).unwrap(), Ok(Color::Vec3(v)));
}
