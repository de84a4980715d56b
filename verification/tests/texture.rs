use raytracer::obj_loader::ObjLoader;
use raytracer::scalar::Scalar;
use raytracer::texture::checker::CheckerTexture;
use raytracer::texture::image::ImageTexture;
use raytracer::texture::solid_color::SolidColorTexture;
use raytracer::texture::Texture;
use raytracer::vec3::Vec3;
use std::sync::Arc;

fn s(x: f64) -> Scalar {
    Scalar::from_bits(x.to_bits())
}

fn f(x: Scalar) -> f64 {
    f64::from_bits(x.to_bits())
}

fn v(x: f64, y: f64, z: f64) -> Vec3 {
    Vec3::new(s(x), s(y), s(z))
}

fn place(u: Scalar, v: Scalar, width: u32, height: u32) -> (u32, u32) {
    ((f(u) * width as f64) as u32, ((1.0 - f(v)) * height as f64) as u32)
}

fn shade(r: u8, g: u8, b: u8) -> Vec3 {
    v(r as f64 / 255.0, g as f64 / 255.0, b as f64 / 255.0)
}

#[test]
fn solid_colour_ignores_where_it_is_asked() {
    let t = SolidColorTexture::arc(v(0.1, 0.2, 0.3));
    assert_eq!(t.get_color((s(0.0), s(0.0)), &v(0.0, 0.0, 0.0)), v(0.1, 0.2, 0.3));
    assert_eq!(t.get_color((s(0.7), s(0.2)), &v(5.0, -3.0, 1e9)), v(0.1, 0.2, 0.3));
}

#[test]
fn checker_picks_even_where_the_sines_are_positive() {
    let even: Arc<dyn Texture> = SolidColorTexture::arc(v(1.0, 1.0, 1.0));
    let odd: Arc<dyn Texture> = SolidColorTexture::arc(v(0.0, 0.0, 0.0));
    let t = CheckerTexture::new(even, odd);
    let p = v(0.1, 0.1, 0.1);
    let uv = (s(0.0), s(0.0));
    assert_eq!(t.get_color(s(0.5), uv, &p), v(1.0, 1.0, 1.0));
    assert_eq!(t.get_color(s(-0.5), uv, &p), v(0.0, 0.0, 0.0));
    assert_eq!(t.get_color(s(0.0), uv, &p), v(0.0, 0.0, 0.0));
    assert_eq!(t.get_color(s(-0.0), uv, &p), v(0.0, 0.0, 0.0));
    assert_eq!(t.get_color(s(f64::NAN), uv, &p), v(0.0, 0.0, 0.0));
}

fn picture() -> ImageTexture {
    let data: Vec<u8> = (0..24).collect();
    ImageTexture::new(4, 2, data)
}

#[test]
fn image_pixels_lie_row_by_row() {
    let t = picture();
    assert_eq!(t.width(), 4);
    assert_eq!(t.height(), 2);
    assert_eq!(t.pixel(0, 0), Some((0, 1, 2)));
    assert_eq!(t.pixel(3, 0), Some((9, 10, 11)));
    assert_eq!(t.pixel(0, 1), Some((12, 13, 14)));
    assert_eq!(t.pixel(3, 1), Some((21, 22, 23)));
    assert_eq!(t.pixel(4, 0), None);
    assert_eq!(t.pixel(0, 2), None);
    assert_eq!(t.pixel(u32::MAX, u32::MAX), None);
}

#[test]
fn image_colour_is_looked_up_with_the_row_flipped() {
    let t = picture();
    assert_eq!(t.get_color((s(0.0), s(1.0)), &place, &shade), Some(shade(0, 1, 2)));
    assert_eq!(t.get_color((s(0.5), s(0.25)), &place, &shade), Some(shade(18, 19, 20)));
    assert_eq!(t.get_color((s(0.99), s(0.75)), &place, &shade), Some(shade(9, 10, 11)));
}

#[test]
fn image_colour_beyond_the_last_column_or_row_is_that_of_the_last() {
    let t = picture();
    assert_eq!(t.get_color((s(1.0), s(0.5)), &place, &shade), Some(shade(21, 22, 23)));
    assert_eq!(t.get_color((s(0.5), s(0.0)), &place, &shade), Some(shade(18, 19, 20)));
    assert_eq!(t.get_color((s(1.0), s(0.0)), &place, &shade), Some(shade(21, 22, 23)));
    assert_eq!(t.get_color((s(1.0), s(1.0)), &place, &shade), Some(shade(9, 10, 11)));
    assert_eq!(t.get_color((s(0.0), s(0.0)), &place, &shade), Some(shade(12, 13, 14)));
    assert_eq!(t.get_color((s(7.0), s(-3.0)), &place, &shade), Some(shade(21, 22, 23)));
    assert_eq!(t.get_color((s(f64::NAN), s(f64::NAN)), &place, &shade), Some(shade(0, 1, 2)));
    assert_eq!(ImageTexture::clamp(0, 4), 0);
    assert_eq!(ImageTexture::clamp(3, 4), 3);
    assert_eq!(ImageTexture::clamp(4, 4), 3);
    assert_eq!(ImageTexture::clamp(u32::MAX, 1), 0);
}

#[test]
fn image_colour_is_there_for_every_coordinate_of_the_unit_square() {
    let t = picture();
    for i in 0..=20 {
        for j in 0..=20 {
            let uv = (s(i as f64 / 20.0), s(j as f64 / 20.0));
            assert!(t.get_color(uv, &place, &shade).is_some());
        }
    }
}

#[test]
fn empty_image_has_no_pixel() {
    let t = ImageTexture::new(0, 0, Vec::new());
    assert_eq!(t.pixel(0, 0), None);
    assert_eq!(t.get_color((s(0.5), s(0.5)), &place, &shade), None);
    let wide = ImageTexture::new(5, 0, Vec::new());
    assert_eq!(wide.pixel(2, 0), None);
    assert_eq!(wide.get_color((s(0.5), s(0.5)), &place, &shade), None);
}

#[test]
fn corners_are_resolved_counting_from_one() {
    let vertices = vec![v(1.0, 0.0, 0.0), v(0.0, 1.0, 0.0), v(0.0, 0.0, 1.0)];
    let normals = vec![v(0.0, 0.0, 1.0), v(0.0, 1.0, 0.0)];
    let corners = vec![(1, 1), (2, 1), (3, 2)];
    let obj = ObjLoader::assemble(&vertices, &normals, &corners).unwrap();
    assert_eq!(
        obj.faces,
        vec![
            (v(1.0, 0.0, 0.0), v(0.0, 0.0, 1.0)),
            (v(0.0, 1.0, 0.0), v(0.0, 0.0, 1.0)),
            (v(0.0, 0.0, 1.0), v(0.0, 1.0, 0.0)),
        ]
    );
}

#[test]
fn corner_zero_is_the_zero_vector_and_an_index_too_far_fails() {
    let vertices = vec![v(1.0, 0.0, 0.0)];
    let normals = vec![v(0.0, 0.0, 1.0)];
    let obj = ObjLoader::assemble(&vertices, &normals, &vec![(0, 1), (1, 0)]).unwrap();
    assert_eq!(obj.faces[0], (Vec3::zeros(), v(0.0, 0.0, 1.0)));
    assert_eq!(obj.faces[1], (v(1.0, 0.0, 0.0), Vec3::zeros()));
    assert!(ObjLoader::assemble(&vertices, &normals, &vec![(2, 1)]).is_none());
    assert!(ObjLoader::assemble(&vertices, &normals, &vec![(1, 1), (1, 2)]).is_none());
    assert!(ObjLoader::assemble(&vertices, &normals, &vec![]).unwrap().faces.is_empty());
}
