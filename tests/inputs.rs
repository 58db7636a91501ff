use blackhole_web::gui::Gui;
use blackhole_web::noise_gen::{generate_noise_3d, SamplePoint, NOISE_DOMAIN, NOISE_SIZE};
use blackhole_web::render_pass::{assign_texture_units, UniformCache};
use blackhole_web::texture::{cubemap_face_file, decode_image, AssetError, CUBEMAP_FACES};

#[test]
fn texture_units_skip_missing_names() {
    let units = assign_texture_units(&vec![true, false, true, true]);
    assert_eq!(units, vec![Some(0), None, Some(1), Some(2)]);
}

#[test]
fn texture_units_all_missing_or_empty() {
    assert_eq!(assign_texture_units(&vec![false, false]), vec![None, None]);
    assert!(assign_texture_units(&vec![]).is_empty());
}

#[test]
fn uniform_cache_remembers_lookups() {
    let mut cache: UniformCache<u32> = UniformCache::new();
    assert_eq!(cache.get("time"), None);
    cache.insert("time", Some(3));
    cache.insert("missing", None);
    assert_eq!(cache.get("time"), Some(&Some(3)));
    assert_eq!(cache.get("missing"), Some(&None));
    assert_eq!(cache.get("tim"), None);
}

fn point_code(p: SamplePoint) -> u8 {
    // the cell index along each axis, from the numerator (2c + 1) * NOISE_DOMAIN
    let cx = (p.x_num / NOISE_DOMAIN - 1) / 2;
    let cy = (p.y_num / NOISE_DOMAIN - 1) / 2;
    let cz = (p.z_num / NOISE_DOMAIN - 1) / 2;
    (cx + 4 * cy + 16 * cz) as u8
}

#[test]
fn noise_volume_order_is_x_fastest() {
    let v = generate_noise_3d(4, point_code);
    assert_eq!(v.len(), 64);
    for (i, b) in v.iter().enumerate() {
        assert_eq!(*b as usize, i);
    }
}

#[test]
fn noise_first_cell_is_sampled_at_center() {
    // only the point (0.5 * scale, 0.5 * scale, 0.5 * scale), scale = 128 / 2, gives 7
    let v = generate_noise_3d(2, |p| {
        let half_scale = 0.5 * (128.0 / 2.0);
        let at = |num: u64| num as f64 / p.den as f64 == half_scale;
        if at(p.x_num) && at(p.y_num) && at(p.z_num) {
            7
        } else {
            0
        }
    });
    assert_eq!(v[0], 7);
    assert!(v[1..].iter().all(|b| *b == 0));
}

#[test]
fn noise_volume_is_deterministic() {
    let f = |p: SamplePoint| ((p.x_num * 31 + p.y_num * 7 + p.z_num) / p.den % 256) as u8;
    let a = generate_noise_3d(8, f);
    let b = generate_noise_3d(8, f);
    assert_eq!(a.len(), 512);
    assert_eq!(a, b);
}

#[test]
fn noise_volume_of_renderer_size() {
    let v = generate_noise_3d(NOISE_SIZE, |p| if p.den == 256 { 1 } else { 0 });
    assert_eq!(v.len(), 128 * 128 * 128);
    assert!(v.iter().all(|b| *b == 1));
}

#[test]
fn noise_volume_of_size_zero() {
    assert!(generate_noise_3d(0, |_| 1).is_empty());
}

#[test]
fn gui_new() {
    let _gui = Gui::new();
}

#[test]
fn decode_rejects_garbage() {
    let r = decode_image(&[1, 2, 3, 4, 5]);
    assert!(matches!(r, Err(AssetError::Decode(_))));
}

#[test]
fn decode_png_to_rgba() {
    let mut img = image::RgbImage::new(2, 1);
    img.put_pixel(0, 0, image::Rgb([10, 20, 30]));
    img.put_pixel(1, 0, image::Rgb([40, 50, 60]));
    let mut bytes: Vec<u8> = Vec::new();
    image::DynamicImage::ImageRgb8(img)
        .write_to(&mut std::io::Cursor::new(&mut bytes), image::ImageOutputFormat::Png)
        .unwrap();
    let decoded = match decode_image(&bytes) {
        Ok(d) => d,
        Err(_) => panic!("a PNG should decode"),
    };
    assert_eq!((decoded.width, decoded.height), (2, 1));
    assert_eq!(decoded.pixels, vec![10, 20, 30, 255, 40, 50, 60, 255]);
}

#[test]
fn cubemap_faces_in_target_order() {
    let names: Vec<&str> = (0..CUBEMAP_FACES).map(cubemap_face_file).collect();
    assert_eq!(names, ["right.png", "left.png", "top.png", "bottom.png", "front.png", "back.png"]);
}
