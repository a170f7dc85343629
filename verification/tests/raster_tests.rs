use renderer::geo::{Vec2, Vec3, FP_ONE};
use renderer::image::{Color, Image};
use renderer::raster::{barycentric, clip, new_barycentric, DrawError, Triangle, Vertex};

fn fp(v: i64) -> i64 {
    v * FP_ONE
}

fn tri(p0: (i64, i64, i64), p1: (i64, i64, i64), p2: (i64, i64, i64)) -> Triangle {
    Triangle::new(vec![
        Vertex::new(Vec3::new(fp(p0.0), fp(p0.1), fp(p0.2))),
        Vertex::new(Vec3::new(fp(p1.0), fp(p1.1), fp(p1.2))),
        Vertex::new(Vec3::new(fp(p2.0), fp(p2.1), fp(p2.2))),
    ])
}

#[test]
fn clip_clamps_to_range() {
    assert_eq!(clip(5, 0, 3), 3);
    assert_eq!(clip(-2, 0, 3), 0);
    assert_eq!(clip(2, 0, 3), 2);
    assert_eq!(clip(0, 0, 3), 0);
    assert_eq!(clip(3, 0, 3), 3);
}

#[test]
fn barycentric_edge_function_value() {
    let t0 = Vec3::new(0i32, 0, 0);
    let t1 = Vec3::new(10i32, 0, 0);
    let p = Vec3::new(5i32, 5, 0);
    assert_eq!(barycentric(&t0, &t1, &p), 50);
}

#[test]
fn new_barycentric_exact_numerators() {
    let t0 = Vec2::new(0i32, 0);
    let t1 = Vec2::new(10i32, 0);
    let t2 = Vec2::new(0i32, 10);
    let p = Vec2::new(2i32, 3);
    let (n, den) = new_barycentric(&t0, &t1, &t2, &p);
    assert_eq!(den, -100);
    assert_eq!((n.x, n.y, n.z), (-50, -20, -30));
}

#[test]
fn new_barycentric_numerators_sum_to_denominator() {
    let t0 = Vec2::new(3i32, -7);
    let t1 = Vec2::new(11i32, 5);
    let t2 = Vec2::new(-4i32, 9);
    for &(px, py) in &[(0i32, 0i32), (5, 5), (-3, 12), (100, -100)] {
        let p = Vec2::new(px, py);
        let (n, den) = new_barycentric(&t0, &t1, &t2, &p);
        assert_eq!(n.x + n.y + n.z, den);
    }
}

#[test]
fn vertex_new_keeps_coords() {
    let v = Vertex::new(Vec3::new(1i64, 2, 3));
    assert_eq!((v.coords.x, v.coords.y, v.coords.z), (1, 2, 3));
    assert_eq!(
        (v.screen_coords.x, v.screen_coords.y, v.screen_coords.z),
        (1, 2, 3)
    );
    assert!(v.texture.is_none());
    assert!(v.screen_texture.is_none());
}

#[test]
fn vertex_from_vec_takes_first_three() {
    let v = Vertex::from_vec(vec![4i64, 5, 6, 99]);
    assert_eq!((v.coords.x, v.coords.y, v.coords.z), (4, 5, 6));
}

#[test]
fn vertex_scale_to_image_formula() {
    // The object-space center maps to the pixel center; z is carried.
    let v = Vertex::new(Vec3::new(0, 0, 5 * FP_ONE));
    let s = v.scale_to_image(100, 200);
    assert_eq!(s.screen_coords.x, 50 * FP_ONE);
    assert_eq!(s.screen_coords.y, 100 * FP_ONE);
    assert_eq!(s.screen_coords.z, 5 * FP_ONE);
    // The left edge of the normalized range maps to column zero.
    let l = Vertex::new(Vec3::new(-FP_ONE, FP_ONE, 0));
    let sl = l.scale_to_image(100, 100);
    assert_eq!(sl.screen_coords.x, 0);
    assert_eq!(sl.screen_coords.y, 100 * FP_ONE);
}

#[test]
fn vertex_set_texture_and_scale_to_texture() {
    let mut v = Vertex::new(Vec3::new(0, 0, 0));
    v.set_texture(vec![FP_ONE / 2, FP_ONE / 4]);
    let s = v.scale_to_texture(64, 32);
    let st = s.screen_texture.unwrap();
    assert_eq!(st.x, 32 * FP_ONE);
    assert_eq!(st.y, 8 * FP_ONE);
    assert_eq!(s.coords.x, v.coords.x);
}

#[test]
fn triangle_scale_to_image_maps_all_vertices() {
    let t = Triangle::new(vec![
        Vertex::new(Vec3::new(-FP_ONE, -FP_ONE, 0)),
        Vertex::new(Vec3::new(FP_ONE, -FP_ONE, 0)),
        Vertex::new(Vec3::new(0, FP_ONE, 0)),
    ]);
    let s = t.scale_to_image(10, 10);
    assert_eq!(s.vertices[0].screen_coords.x, 0);
    assert_eq!(s.vertices[0].screen_coords.y, 0);
    assert_eq!(s.vertices[1].screen_coords.x, 10 * FP_ONE);
    assert_eq!(s.vertices[2].screen_coords.x, 5 * FP_ONE);
    assert_eq!(s.vertices[2].screen_coords.y, 10 * FP_ONE);
}

#[test]
fn surface_normal_follows_winding() {
    let t = Triangle::new(vec![
        Vertex::new(Vec3::new(0, 0, 0)),
        Vertex::new(Vec3::new(2, 0, 0)),
        Vertex::new(Vec3::new(0, 3, 0)),
    ]);
    let n = t.surface_normal();
    assert_eq!((n.x, n.y, n.z), (0, 0, 6));
    // Swapping two vertices flips the normal.
    let t2 = Triangle::new(vec![
        Vertex::new(Vec3::new(0, 0, 0)),
        Vertex::new(Vec3::new(0, 3, 0)),
        Vertex::new(Vec3::new(2, 0, 0)),
    ]);
    let n2 = t2.surface_normal();
    assert_eq!((n2.x, n2.y, n2.z), (0, 0, -6));
}

#[test]
fn bounding_box_of_truncated_screen_vertices() {
    let t = Triangle::new(vec![
        Vertex::new(Vec3::new(5 * FP_ONE + FP_ONE / 2, 7 * FP_ONE, 0)),
        Vertex::new(Vec3::new(-3 * FP_ONE, 2 * FP_ONE, 0)),
        Vertex::new(Vec3::new(9 * FP_ONE, -FP_ONE, 0)),
    ]);
    let b = t.find_bounding_box();
    assert_eq!((b[0].x, b[0].y), (-3, -1));
    assert_eq!((b[1].x, b[1].y), (-3, 7));
    assert_eq!((b[2].x, b[2].y), (9, 7));
    assert_eq!((b[3].x, b[3].y), (9, -1));
}

#[test]
fn clip_bounding_box_clamps_corners() {
    let t = tri((0, 0, 0), (1, 0, 0), (0, 1, 0));
    let img = Image::new(4, 4);
    let raw = vec![
        Vec2::new(-2, -2),
        Vec2::new(-2, 9),
        Vec2::new(9, 9),
        Vec2::new(9, -2),
    ];
    let c = t.clip_bounding_box(raw, &img);
    assert_eq!((c[0].x, c[0].y), (0, 0));
    assert_eq!((c[1].x, c[1].y), (0, 4));
    assert_eq!((c[2].x, c[2].y), (4, 4));
    assert_eq!((c[3].x, c[3].y), (4, 0));
}

#[test]
fn draw_fills_half_open_triangle_with_flat_shade() {
    // A counter-clockwise triangle with screen vertices (0,0), (10,0),
    // (0,10), all at depth zero, on a fresh 20x20 canvas, lit toward
    // the viewer: exactly the pixels of the clipped half-open scan
    // with x + y <= 10 get the one flat shade; everything else stays
    // black with an untouched depth entry.
    let t = tri((0, 0, 0), (10, 0, 0), (0, 10, 0));
    let mut img = Image::new(20, 20);
    let shade = Color(200, 200, 200);
    let light = Vec3::new(0, 0, FP_ONE);
    let r = t.draw(&mut img, light, shade, None);
    assert!(r.is_ok());
    for y in 0..20i32 {
        for x in 0..20i32 {
            let inside = x < 10 && y < 10 && x + y <= 10;
            if inside {
                assert_eq!(img.get_pixel(x, y), shade);
                assert_eq!(img.get_depth(x, y), 0);
            } else {
                assert_eq!(img.get_pixel(x, y), Color(0, 0, 0));
                assert_eq!(img.get_depth(x, y), i64::MIN);
            }
        }
    }
}

#[test]
fn draw_culled_when_light_reversed() {
    // The same triangle with the light direction reversed has
    // intensity <= 0: the canvas stays entirely black and no depth
    // entry moves.
    let t = tri((0, 0, 0), (10, 0, 0), (0, 10, 0));
    let mut img = Image::new(20, 20);
    let light = Vec3::new(0, 0, -FP_ONE);
    let r = t.draw(&mut img, light, Color(200, 200, 200), None);
    assert!(r.is_ok());
    for y in 0..20i32 {
        for x in 0..20i32 {
            assert_eq!(img.get_pixel(x, y), Color(0, 0, 0));
            assert_eq!(img.get_depth(x, y), i64::MIN);
        }
    }
}

#[test]
fn draw_degenerate_triangle_writes_nothing() {
    // Three collinear screen vertices: zero signed area, zero pixels,
    // no depth-buffer mutation. The vertices' depths differ, so the
    // face normal is not degenerate and the light is chosen to give a
    // positive intensity: the cull does not hide the degeneracy.
    let t = tri((0, 0, 0), (5, 0, 1), (10, 0, 3));
    let mut img = Image::new(20, 20);
    let light = Vec3::new(0, -FP_ONE, 0);
    let r = t.draw(&mut img, light, Color(1, 2, 3), None);
    assert!(r.is_ok());
    for y in 0..20i32 {
        for x in 0..20i32 {
            assert_eq!(img.get_pixel(x, y), Color(0, 0, 0));
            assert_eq!(img.get_depth(x, y), i64::MIN);
        }
    }
}

#[test]
fn draw_twice_is_idempotent() {
    // Drawing an identical triangle twice leaves the framebuffer
    // unchanged after the second draw: the second pass's depths are
    // never strictly greater than what the first wrote.
    let t = tri((0, 0, 3), (12, 0, 1), (0, 12, 2));
    let mut img = Image::new(16, 16);
    let light = Vec3::new(0, 0, FP_ONE);
    assert!(t.draw(&mut img, light, Color(5, 6, 7), None).is_ok());
    let colors_once = img.data.clone();
    let depths_once = img.zbuffer.clone();
    assert!(t.draw(&mut img, light, Color(5, 6, 7), None).is_ok());
    assert_eq!(img.data, colors_once);
    assert_eq!(img.zbuffer, depths_once);
}

#[test]
fn depth_test_keeps_the_closer_fragment() {
    // A nearer triangle drawn after a farther one wins the pixel; a
    // farther one drawn after loses it.
    let far = tri((0, 0, 1), (8, 0, 1), (0, 8, 1));
    let near = tri((0, 0, 2), (8, 0, 2), (0, 8, 2));
    let light = Vec3::new(0, 0, FP_ONE);
    let mut img = Image::new(8, 8);
    assert!(far.draw(&mut img, light, Color(10, 10, 10), None).is_ok());
    assert!(near.draw(&mut img, light, Color(20, 20, 20), None).is_ok());
    assert_eq!(img.get_pixel(1, 1), Color(20, 20, 20));
    assert_eq!(img.get_depth(1, 1), 2 * FP_ONE);
    let mut img2 = Image::new(8, 8);
    assert!(near.draw(&mut img2, light, Color(20, 20, 20), None).is_ok());
    assert!(far.draw(&mut img2, light, Color(10, 10, 10), None).is_ok());
    assert_eq!(img2.get_pixel(1, 1), Color(20, 20, 20));
    assert_eq!(img2.get_depth(1, 1), 2 * FP_ONE);
}

#[test]
fn draw_samples_texture_nearest_neighbour() {
    let mut v0 = Vertex::new(Vec3::new(0, 0, 0));
    let mut v1 = Vertex::new(Vec3::new(fp(4), 0, 0));
    let mut v2 = Vertex::new(Vec3::new(0, fp(4), 0));
    v0.set_texture(vec![0, 0]);
    v1.set_texture(vec![FP_ONE, 0]);
    v2.set_texture(vec![0, FP_ONE]);
    let t = Triangle::new(vec![v0, v1, v2]);
    let mut texture = Image::new(2, 2);
    texture.set_data_buffer(vec![
        Color(10, 0, 0),
        Color(0, 20, 0),
        Color(0, 0, 30),
        Color(40, 40, 40),
    ]);
    let mut img = Image::new(4, 4);
    let light = Vec3::new(0, 0, FP_ONE);
    let r = t.draw(&mut img, light, Color(0, 0, 0), Some(&texture));
    assert!(r.is_ok());
    // At the first vertex the sample is the texel (0, 0).
    assert_eq!(img.get_pixel(0, 0), Color(10, 0, 0));
    // Near the second vertex the interpolated column reaches texel 1.
    assert_eq!(img.get_pixel(3, 0), Color(0, 20, 0));
    // Near the third vertex the interpolated row reaches texel 1.
    assert_eq!(img.get_pixel(0, 3), Color(0, 0, 30));
}

#[test]
fn draw_with_texture_but_no_uv_is_an_error() {
    let t = tri((0, 0, 0), (4, 0, 0), (0, 4, 0));
    let texture = Image::new(2, 2);
    let mut img = Image::new(4, 4);
    let light = Vec3::new(0, 0, FP_ONE);
    let r = t.draw(&mut img, light, Color(0, 0, 0), Some(&texture));
    assert_eq!(r, Err(DrawError::MissingTextureCoords));
    for c in &img.data {
        assert_eq!(*c, Color(0, 0, 0));
    }
    for d in &img.zbuffer {
        assert_eq!(*d, i64::MIN);
    }
}
