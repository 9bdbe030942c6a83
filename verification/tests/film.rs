use raytracer::control::{Control, Controls, SCENES};
use raytracer::film::{opaque_pixel, Film};
use raytracer::renderer::RenderMode;
use raytracer::scalar::Scalar;
use raytracer::vector::Vec3;

fn s(x: f32) -> Scalar {
    Scalar::from_bits(x.to_bits())
}

fn v(x: f32, y: f32, z: f32) -> Vec3 {
    Vec3::new(s(x), s(y), s(z))
}

fn f(x: Scalar) -> f32 {
    f32::from_bits(x.to_bits())
}

fn exposed(width: u32, height: u32) -> Film {
    let mut film = Film::new(width, height).unwrap();
    for y in 0..film.height() {
        for x in 0..film.width() {
            film.set_pixel(x, y, v(x as f32 + 0.5, y as f32 + 0.25, 1.0));
        }
    }
    film.record(7);
    film
}

#[test]
fn a_new_film_is_blank_and_has_its_size() {
    let film = Film::new(4, 3).unwrap();
    assert_eq!(film.width(), 4);
    assert_eq!(film.height(), 3);
    assert_eq!(film.samples(), 0);
    assert!(film.is_blank());
    for y in 0..3 {
        for x in 0..4 {
            assert_eq!(film.pixel(x, y), v(0.0, 0.0, 0.0));
        }
    }
}

#[test]
fn a_film_beyond_memory_is_refused() {
    assert!(Film::new(u32::MAX, u32::MAX).is_none());
}

#[test]
fn a_film_without_pixels_is_blank_and_peaks_at_zero() {
    for (w, h) in [(0, 0), (0, 5), (5, 0)] {
        let film = Film::new(w, h).unwrap();
        assert!(film.is_blank());
        assert_eq!(film.peak().to_bits(), 0.0f32.to_bits());
    }
}

#[test]
fn a_pixel_holds_what_was_put_there_and_no_other_pixel_changes() {
    let mut film = Film::new(4, 3).unwrap();
    film.set_pixel(2, 1, v(1.0, 2.0, 3.0));
    film.set_pixel(3, 2, v(4.0, 5.0, 6.0));
    film.set_pixel(0, 0, v(7.0, 8.0, 9.0));
    for y in 0..3 {
        for x in 0..4 {
            let expected = match (x, y) {
                (2, 1) => v(1.0, 2.0, 3.0),
                (3, 2) => v(4.0, 5.0, 6.0),
                (0, 0) => v(7.0, 8.0, 9.0),
                _ => v(0.0, 0.0, 0.0),
            };
            assert_eq!(film.pixel(x, y), expected);
        }
    }
    assert_eq!(film.samples(), 0);
    assert!(!film.is_blank());
}

#[test]
fn pixels_are_kept_apart_row_by_row() {
    let film = exposed(5, 4);
    for y in 0..4 {
        for x in 0..5 {
            assert_eq!(film.pixel(x, y), v(x as f32 + 0.5, y as f32 + 0.25, 1.0));
        }
    }
}

#[test]
fn samples_are_counted_and_the_count_stops_at_its_limit() {
    let mut film = Film::new(2, 2).unwrap();
    film.record(1);
    film.record(10);
    assert_eq!(film.samples(), 11);
    assert!(!film.is_blank());
    film.record(u32::MAX - 12);
    assert_eq!(film.samples(), u32::MAX - 1);
    film.record(10);
    assert_eq!(film.samples(), u32::MAX);
    film.record(10);
    assert_eq!(film.samples(), u32::MAX);
}

#[test]
fn reset_clears_every_pixel_and_the_count() {
    let mut film = exposed(5, 4);
    assert!(!film.is_blank());
    assert_eq!(film.samples(), 7);
    film.reset();
    assert!(film.is_blank());
    assert_eq!(film.samples(), 0);
    assert_eq!(film.width(), 5);
    assert_eq!(film.height(), 4);
    for y in 0..4 {
        for x in 0..5 {
            assert_eq!(film.pixel(x, y), v(0.0, 0.0, 0.0));
        }
    }
}

#[test]
fn a_film_with_negative_zero_in_it_is_not_blank() {
    let mut film = Film::new(1, 1).unwrap();
    film.set_pixel(0, 0, v(0.0, -0.0, 0.0));
    assert!(!film.is_blank());
}

#[test]
fn the_peak_is_the_greatest_number_in_the_film() {
    let mut film = Film::new(3, 2).unwrap();
    assert_eq!(f(film.peak()), 0.0);
    film.set_pixel(1, 0, v(0.5, 2.0, 0.25));
    assert_eq!(f(film.peak()), 2.0);
    film.set_pixel(2, 1, v(0.5, 2.0, 8.5));
    assert_eq!(f(film.peak()), 8.5);
    film.set_pixel(0, 0, v(9.0, -20.0, 0.0));
    assert_eq!(f(film.peak()), 9.0);
    film.set_pixel(0, 1, v(f32::NAN, 1.0, f32::INFINITY));
    assert_eq!(f(film.peak()), f32::INFINITY);
}

#[test]
fn the_peak_passes_over_what_is_no_number() {
    let mut film = Film::new(2, 1).unwrap();
    film.set_pixel(0, 0, v(f32::NAN, -3.0, f32::NAN));
    film.set_pixel(1, 0, v(-5.0, f32::NAN, -4.0));
    assert_eq!(f(film.peak()), -3.0);
    film.set_pixel(0, 0, v(f32::NAN, f32::NAN, f32::NAN));
    film.set_pixel(1, 0, v(f32::NAN, f32::NAN, f32::NAN));
    assert!(film.peak().is_nan());
}

#[test]
fn the_viewer_starts_with_local_shading_of_the_last_scene() {
    let controls = Controls::new();
    assert_eq!(controls.mode(), RenderMode::Raycast);
    assert_eq!(controls.scene(), 3);
    assert_eq!(SCENES, 4);
}

#[test]
fn every_control_clears_the_film_before_the_next_sample() {
    for control in [Control::NextMode, Control::NextScene, Control::CameraMoved] {
        let mut controls = Controls::new();
        let mut film = exposed(6, 5);
        controls.apply(control, &mut film);
        assert!(film.is_blank());
        assert_eq!(film.samples(), 0);
        assert_eq!(film.width(), 6);
        assert_eq!(film.height(), 5);
        for y in 0..5 {
            for x in 0..6 {
                assert_eq!(film.pixel(x, y), v(0.0, 0.0, 0.0));
            }
        }
        film.set_pixel(1, 1, v(1.0, 1.0, 1.0));
        film.record(1);
        assert_eq!(film.samples(), 1);
        assert_eq!(film.pixel(1, 1), v(1.0, 1.0, 1.0));
    }
}

#[test]
fn the_modes_follow_each_other_round_and_round() {
    let mut controls = Controls::new();
    let mut film = Film::new(1, 1).unwrap();
    let mut seen = Vec::new();
    for _ in 0..8 {
        controls.apply(Control::NextMode, &mut film);
        seen.push(controls.mode());
        assert_eq!(controls.scene(), 3);
    }
    assert_eq!(
        seen,
        vec![
            RenderMode::Raytrace,
            RenderMode::Normals,
            RenderMode::Pathtracing,
            RenderMode::Raycast,
            RenderMode::Raytrace,
            RenderMode::Normals,
            RenderMode::Pathtracing,
            RenderMode::Raycast,
        ]
    );
}

#[test]
fn the_scene_after_the_last_is_the_first() {
    let mut controls = Controls::new();
    let mut film = Film::new(1, 1).unwrap();
    let mut seen = Vec::new();
    for _ in 0..9 {
        controls.apply(Control::NextScene, &mut film);
        seen.push(controls.scene());
        assert_eq!(controls.mode(), RenderMode::Raycast);
    }
    assert_eq!(seen, vec![0, 1, 2, 3, 0, 1, 2, 3, 0]);
}

#[test]
fn moving_the_camera_changes_neither_mode_nor_scene() {
    let mut controls = Controls::new();
    let mut film = exposed(2, 2);
    controls.apply(Control::NextMode, &mut film);
    controls.apply(Control::NextScene, &mut film);
    controls.apply(Control::CameraMoved, &mut film);
    assert_eq!(controls.mode(), RenderMode::Raytrace);
    assert_eq!(controls.scene(), 0);
    assert!(film.is_blank());
}

#[test]
fn a_pixel_on_the_screen_is_opaque() {
    assert_eq!(opaque_pixel(v(0.0, 127.5, 255.0)), [0, 127, 255, 255]);
    assert_eq!(opaque_pixel(v(-3.0, 1.0, 300.0)), [0, 1, 255, 255]);
    assert_eq!(opaque_pixel(v(f32::NAN, f32::INFINITY, f32::NEG_INFINITY)), [0, 255, 0, 255]);
    assert_eq!(opaque_pixel(v(0.999, 254.999, 255.5)), [0, 254, 255, 255]);
}
