use planets::render::camera::{Camera, TrackingMode, Zoom, ZOOM_STEPS};
use planets::runtime::world::EntityId;
use planets::scalar::{Real, Vector2};

fn number(value: f64) -> Real {
    Real::from_bits(value.to_bits())
}

fn value(number: Real) -> f64 {
    f64::from_bits(number.to_bits())
}

/// One update of the zoom as the host does it: the point between start and
/// target is computed with the interpolation crate.
fn update(zoom: &mut Zoom) {
    let interpolated = match zoom.pending() {
        Some((step, steps)) => {
            let ip = step as f64 / steps as f64;
            interpolation::lerp::<f64>(&value(zoom.start_zoom()), &value(zoom.target_zoom()), &ip)
        }
        None => value(zoom.zoom()),
    };
    zoom.update(number(interpolated));
}

/// A relative change of the zoom as the host does it.
fn change_zoom_relative(zoom: &mut Zoom, change_by: f64, steps: u32) {
    let target = value(zoom.zoom()) + change_by;
    zoom.change_zoom(number(target), steps);
}

#[test]
fn change_zoom() {
    let mut zoom = Zoom::new(number(512.0));
    zoom.change_zoom(number(1024.0), 2);
    update(&mut zoom);
    assert_eq!(value(zoom.zoom()), 768.0, "first step of zoom must close by half");
    update(&mut zoom);
    assert_eq!(
        value(zoom.zoom()),
        1024.0,
        "second step of zoom must reach the target"
    );
    update(&mut zoom);
    assert_eq!(value(zoom.zoom()), 1024.0, "other steps must not change zoom at all");
}

#[test]
fn zoom_in() {
    let mut zoom = Zoom::new(number(512.0));
    change_zoom_relative(&mut zoom, 256.0, 4);
    assert_eq!(value(zoom.target_zoom()), 768.0);
}

#[test]
fn zoom_out() {
    let mut zoom = Zoom::new(number(512.0));
    change_zoom_relative(&mut zoom, -256.0, 4);
    assert_eq!(value(zoom.target_zoom()), 256.0);
}

#[test]
fn a_new_zoom_rests() {
    let mut zoom = Zoom::new(number(2.0));
    assert_eq!(zoom.pending(), None);
    assert_eq!(value(zoom.zoom()), 2.0);
    assert_eq!(value(zoom.start_zoom()), 2.0);
    assert_eq!(value(zoom.target_zoom()), 2.0);
    zoom.update(number(99.0));
    assert_eq!(value(zoom.zoom()), 2.0);
}

#[test]
fn the_steps_are_counted_from_one_to_the_last() {
    let mut zoom = Zoom::new(number(1.0));
    zoom.change_zoom(number(2.0), 3);
    assert_eq!(zoom.pending(), Some((1, 3)));
    update(&mut zoom);
    assert_eq!(zoom.pending(), Some((2, 3)));
    update(&mut zoom);
    assert_eq!(zoom.pending(), Some((3, 3)));
    update(&mut zoom);
    assert_eq!(zoom.pending(), None);
}

#[test]
fn the_last_step_lands_on_the_target_itself() {
    let start = 0.3f64;
    let target = 0.9f64;
    assert_ne!(start + (target - start) * 1.0, target);
    let mut zoom = Zoom::new(number(start));
    zoom.change_zoom(number(target), 16);
    for _ in 0..16 {
        update(&mut zoom);
    }
    assert_eq!(zoom.zoom().to_bits(), target.to_bits());
    for _ in 0..5 {
        update(&mut zoom);
        assert_eq!(zoom.zoom().to_bits(), target.to_bits());
    }
}

#[test]
fn a_step_before_the_last_takes_the_interpolated_point() {
    let mut zoom = Zoom::new(number(10.0));
    zoom.change_zoom(number(20.0), 4);
    zoom.update(number(12.5));
    assert_eq!(value(zoom.zoom()), 12.5);
    zoom.update(number(15.0));
    zoom.update(number(17.5));
    assert_eq!(value(zoom.zoom()), 17.5);
    zoom.update(number(-1.0));
    assert_eq!(value(zoom.zoom()), 20.0);
}

#[test]
fn a_new_request_starts_from_the_zoom_now() {
    let mut zoom = Zoom::new(number(512.0));
    zoom.change_zoom(number(1024.0), 2);
    update(&mut zoom);
    zoom.change_zoom(number(0.0), 2);
    assert_eq!(value(zoom.start_zoom()), 768.0);
    assert_eq!(value(zoom.target_zoom()), 0.0);
    update(&mut zoom);
    assert_eq!(value(zoom.zoom()), 384.0);
    update(&mut zoom);
    assert_eq!(value(zoom.zoom()), 0.0);
}

#[test]
fn a_camera_zooms_in_sixteen_steps() {
    let mut camera = Camera::fixed(number(512.0), number(32.0));
    assert_eq!(ZOOM_STEPS, 16);
    assert_eq!(camera.focus, Vector2::zero());
    assert_eq!(camera.tracking, TrackingMode::Fixed);
    assert_eq!(value(camera.zoom_step), 32.0);
    let target = value(camera.current_zoom()) + value(camera.zoom_step);
    camera.zoom_in(number(target));
    assert_eq!(camera.pending_zoom(), Some((1, 16)));
    let (start, end) = camera.zoom_range();
    assert_eq!((value(start), value(end)), (512.0, 544.0));
    for step in 1..=16u32 {
        let ip = step as f64 / 16.0;
        let point = interpolation::lerp::<f64>(&512.0, &544.0, &ip);
        camera.update_zoom(number(point));
        assert_eq!(value(camera.current_zoom()), 512.0 + 2.0 * step as f64);
    }
    assert_eq!(camera.pending_zoom(), None);
}

#[test]
fn a_camera_zooms_out_by_its_step() {
    let mut camera = Camera::fixed(number(512.0), number(32.0));
    let target = value(camera.current_zoom()) - value(camera.zoom_step);
    camera.zoom_out(number(target));
    let (start, end) = camera.zoom_range();
    assert_eq!((value(start), value(end)), (512.0, 480.0));
    assert_eq!(camera.pending_zoom(), Some((1, 16)));
    assert_eq!(value(camera.current_zoom()), 512.0);
}

#[test]
fn a_camera_can_be_told_what_to_follow() {
    let first = EntityId { bits: 1 << 32 };
    let second = EntityId { bits: (1 << 32) | 1 };
    let mut camera = Camera::tracking(number(1.0), number(0.0625), first);
    assert_eq!(camera.tracking, TrackingMode::Tracking(first));
    camera.track(second);
    assert_eq!(camera.tracking, TrackingMode::Tracking(second));
    assert_eq!(value(camera.current_zoom()), 1.0);
}
