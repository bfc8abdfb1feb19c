//! Collision primitive and integer square root behavior.

use breakout_core::ball::{paddle_bounce, reflect_velocity};
use breakout_core::geom::{collide_volume, Collision, Rect, Vec2i, Volume};
use breakout_core::num::isqrt;

fn v(x: i64, y: i64) -> Vec2i {
    Vec2i { x, y }
}

#[test]
fn side_classification_right() {
    // A circle of radius 10 at (60, 5) against a 100x100 box at the origin:
    // the horizontal offset (10) strictly exceeds the vertical (0).
    let volume = Volume::Circle { center: v(60, 5), radius: 10 };
    let rect = Rect { center: v(0, 0), size: v(100, 100) };
    assert_eq!(collide_volume(&volume, &rect), Some(Collision::Right));
}

#[test]
fn side_classification_tie_prefers_vertical() {
    // Equal offsets (10, 10): the horizontal does not strictly win, and a
    // positive vertical offset resolves to Top.
    let volume = Volume::Circle { center: v(60, 60), radius: 20 };
    let rect = Rect { center: v(0, 0), size: v(100, 100) };
    assert_eq!(collide_volume(&volume, &rect), Some(Collision::Top));
}

#[test]
fn no_intersection_reports_no_side() {
    let volume = Volume::Circle { center: v(100, 100), radius: 10 };
    let rect = Rect { center: v(0, 0), size: v(100, 100) };
    assert_eq!(collide_volume(&volume, &rect), None);
}

#[test]
fn circle_touching_edge_intersects() {
    // Distance from center to the box edge equals the radius exactly.
    let volume = Volume::Circle { center: v(60, 0), radius: 10 };
    let rect = Rect { center: v(0, 0), size: v(100, 100) };
    assert_eq!(collide_volume(&volume, &rect), Some(Collision::Right));
}

#[test]
fn center_inside_box_resolves_bottom() {
    // A center inside the box has a zero offset, which classifies Bottom.
    let volume = Volume::Circle { center: v(0, 0), radius: 5 };
    let rect = Rect { center: v(0, 0), size: v(100, 100) };
    assert_eq!(collide_volume(&volume, &rect), Some(Collision::Bottom));
}

#[test]
fn rect_overlap_detected() {
    let volume = Volume::Rect { rect: Rect { center: v(90, 0), size: v(100, 100) } };
    let rect = Rect { center: v(0, 0), size: v(100, 100) };
    assert!(collide_volume(&volume, &rect).is_some());

    let apart = Volume::Rect { rect: Rect { center: v(201, 0), size: v(100, 100) } };
    assert_eq!(collide_volume(&apart, &rect), None);
}

#[test]
fn reflection_top_and_bottom() {
    // Striking Top while moving down negates the vertical component.
    assert_eq!(reflect_velocity(v(5, -4), Collision::Top), v(5, 4));
    // Striking Bottom while moving up negates the vertical component.
    assert_eq!(reflect_velocity(v(5, 4), Collision::Bottom), v(5, -4));
    // Already separating: no reflection.
    assert_eq!(reflect_velocity(v(5, 4), Collision::Top), v(5, 4));
    assert_eq!(reflect_velocity(v(5, -4), Collision::Bottom), v(5, -4));
}

#[test]
fn reflection_left_and_right() {
    assert_eq!(reflect_velocity(v(-4, 5), Collision::Right), v(4, 5));
    assert_eq!(reflect_velocity(v(4, 5), Collision::Left), v(-4, 5));
    assert_eq!(reflect_velocity(v(4, 5), Collision::Right), v(4, 5));
    assert_eq!(reflect_velocity(v(-4, 5), Collision::Left), v(-4, 5));
}

#[test]
fn isqrt_exact_values() {
    assert_eq!(isqrt(0), 0);
    assert_eq!(isqrt(1), 1);
    assert_eq!(isqrt(3), 1);
    assert_eq!(isqrt(4), 2);
    assert_eq!(isqrt(80_000), 282);
    assert_eq!(isqrt(u64::MAX), 4_294_967_295);
}

#[test]
fn paddle_bounce_redirects_away_from_paddle() {
    // Ball straight above the paddle: the new velocity points straight up
    // with the old speed (|(200, -200)| rounds down to 282).
    let w = paddle_bounce(v(0, -230_000), v(0, -250_000), v(200, -200));
    assert_eq!(w, v(0, 282));
}

#[test]
fn paddle_bounce_coinciding_centers_falls_back_upward() {
    let w = paddle_bounce(v(0, -250_000), v(0, -250_000), v(200, -200));
    assert_eq!(w, v(0, 282));
}

#[test]
fn paddle_bounce_diagonal_preserves_speed_direction() {
    // Offset (300, 400) has length 500; speed |(0, -100)| = 100.
    // Components scale to (300*100/500, 400*100/500) = (60, 80).
    let w = paddle_bounce(v(-249_700, 400), v(-250_000, 0), v(0, -100));
    assert_eq!(w, v(60, 80));
}
