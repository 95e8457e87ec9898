use engine::grid::{
    axial_distance, default_continent_centers, distance, hex_ball, land_coords, pentagon_centers,
    AxialCoord,
};
use engine::nation::Nation;

fn c(q: i32, r: i32) -> AxialCoord {
    AxialCoord::new(q, r)
}

#[test]
fn new_keeps_coordinates() {
    let a = AxialCoord::new(-3, 7);
    assert_eq!(a.q, -3);
    assert_eq!(a.r, 7);
}

#[test]
fn neighbors_in_order() {
    let n = c(2, 3).neighbors();
    assert_eq!(n, [c(3, 3), c(1, 3), c(2, 4), c(2, 2), c(3, 2), c(1, 4)]);
}

#[test]
fn neighbors_are_one_step_away() {
    let center = c(-4, 9);
    for n in center.neighbors() {
        assert_eq!(axial_distance(center, n), 1);
    }
}

#[test]
fn axial_distance_examples() {
    assert_eq!(axial_distance(c(0, 0), c(2, -1)), 2);
    assert_eq!(axial_distance(c(3, -5), c(-2, 4)), 9);
    assert_eq!(axial_distance(c(7, 7), c(7, 7)), 0);
    assert_eq!(axial_distance(c(-2, 4), c(3, -5)), 9);
}

#[test]
fn axial_distance_far_apart_cells() {
    assert_eq!(axial_distance(c(i32::MAX, 0), c(0, 0)), i32::MAX);
    assert_eq!(axial_distance(c(1_000_000_000, 0), c(-1_000_000_000, 0)), 2_000_000_000);
}

#[test]
fn distance_matches_axial_distance() {
    assert_eq!(distance(3, -5, -2, 4), 9);
    assert_eq!(distance(0, 0, 0, 5), 5);
    assert_eq!(distance(1, 1, -1, -1), 4);
}

#[test]
fn distance_triangle_example() {
    let a = c(0, 0);
    let b = c(3, -1);
    let d = c(5, 2);
    assert!(axial_distance(a, d) <= axial_distance(a, b) + axial_distance(b, d));
}

#[test]
fn default_continent_centers_radius_12() {
    assert_eq!(
        default_continent_centers(12),
        [(Nation::Tera, c(-9, 4)), (Nation::Sora, c(9, -3)), (Nation::Aqua, c(0, -9))]
    );
}

#[test]
fn default_continent_centers_truncate_toward_zero() {
    assert_eq!(
        default_continent_centers(7),
        [(Nation::Tera, c(-4, 2)), (Nation::Sora, c(4, -1)), (Nation::Aqua, c(0, -4))]
    );
}

#[test]
fn pentagon_centers_radius_12() {
    assert_eq!(
        pentagon_centers(12),
        [
            (Nation::Tera, c(0, -10)),
            (Nation::Sora, c(10, -5)),
            (Nation::Aqua, c(10, 5)),
            (Nation::Solar, c(0, 10)),
            (Nation::Luna, c(-10, 0)),
        ]
    );
}

#[test]
fn pentagon_centers_odd_half_truncates() {
    assert_eq!(
        pentagon_centers(5),
        [
            (Nation::Tera, c(0, -3)),
            (Nation::Sora, c(3, -1)),
            (Nation::Aqua, c(3, 1)),
            (Nation::Solar, c(0, 3)),
            (Nation::Luna, c(-3, 0)),
        ]
    );
}

#[test]
fn pentagon_capitals_distinct_from_radius_four() {
    for radius in 4..30 {
        let centers = pentagon_centers(radius);
        for i in 0..5 {
            for j in (i + 1)..5 {
                assert_ne!(centers[i].1, centers[j].1);
            }
        }
    }
}

#[test]
fn pentagon_capitals_collide_at_radius_three() {
    let centers = pentagon_centers(3);
    assert_eq!(centers[1].1, c(1, 0));
    assert_eq!(centers[2].1, c(1, 0));
}

#[test]
fn hex_ball_radius_one() {
    assert_eq!(
        hex_ball(c(0, 0), 1),
        vec![c(-1, 0), c(-1, 1), c(0, -1), c(0, 0), c(0, 1), c(1, -1), c(1, 0)]
    );
}

#[test]
fn hex_ball_sizes() {
    for radius in 0..8 {
        let ball = hex_ball(c(5, -2), radius);
        assert_eq!(ball.len() as i32, 3 * radius * (radius + 1) + 1);
        for cell in &ball {
            assert!(axial_distance(c(5, -2), *cell) <= radius);
        }
    }
}

#[test]
fn hex_ball_negative_radius_is_empty() {
    assert!(hex_ball(c(0, 0), -1).is_empty());
}

#[test]
fn hex_ball_zero_radius_is_center() {
    assert_eq!(hex_ball(c(4, 4), 0), vec![c(4, 4)]);
}

#[test]
fn land_coords_leave_ocean_border() {
    let land = land_coords(4);
    assert_eq!(land.len(), 19);
    for cell in &land {
        assert!(axial_distance(*cell, c(0, 0)) <= 2);
    }
}

#[test]
fn land_coords_small_maps() {
    assert_eq!(land_coords(0), vec![c(0, 0)]);
    assert_eq!(land_coords(1).len(), 7);
    assert_eq!(land_coords(2).len(), 7);
    assert_eq!(land_coords(3).len(), 7);
    assert!(land_coords(-3).is_empty());
}

#[test]
fn land_coords_sorted() {
    let land = land_coords(12);
    for pair in land.windows(2) {
        assert!((pair[0].q, pair[0].r) < (pair[1].q, pair[1].r));
    }
    assert_eq!(land.len(), 3 * 10 * 11 + 1);
}
