use raytracing::dispatch::{grid_for, workgroups_for, DispatchGrid, TILE_HEIGHT, TILE_WIDTH};

#[test]
fn tile_size_is_eight_by_eight() {
    assert_eq!(TILE_WIDTH, 8);
    assert_eq!(TILE_HEIGHT, 8);
}

#[test]
fn workgroups_exact_multiple() {
    assert_eq!(workgroups_for(1024, 8), 128);
    assert_eq!(workgroups_for(8, 8), 1);
    assert_eq!(workgroups_for(0, 8), 0);
}

#[test]
fn workgroups_round_up() {
    assert_eq!(workgroups_for(1, 8), 1);
    assert_eq!(workgroups_for(7, 8), 1);
    assert_eq!(workgroups_for(9, 8), 2);
    assert_eq!(workgroups_for(1023, 8), 128);
    assert_eq!(workgroups_for(1025, 8), 129);
}

#[test]
fn grid_covers_divisible_resolution() {
    let g = grid_for(1024, 1024);
    assert_eq!(g, DispatchGrid { x: 128, y: 128, z: 1 });
}

#[test]
fn grid_covers_non_divisible_resolution() {
    // A resolution that is not a multiple of the 8x8 tile still gets a
    // covering grid: the driver over-dispatches and kernels bounds-check.
    let g = grid_for(1023, 513);
    assert_eq!(g, DispatchGrid { x: 128, y: 65, z: 1 });
    assert!(g.x * TILE_WIDTH >= 1023);
    assert!(g.y * TILE_HEIGHT >= 513);
    assert!((g.x - 1) * TILE_WIDTH < 1023);
    assert!((g.y - 1) * TILE_HEIGHT < 513);
}

#[test]
fn grid_minimal_resolution() {
    let g = grid_for(1, 1);
    assert_eq!(g, DispatchGrid { x: 1, y: 1, z: 1 });
}
