use photon_engine::mesh::{cylinder_indices, grid_indices};
use photon_engine::texture::noise_hash;

#[test]
fn one_cell_grid() {
    assert_eq!(grid_indices(1, 1), vec![0, 1, 3, 0, 3, 2]);
}

#[test]
fn grid_shape() {
    let g = grid_indices(3, 2);
    assert_eq!(g.len(), 6 * 3 * 2);
    assert!(g.iter().all(|i| *i < 4 * 3));
    // Cell (ix = 1, iz = 1): i0 = 1 * 4 + 1 = 5.
    assert_eq!(&g[6 * 4..6 * 5], &[5, 6, 10, 5, 10, 9]);
    assert!(grid_indices(0, 5).is_empty());
}

#[test]
fn cylinder_layout() {
    let segments = 24u32;
    let idx = cylinder_indices(segments);
    assert_eq!(idx.len(), 12 * 24);
    assert_eq!(&idx[0..6], &[0, 1, 3, 0, 3, 2]);
    let top = 2 * (segments + 1);
    assert_eq!(&idx[144..150], &[top, top + 2, top + 3, top + 1, top + 5, top + 4]);
    let vertex_count = 2 * (segments + 1) + 2 + 4 * segments;
    assert!(idx.iter().all(|i| *i < vertex_count));
}

fn reference_hash(x: u32, y: u32) -> u32 {
    let mut h = x.wrapping_mul(374761393).wrapping_add(y.wrapping_mul(668265263));
    h = (h ^ (h >> 13)).wrapping_mul(1274126177);
    (h ^ (h >> 16)) % 1024
}

#[test]
fn noise_hash_values() {
    assert_eq!(noise_hash(0, 0), 0);
    for (x, y) in [(1, 0), (0, 1), (17, 99), (255, 255), (u32::MAX, 3)] {
        let h = noise_hash(x, y);
        assert_eq!(h, reference_hash(x, y));
        assert!(h < 1024);
    }
    assert_ne!(noise_hash(1, 0), noise_hash(0, 1));
}
