//! Pointer maze: construction, identity initialization, and the
//! single-cycle guarantee of the shuffle.

use lamina::chase::Pointer;
use lamina::chase::PointerMaze;
use lamina::util::Xorshift64;

fn assert_single_cycle<const SIZE: usize>(maze: &PointerMaze<SIZE>, stride: usize) {
    let n = SIZE / stride;
    // Starting from every strided cell, n dereferences visit n pairwise
    // distinct cells and come back to the start.
    for start in 0..n {
        let mut visited = vec![false; SIZE];
        let mut cell = start * stride;
        for _ in 0..n {
            assert_eq!(cell % stride, 0, "walk left the stride grid");
            assert!(!visited[cell], "cell revisited before the cycle closed");
            visited[cell] = true;
            cell = maze.data[cell];
        }
        assert_eq!(cell, start * stride, "walk did not close after n steps");
    }
}

#[test]
fn new_maze_is_zeroed() {
    let maze: PointerMaze<64> = PointerMaze::new();
    assert_eq!(maze.data.len(), 64);
    assert!(maze.data.iter().all(|&c| c == 0));
}

#[test]
fn initialize_maps_every_cell_to_itself() {
    let mut maze: PointerMaze<64> = PointerMaze::new();
    maze.initialize();
    for idx in 0..64 {
        assert_eq!(maze.data[idx], idx);
    }
}

#[test]
fn shuffle_forms_single_cycle_stride_one() {
    let mut maze: PointerMaze<256> = PointerMaze::new();
    let mut rng = Xorshift64::from_seed(0x1234_5678);
    maze.shuffle(&mut rng, 1);
    assert_single_cycle(&maze, 1);
}

#[test]
fn shuffle_forms_single_cycle_strided() {
    let mut maze: PointerMaze<256> = PointerMaze::new();
    let mut rng = Xorshift64::from_seed(7);
    maze.shuffle(&mut rng, 8);
    assert_single_cycle(&maze, 8);
    // Cells off the stride grid still point at themselves.
    for idx in 0..256 {
        if idx % 8 != 0 {
            assert_eq!(maze.data[idx], idx);
        }
    }
}

#[test]
fn shuffle_with_non_dividing_stride() {
    // 100 / 8 leaves a remainder; the cycle covers the 12 strided cells and
    // the tail of the array stays identity-mapped.
    let mut maze: PointerMaze<100> = PointerMaze::new();
    let mut rng = Xorshift64::from_seed(11);
    maze.shuffle(&mut rng, 8);
    assert_single_cycle(&maze, 8);
    for idx in 96..100 {
        assert_eq!(maze.data[idx], idx);
    }
}

#[test]
fn shuffle_has_no_fixed_points_for_long_chains() {
    // A single cycle of length n > 1 leaves no cell pointing at itself.
    let mut maze: PointerMaze<128> = PointerMaze::new();
    let mut rng = Xorshift64::from_seed(99);
    maze.shuffle(&mut rng, 1);
    for idx in 0..128 {
        assert_ne!(maze.data[idx], idx);
    }
}

#[test]
fn shuffle_replays_identically() {
    // The cycle is a deterministic function of the seed and the stride:
    // replaying with an equal seed reproduces the identical maze, and
    // exactly n - 1 draws are consumed.
    let mut a: PointerMaze<128> = PointerMaze::new();
    let mut b: PointerMaze<128> = PointerMaze::new();
    let mut ra = Xorshift64::from_seed(0xfeed);
    let mut rb = Xorshift64::from_seed(0xfeed);
    a.shuffle(&mut ra, 1);
    b.shuffle(&mut rb, 1);
    assert_eq!(a.data, b.data);
    assert_eq!(ra.val, rb.val);
    // 127 draws advanced the generator as 127 bare steps would.
    let mut rc = Xorshift64::from_seed(0xfeed);
    for _ in 0..127 {
        rc.next();
    }
    assert_eq!(ra.val, rc.val);
}

#[test]
fn shuffle_differs_across_seeds() {
    let mut a: PointerMaze<128> = PointerMaze::new();
    let mut b: PointerMaze<128> = PointerMaze::new();
    let mut ra = Xorshift64::from_seed(1);
    let mut rb = Xorshift64::from_seed(2);
    a.shuffle(&mut ra, 1);
    b.shuffle(&mut rb, 1);
    assert_ne!(a.data, b.data);
}

#[test]
fn maze_geometry() {
    let maze: PointerMaze<64> = PointerMaze::new();
    assert_eq!(maze.len(), 64);
    assert_eq!(maze.size_in_bytes(), 512);
    assert_eq!(maze.size_in_lines(), 8);
    assert_eq!(maze.head_ptr().0, 0);
    assert_eq!(maze.mid_ptr().0, 32);
    assert_eq!(maze.tail_ptr().0, 63);
}

#[test]
fn null_pointer_default() {
    assert_eq!(Pointer::default().0, 0);
}

#[test]
fn xorshift_known_values() {
    let mut rng = Xorshift64::from_seed(1);
    assert_eq!(rng.next(), 0x47e4_ce4b_896c_dd1d);
    assert_eq!(rng.next(), 0x23e6_b1f7_c713_b0c5);
    let mut rng = Xorshift64::from_seed(0xdead_beef);
    assert_eq!(rng.next(), 0x4615_1251_b681_bada);
}

#[test]
fn xorshift_is_deterministic() {
    let mut a = Xorshift64::from_seed(42);
    let mut b = Xorshift64::from_seed(42);
    for _ in 0..100 {
        assert_eq!(a.next(), b.next());
    }
}
