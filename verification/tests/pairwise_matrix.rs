use vecsim::pairwise::assemble_distance_matrix;
use vecsim::pairwise::off_diagonal_pairs;

#[test]
fn pairs_enumerate_the_off_diagonal_in_row_major_order() {
    assert_eq!(off_diagonal_pairs(0), Vec::<(usize, usize)>::new());
    assert_eq!(off_diagonal_pairs(1), Vec::<(usize, usize)>::new());
    assert_eq!(off_diagonal_pairs(2), vec![(0, 1), (1, 0)]);
    assert_eq!(
        off_diagonal_pairs(3),
        vec![(0, 1), (0, 2), (1, 0), (1, 2), (2, 0), (2, 1)]
    );
}

#[test]
fn matrix_is_n_by_n_with_zero_diagonal() {
    let n = 3;
    let dists: Vec<u64> = [0.1f64, 0.2, 0.3, 0.4, 0.5, 0.6].iter().map(|d| d.to_bits()).collect();
    let m = assemble_distance_matrix(n, &dists);
    assert_eq!(m.len(), n * n);
    for i in 0..n {
        assert_eq!(f64::from_bits(m[i * n + i]), 0.0);
    }
    let expect = [
        [0.0, 0.1, 0.2],
        [0.3, 0.0, 0.4],
        [0.5, 0.6, 0.0],
    ];
    for i in 0..n {
        for j in 0..n {
            assert_eq!(f64::from_bits(m[i * n + j]), expect[i][j], "cell ({i},{j})");
        }
    }
}

#[test]
fn one_vector_matrix_is_a_single_zero() {
    let m = assemble_distance_matrix(1, &Vec::new());
    assert_eq!(m.len(), 1);
    assert_eq!(f64::from_bits(m[0]), 0.0);
}

#[test]
fn pairs_and_matrix_use_the_same_slot_order() {
    let n = 4;
    let pairs = off_diagonal_pairs(n);
    assert_eq!(pairs.len(), n * (n - 1));
    // give the pair (i, j) the distance i * 10 + j, and read it back
    let dists: Vec<u64> = pairs.iter().map(|&(i, j)| ((i * 10 + j) as f64).to_bits()).collect();
    let m = assemble_distance_matrix(n, &dists);
    for i in 0..n {
        for j in 0..n {
            let want = if i == j { 0.0 } else { (i * 10 + j) as f64 };
            assert_eq!(f64::from_bits(m[i * n + j]), want);
        }
    }
}
