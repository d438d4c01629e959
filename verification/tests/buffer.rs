use necoboard::switches::buffer::Buffer;

fn run(samples: &[bool]) -> Vec<bool> {
    let mut b: Buffer<3> = Buffer::new();
    samples.iter().map(|&s| b.update(s)).collect()
}

#[test]
fn three_true_then_false_then_three_true_yields_exactly_two_edges() {
    let edges = run(&[true, true, true, false, true, true, true]);
    assert_eq!(edges, vec![false, false, true, false, false, false, true]);
}

#[test]
fn runs_shorter_than_the_window_yield_no_edge() {
    assert!(run(&[true, true, false, true, true, false, true])
        .iter()
        .all(|&e| !e));
}

#[test]
fn at_most_one_edge_per_contiguous_run() {
    let edges = run(&[true; 20]);
    assert_eq!(edges.iter().filter(|&&e| e).count(), 1);
    assert!(edges[2]);
}

#[test]
fn a_single_false_sample_resets_the_run() {
    let mut b: Buffer<3> = Buffer::new();
    assert!(!b.update(true));
    assert!(!b.update(true));
    assert!(b.update(true));
    // released by one false sample, so a fresh full run is needed again
    assert!(!b.update(false));
    assert!(!b.update(true));
    assert!(!b.update(true));
    assert!(b.update(true));
}
