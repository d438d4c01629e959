use necoboard::switches::key_matrix::{mux_select_bit, KeyMatrix, MAX_KEYS};
use necoboard::SwitchIdentifier;

fn grid(rows: usize, cols: usize, value: u16) -> Vec<u16> {
    vec![value; rows * cols]
}

#[test]
fn all_zero_scan_reports_nothing_and_zero_values() {
    let mut m = KeyMatrix::new(4, 12);
    let keys = m.scan(&grid(4, 12, 0));
    assert_eq!(keys.len(), 0);
    assert!(m.values().iter().all(|&v| v == 0));
    assert!(!m.is_any_key_pressed());
}

#[test]
fn scan_never_reports_more_than_twelve_keys() {
    // A 4x12 board with every cell saturated: after the three scans the
    // debounce window needs, all 48 cells edge at once, and the report is
    // cut to the first 12 in sweep order (column-major).
    let mut m = KeyMatrix::new(4, 12);
    let high = grid(4, 12, 4095);
    assert_eq!(m.scan(&high).len(), 0);
    assert_eq!(m.scan(&high).len(), 0);
    let keys = m.scan(&high);
    assert_eq!(keys.len(), MAX_KEYS);
    let expected: Vec<SwitchIdentifier> = (0..3)
        .flat_map(|col| (0..4).map(move |row| SwitchIdentifier { row, col }))
        .collect();
    assert_eq!(keys.as_slice(), expected.as_slice());
    assert!(m.is_any_key_pressed());
}

#[test]
fn single_cell_press_scenario() {
    // One cell fed raw samples [0, 0, 0, 50, 50, 50] with THRESHOLD 40 and a
    // debounce window of 3: the filtered values rise smoothly, and exactly
    // one press edge comes, on the tick of the third consecutive filtered
    // value above 40.
    let mut m = KeyMatrix::new(1, 1);
    let samples = [0u16, 0, 0, 50, 50, 50];
    let mut reported: Vec<usize> = Vec::new();
    let mut published: Vec<u16> = Vec::new();
    for (tick, &raw) in samples.iter().enumerate() {
        let keys = m.scan(&vec![raw]);
        if keys.len() > 0 {
            assert_eq!(keys[0], SwitchIdentifier { row: 0, col: 0 });
            reported.push(tick + 1);
        }
        published.push(m.values()[0]);
    }
    assert_eq!(published, vec![0, 0, 0, 42, 48, 49]);
    assert_eq!(reported, vec![6]);
}

#[test]
fn values_are_refreshed_by_every_scan() {
    let mut m = KeyMatrix::new(2, 3);
    m.scan(&vec![100, 200, 300, 400, 500, 600]);
    // First scan seeds every filter, so the grid holds the raw samples.
    assert_eq!(m.values(), vec![100, 200, 300, 400, 500, 600]);
}

#[test]
fn activity_flag_follows_the_stored_grid() {
    let mut m = KeyMatrix::new(1, 2);
    m.scan(&vec![40, 0]);
    assert!(!m.is_any_key_pressed(), "a stored value of 40 is not above the threshold");
    m.scan(&vec![4095, 0]);
    assert!(m.is_any_key_pressed());
}

#[test]
fn release_and_repress_reports_a_second_edge() {
    let mut m = KeyMatrix::new(1, 1);
    let high = vec![4095u16];
    let low = vec![0u16];
    assert_eq!(m.scan(&high).len(), 0);
    assert_eq!(m.scan(&high).len(), 0);
    assert_eq!(m.scan(&high).len(), 1);
    assert_eq!(m.scan(&high).len(), 0, "a held key is reported once");
    // Enough low samples to pull the filtered value back under threshold.
    for _ in 0..50 {
        m.scan(&low);
    }
    assert!(!m.is_any_key_pressed());
    assert_eq!(m.scan(&high).len(), 0);
    assert_eq!(m.scan(&high).len(), 0);
    assert_eq!(m.scan(&high).len(), 1, "a fresh press edges again");
}

#[test]
fn mux_address_is_the_binary_encoding_of_the_column() {
    for col in 0..12usize {
        for sel in 0..4usize {
            assert_eq!(mux_select_bit(col, sel), (col >> sel) & 1 == 1);
        }
    }
}
