use necoboard::layout::{Layer, Layout};
use necoboard::SwitchIdentifier;

fn ids(pairs: &[(u8, u8)]) -> Vec<SwitchIdentifier> {
    pairs.iter().map(|&(row, col)| SwitchIdentifier { row, col }).collect()
}

#[test]
fn no_held_switch_selects_the_default_layer() {
    let layout = Layout::default();
    assert_eq!(layout.layer(&ids(&[])), Layer::Default);
    assert_eq!(layout.layer(&ids(&[(0, 0), (2, 11)])), Layer::Default);
}

#[test]
fn thumb_keys_select_their_layers() {
    let layout = Layout::default();
    assert_eq!(layout.layer(&ids(&[(3, 7)])), Layer::Lower);
    assert_eq!(layout.layer(&ids(&[(3, 8)])), Layer::Raise);
    assert_eq!(layout.layer(&ids(&[(0, 3), (3, 7)])), Layer::Lower);
}

#[test]
fn the_higher_ranked_layer_wins() {
    let layout = Layout::default();
    assert_eq!(layout.layer(&ids(&[(3, 7), (3, 8)])), Layer::Raise);
    assert_eq!(layout.layer(&ids(&[(3, 8), (3, 7)])), Layer::Raise);
}

#[test]
fn default_layer_is_the_bottom_one() {
    assert_eq!(Layer::default(), Layer::Default);
}
