use vstd::prelude::*;

use crate::switches::SwitchIdentifier;

verus! {

// The layer rules of the layout: holding the left thumb key selects the
// Lower layer, the right thumb key the Raise layer, and when both are held
// the higher-ranked layer wins.  The key-code tables themselves are a pure
// lookup owned by the keyboard library that consumes this crate's layer
// decisions, and carry no logic of their own.

/// The layers a key press can select, lowest rank first.
#[derive(Clone, Copy, Debug, PartialEq, Eq, Structural)]
pub enum Layer {
    Default,
    Lower,
    Raise,
}

impl Default for Layer {
    fn default() -> (r: Layer)
        ensures
            r == Layer::Default,
    {
        Layer::Default
    }
}

/// Rank of a layer: a higher-ranked layer wins when several are selected.
pub open spec fn spec_layer_rank(l: Layer) -> int {
    match l {
        Layer::Default => 0,
        Layer::Lower => 1,
        Layer::Raise => 2,
    }
}

/// The higher-ranked of two layers.
pub open spec fn spec_layer_max(a: Layer, b: Layer) -> Layer {
    if spec_layer_rank(a) >= spec_layer_rank(b) {
        a
    } else {
        b
    }
}

/// The layer one held switch selects: the two thumb keys of the bottom row
/// select Lower and Raise, every other switch the Default layer.
pub open spec fn spec_switch_layer(id: SwitchIdentifier) -> Layer {
    if id.row == 3 && id.col == 7 {
        Layer::Lower
    } else if id.row == 3 && id.col == 8 {
        Layer::Raise
    } else {
        Layer::Default
    }
}

/// The layer a set of held switches selects: the highest-ranked among the
/// layers each switch selects, Default when none is held.
pub open spec fn spec_active_layer(ids: Seq<SwitchIdentifier>) -> Layer
    decreases ids.len(),
{
    if ids.len() == 0 {
        Layer::Default
    } else {
        spec_layer_max(spec_active_layer(ids.drop_last()), spec_switch_layer(ids.last()))
    }
}

/// The layer rules of this keyboard.
#[derive(Clone, Copy, Debug, Default)]
pub struct Layout {}

impl Layout {
    /// The layer the currently held switches select.
    pub fn layer(&self, switches: &Vec<SwitchIdentifier>) -> (r: Layer)
        ensures
            r == spec_active_layer(switches@),
    {
        let mut acc: Layer = Layer::Default;
        let mut i: usize = 0;
        let n: usize = switches.len();
        while i < n
            invariant
                i <= n,
                n == switches@.len(),
                acc == spec_active_layer(switches@.take(i as int)),
            decreases n - i,
        {
            let id = switches[i];
            let selected: Layer = if id.row == 3 && id.col == 7 {
                Layer::Lower
            } else if id.row == 3 && id.col == 8 {
                Layer::Raise
            } else {
                Layer::Default
            };
            let acc_rank: u8 = match acc {
                Layer::Default => 0,
                Layer::Lower => 1,
                Layer::Raise => 2,
            };
            let sel_rank: u8 = match selected {
                Layer::Default => 0,
                Layer::Lower => 1,
                Layer::Raise => 2,
            };
            if sel_rank > acc_rank {
                acc = selected;
            }
            proof {
                assert(switches@.take(i + 1).drop_last() =~= switches@.take(i as int));
                assert(switches@.take(i + 1).last() == switches@[i as int]);
            }
            i = i + 1;
        }
        proof {
            assert(switches@.take(n as int) =~= switches@);
        }
        acc
    }
}

} // verus!
