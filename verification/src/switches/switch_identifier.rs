use vstd::prelude::*;

verus! {

/// Identity of one physical key: its position in the switch matrix.
#[derive(Clone, Copy, Debug, PartialEq, Eq, Hash, Structural)]
pub struct SwitchIdentifier {
    pub row: u8,
    pub col: u8,
}

impl From<[u8; 2]> for SwitchIdentifier {
    fn from(value: [u8; 2]) -> (r: SwitchIdentifier) {
        SwitchIdentifier { row: value[0], col: value[1] }
    }
}

impl vstd::std_specs::convert::FromSpecImpl<[u8; 2]> for SwitchIdentifier {
    open spec fn obeys_from_spec() -> bool {
        true
    }

    open spec fn from_spec(value: [u8; 2]) -> SwitchIdentifier {
        SwitchIdentifier { row: value@[0], col: value@[1] }
    }
}

impl SwitchIdentifier {
    /// The two-byte wire form of an identifier: row then column.
    pub fn into_bytes(self) -> (r: [u8; 2])
        ensures
            r@ == seq![self.row, self.col],
    {
        [self.row, self.col]
    }
}

} // verus!
