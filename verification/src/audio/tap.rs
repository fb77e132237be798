//! Four-character codes and the descriptor records of the Core Audio tap.
use vstd::prelude::*;

verus! {

/// The big-endian number of four bytes: the first byte is the most
/// significant.
pub open spec fn spec_four_cc(code: [u8; 4]) -> u32 {
    (code[0] as int * 0x100_0000 + code[1] as int * 0x1_0000 + code[2] as int * 0x100
        + code[3] as int) as u32
}

/// A Core Audio four-character code: its four ASCII bytes read as a
/// big-endian number.
pub fn four_cc(code: [u8; 4]) -> (v: u32)
    ensures
        v == spec_four_cc(code),
        v as int == code[0] as int * 0x100_0000 + code[1] as int * 0x1_0000 + code[2] as int * 0x100
            + code[3] as int,
{
    let b0 = code[0] as u32;
    let b1 = code[1] as u32;
    let b2 = code[2] as u32;
    let b3 = code[3] as u32;
    b0 * 0x100_0000 + b1 * 0x1_0000 + b2 * 0x100 + b3
}

/// Names a property of an audio object: which property, in which scope,
/// of which element.
#[derive(Clone, Copy, Debug, PartialEq, Eq, Structural)]
pub struct AudioObjectPropertyAddress {
    pub selector: u32,
    pub scope: u32,
    pub element: u32,
}

/// Describes the audio component to look up.
#[derive(Clone, Copy, Debug, PartialEq, Eq, Structural)]
pub struct AudioComponentDescription {
    pub component_type: u32,
    pub component_sub_type: u32,
    pub component_manufacturer: u32,
    pub component_flags: u32,
    pub component_flags_mask: u32,
}

impl AudioComponentDescription {
    /// Apple's hardware abstraction layer output unit (`auou`, `ahal`,
    /// `appl`), with no flags.
    pub fn hal_output() -> (d: Self)
        ensures
            d.component_type == spec_four_cc([0x61, 0x75, 0x6f, 0x75]),
            d.component_sub_type == spec_four_cc([0x61, 0x68, 0x61, 0x6c]),
            d.component_manufacturer == spec_four_cc([0x61, 0x70, 0x70, 0x6c]),
            d.component_flags == 0,
            d.component_flags_mask == 0,
    {
        AudioComponentDescription {
            component_type: four_cc([0x61, 0x75, 0x6f, 0x75]),
            component_sub_type: four_cc([0x61, 0x68, 0x61, 0x6c]),
            component_manufacturer: four_cc([0x61, 0x70, 0x70, 0x6c]),
            component_flags: 0,
            component_flags_mask: 0,
        }
    }
}

} // verus!
