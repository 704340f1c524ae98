use vstd::prelude::*;

use crate::error::HDLCError;

verus! {

/// Special character structure holding the encode and decode values.
///
/// # Default
///
/// * **FEND**  = 0x7E;
/// * **FESC**  = 0x7D;
/// * **TFEND** = 0x5E;
/// * **TFESC** = 0x5D;
/// * **OB1**   = 0x11;
/// * **TFOB1** = 0x31;
/// * **OB2**   = 0x13;
/// * **TFOB2** = 0x33;
#[derive(Debug, Copy, Clone, PartialEq, Eq, Structural)]
pub struct SpecialChars {
    /// Frame END. Byte that marks the beginning and end of a packet.
    pub fend: u8,
    /// Frame ESCape. Byte that marks the start of a swap byte.
    pub fesc: u8,
    /// Trade Frame END. Byte that is substituted for the FEND byte.
    pub tfend: u8,
    /// Trade Frame ESCape. Byte that is substituted for the FESC byte.
    pub tfesc: u8,
    /// Original Byte 1. Byte that will be substituted for the TFOB1 byte.
    pub ob1: u8,
    /// Trade byte substituted for Original Byte 1.
    pub tfob1: u8,
    /// Original Byte 2. Byte that will be substituted for the TFOB2 byte.
    pub ob2: u8,
    /// Trade byte substituted for Original Byte 2.
    pub tfob2: u8,
}

impl SpecialChars {
    /// All eight special character values are pairwise distinct.
    pub open spec fn distinct(self) -> bool {
        &&& self.fend != self.fesc
        &&& self.fend != self.tfend
        &&& self.fend != self.tfesc
        &&& self.fend != self.ob1
        &&& self.fend != self.tfob1
        &&& self.fend != self.ob2
        &&& self.fend != self.tfob2
        &&& self.fesc != self.tfend
        &&& self.fesc != self.tfesc
        &&& self.fesc != self.ob1
        &&& self.fesc != self.tfob1
        &&& self.fesc != self.ob2
        &&& self.fesc != self.tfob2
        &&& self.tfend != self.tfesc
        &&& self.tfend != self.ob1
        &&& self.tfend != self.tfob1
        &&& self.tfend != self.ob2
        &&& self.tfend != self.tfob2
        &&& self.tfesc != self.ob1
        &&& self.tfesc != self.tfob1
        &&& self.tfesc != self.ob2
        &&& self.tfesc != self.tfob2
        &&& self.ob1 != self.tfob1
        &&& self.ob1 != self.ob2
        &&& self.ob1 != self.tfob2
        &&& self.tfob1 != self.ob2
        &&& self.tfob1 != self.tfob2
        &&& self.ob2 != self.tfob2
    }

    /// The configuration assembled from eight raw byte values, in field order.
    pub open spec fn from_parts(
        fend: u8,
        fesc: u8,
        tfend: u8,
        tfesc: u8,
        ob1: u8,
        tfob1: u8,
        ob2: u8,
        tfob2: u8,
    ) -> SpecialChars {
        SpecialChars { fend, fesc, tfend, tfesc, ob1, tfob1, ob2, tfob2 }
    }

    /// Creates a new SpecialChars structure for encoding/decoding a packet.
    ///
    /// Succeeds exactly when the eight supplied values are pairwise distinct;
    /// otherwise fails with `DuplicateSpecialChar`.
    pub fn new(
        fend: u8,
        fesc: u8,
        tfend: u8,
        tfesc: u8,
        ob1: u8,
        tfob1: u8,
        ob2: u8,
        tfob2: u8,
    ) -> (r: Result<SpecialChars, HDLCError>)
        ensures
            (r == if SpecialChars::from_parts(fend, fesc, tfend, tfesc, ob1, tfob1, ob2, tfob2).distinct() {
                Ok::<SpecialChars, HDLCError>(
                    SpecialChars::from_parts(fend, fesc, tfend, tfesc, ob1, tfob1, ob2, tfob2),
                )
            } else {
                Err::<SpecialChars, HDLCError>(HDLCError::DuplicateSpecialChar)
            }),
    {
        let sc = SpecialChars { fend, fesc, tfend, tfesc, ob1, tfob1, ob2, tfob2 };
        if fend == fesc || fend == tfend || fend == tfesc || fend == ob1 || fend == tfob1
            || fend == ob2 || fend == tfob2 || fesc == tfend || fesc == tfesc || fesc == ob1
            || fesc == tfob1 || fesc == ob2 || fesc == tfob2 || tfend == tfesc || tfend == ob1
            || tfend == tfob1 || tfend == ob2 || tfend == tfob2 || tfesc == ob1 || tfesc == tfob1
            || tfesc == ob2 || tfesc == tfob2 || ob1 == tfob1 || ob1 == ob2 || ob1 == tfob2
            || tfob1 == ob2 || tfob1 == tfob2 || ob2 == tfob2
        {
            return Err(HDLCError::DuplicateSpecialChar);
        }
        Ok(sc)
    }
}

impl Default for SpecialChars {
    /// Creates the default SpecialChars structure for encoding/decoding a packet.
    fn default() -> (r: SpecialChars)
        ensures
            r == (SpecialChars {
                fend: 0x7E,
                fesc: 0x7D,
                tfend: 0x5E,
                tfesc: 0x5D,
                ob1: 0x11,
                tfob1: 0x31,
                ob2: 0x13,
                tfob2: 0x33,
            }),
            r.distinct(),
    {
        SpecialChars {
            fend: 0x7E,
            fesc: 0x7D,
            tfend: 0x5E,
            tfesc: 0x5D,
            ob1: 0x11,
            tfob1: 0x31,
            ob2: 0x13,
            tfob2: 0x33,
        }
    }
}

} // verus!
