use vstd::prelude::*;

verus! {

/// A runtime value. The one variant is a double-precision number, held as
/// the 64 bits of its IEEE 754 encoding; arithmetic on it and its decimal
/// text are the caller's to compute.
#[derive(Clone, Copy, Debug)]
pub enum Value {
    Double(u64),
}

impl Value {
    /// The bits of the number.
    pub open spec fn spec_bits(self) -> u64 {
        match self {
            Value::Double(bits) => bits,
        }
    }

    /// The bits of the number.
    pub fn bits(&self) -> (bits: u64)
        ensures
            bits == self.spec_bits(),
            *self == Value::Double(bits),
    {
        match self {
            Value::Double(bits) => *bits,
        }
    }
}

} // verus!
