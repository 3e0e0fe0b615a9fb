use vstd::prelude::*;

verus! {

/// The register file: sixteen 8-bit data registers, the address register
/// and a stack-pointer byte that the engine does not rely on.
#[derive(Debug, Clone, Copy)]
pub struct Registers {
    /// Data registers v0 to vF; vF doubles as the flag register.
    pub v: [u8; 16],
    /// Address register.
    pub i: u16,
    /// Stack pointer (the call stack of the machine is authoritative).
    pub sp: u8,
}

impl Registers {
    /// All registers zero.
    pub fn new() -> (r: Self)
        ensures
            r.v@ == Seq::new(16, |k: int| 0u8),
            r.i == 0,
            r.sp == 0,
    {
        let r = Registers { v: [0u8; 16], i: 0, sp: 0 };
        assert(r.v@ =~= Seq::new(16, |k: int| 0u8));
        r
    }
}

impl Default for Registers {
    fn default() -> (r: Self)
        ensures
            r.v@ == Seq::new(16, |k: int| 0u8),
            r.i == 0,
            r.sp == 0,
    {
        Self::new()
    }
}

} // verus!
