//! Accesses to memory-mapped registers, as data.
use vstd::prelude::*;

verus! {

/// One access to a memory-mapped register.
#[derive(Debug, Clone, Copy, PartialEq, Eq, Structural)]
pub enum MmioOp {
    /// Store `value`.
    Write { addr: u32, value: u32 },
    /// Read, clear the bits of `clear`, set the bits of `set`, store.
    Modify { addr: u32, clear: u32, set: u32 },
    /// Read and drop the value: lets an enable settle.
    ReadBack { addr: u32 },
    /// Read until the bits of `mask` are clear, at most `tries` times.
    AwaitClear { addr: u32, mask: u32, tries: u32 },
    /// Block for a time.
    DelayUs { us: u32 },
    /// Data synchronisation barrier.
    Barrier,
    /// Instruction synchronisation barrier.
    InstructionBarrier,
}

/// A field of `size` values at weight `weight` of a register's value is read back,
/// whatever stands below and above it.
pub proof fn lemma_field(v: int, weight: int, size: int, below: int, field: int, above: int)
    requires
        weight > 0,
        size > 0,
        0 <= below < weight,
        0 <= field < size,
        v == below + weight * (field + size * above),
    ensures
        v / weight % size == field,
        v / weight == field + size * above,
{
    let high = field + size * above;
    assert(v == high * weight + below) by (nonlinear_arith)
        requires
            v == below + weight * high,
    ;
    vstd::arithmetic::div_mod::lemma_fundamental_div_mod_converse(v, weight, high, below);
    assert(high == above * size + field) by (nonlinear_arith)
        requires
            high == field + size * above,
    ;
    vstd::arithmetic::div_mod::lemma_fundamental_div_mod_converse(high, size, above, field);
}

} // verus!
