//! The linear memory: unaligned 8-byte little-endian loads and stores at
//! masked 16-bit addresses. The guard tail of `MEM_BYTES` keeps every such
//! access in bounds, so a memory operation cannot fail.

use vstd::prelude::*;

verus! {

/// The 64-bit value the eight bytes at `a` hold, little-endian.
pub open spec fn mem_read8_s(m: Seq<u8>, a: int) -> u64
    recommends
        0 <= a,
        a + 8 <= m.len(),
{
    (m[a] as u64) | ((m[a + 1] as u64) << 8u64) | ((m[a + 2] as u64) << 16u64) | ((m[a + 3]
        as u64) << 24u64) | ((m[a + 4] as u64) << 32u64) | ((m[a + 5] as u64) << 40u64) | ((m[a + 6]
        as u64) << 48u64) | ((m[a + 7] as u64) << 56u64)
}

/// The memory after the eight bytes at `a` are replaced by `v`,
/// little-endian.
pub open spec fn mem_write8_s(m: Seq<u8>, a: int, v: u64) -> Seq<u8>
    recommends
        0 <= a,
        a + 8 <= m.len(),
{
    m.update(a, (v & 0xff) as u8).update(a + 1, ((v >> 8u64) & 0xff) as u8).update(
        a + 2,
        ((v >> 16u64) & 0xff) as u8,
    ).update(a + 3, ((v >> 24u64) & 0xff) as u8).update(a + 4, ((v >> 32u64) & 0xff) as u8).update(
        a + 5,
        ((v >> 40u64) & 0xff) as u8,
    ).update(a + 6, ((v >> 48u64) & 0xff) as u8).update(a + 7, ((v >> 56u64) & 0xff) as u8)
}

/// Every byte cut from a 64-bit value fits in eight bits.
proof fn lemma_byte_bounds(v: u64)
    by (bit_vector)
    ensures
        v & 0xff < 0x100,
        (v >> 8u64) & 0xff < 0x100,
        (v >> 16u64) & 0xff < 0x100,
        (v >> 24u64) & 0xff < 0x100,
        (v >> 32u64) & 0xff < 0x100,
        (v >> 40u64) & 0xff < 0x100,
        (v >> 48u64) & 0xff < 0x100,
        (v >> 56u64) & 0xff < 0x100,
{
}

/// Masking to 16 bits is reduction modulo 65536, and the result addresses
/// the guarded memory.
pub proof fn lemma_mask16(a: u64)
    by (bit_vector)
    ensures
        a & 0xffff == a % 0x10000,
        a & 0xffff < 0x10000,
{
}

/// Reads the eight bytes at `addr`, little-endian.
pub fn mem_read8(mem: &Vec<u8>, addr: usize) -> (v: u64)
    requires
        addr + 8 <= mem.len(),
    ensures
        v == mem_read8_s(mem@, addr as int),
{
    (mem[addr] as u64) | ((mem[addr + 1] as u64) << 8u64) | ((mem[addr + 2] as u64) << 16u64) | ((
    mem[addr + 3] as u64) << 24u64) | ((mem[addr + 4] as u64) << 32u64) | ((mem[addr + 5]
        as u64) << 40u64) | ((mem[addr + 6] as u64) << 48u64) | ((mem[addr + 7] as u64) << 56u64)
}

/// Writes `v` to the eight bytes at `addr`, little-endian.
pub fn mem_write8(mem: &mut Vec<u8>, addr: usize, v: u64)
    requires
        addr + 8 <= old(mem).len(),
    ensures
        final(mem)@ =~= mem_write8_s(old(mem)@, addr as int, v),
{
    proof {
        lemma_byte_bounds(v);
    }
    mem[addr] = (v & 0xff) as u8;
    mem[addr + 1] = ((v >> 8u64) & 0xff) as u8;
    mem[addr + 2] = ((v >> 16u64) & 0xff) as u8;
    mem[addr + 3] = ((v >> 24u64) & 0xff) as u8;
    mem[addr + 4] = ((v >> 32u64) & 0xff) as u8;
    mem[addr + 5] = ((v >> 40u64) & 0xff) as u8;
    mem[addr + 6] = ((v >> 48u64) & 0xff) as u8;
    mem[addr + 7] = ((v >> 56u64) & 0xff) as u8;
}

/// A store followed by a load of the same address gives the value back.
pub proof fn lemma_mem_round_trip(m: Seq<u8>, a: int, v: u64)
    requires
        0 <= a,
        a + 8 <= m.len(),
    ensures
        mem_read8_s(mem_write8_s(m, a, v), a) == v,
{
    lemma_byte_bounds(v);
    let m2 = mem_write8_s(m, a, v);
    assert(((v & 0xff) | (((v >> 8u64) & 0xff) << 8u64) | (((v >> 16u64) & 0xff) << 16u64) | (((v
        >> 24u64) & 0xff) << 24u64) | (((v >> 32u64) & 0xff) << 32u64) | (((v >> 40u64)
        & 0xff) << 40u64) | (((v >> 48u64) & 0xff) << 48u64) | (((v >> 56u64) & 0xff) << 56u64))
        == v) by (bit_vector);
    assert(m2[a] as u64 == v & 0xff);
    assert(m2[a + 1] as u64 == (v >> 8u64) & 0xff);
    assert(m2[a + 2] as u64 == (v >> 16u64) & 0xff);
    assert(m2[a + 3] as u64 == (v >> 24u64) & 0xff);
    assert(m2[a + 4] as u64 == (v >> 32u64) & 0xff);
    assert(m2[a + 5] as u64 == (v >> 40u64) & 0xff);
    assert(m2[a + 6] as u64 == (v >> 48u64) & 0xff);
    assert(m2[a + 7] as u64 == (v >> 56u64) & 0xff);
}

} // verus!
