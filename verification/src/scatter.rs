//! The batched read set for the hot polling path.
//!
//! Field addresses are registered during enumeration; one execute call per
//! cycle fills every registered entry from the image, and the sampler then
//! reads only cached values. A value can be read only once the batch has
//! been executed after the address was registered: until then the entry
//! holds nothing and reading it fails.

use vstd::prelude::*;

use crate::errors::ProbeError;
use crate::mem::le_bytes_to_int;
use crate::mem::i32_of_u32_bits;
use crate::mem::lemma_le_bytes_bound;
use crate::mem::le_to_u64;
use crate::mem::pow256;
use crate::mem::MemoryImage;
use crate::players::Rotation2;

verus! {

/// One registered read: a foreign address, the width of the field, and the
/// bytes of the last execute, if it reached them.
pub struct ScatterEntry {
    pub addr: u64,
    pub len: u64,
    pub value: Option<Vec<u8>>,
}

/// First registered entry for an address.
pub open spec fn lookup_spec(es: Seq<ScatterEntry>, addr: u64) -> Option<ScatterEntry>
    decreases es.len(),
{
    if es.len() == 0 {
        None
    } else if es[0].addr == addr {
        Some(es[0])
    } else {
        lookup_spec(es.drop_first(), addr)
    }
}

/// A set of pending and cached reads, scoped to one polling session.
pub struct ScatterBatch {
    pub entries: Vec<ScatterEntry>,
}

impl ScatterBatch {
    /// The cached bytes for an address, if its entry was filled.
    pub open spec fn cached_bytes(self, addr: u64) -> Option<Seq<u8>> {
        match lookup_spec(self.entries@, addr) {
            Some(e) => match e.value {
                Some(v) => Some(v@),
                None => None,
            },
            None => None,
        }
    }

    /// The cached signed 32-bit field at an address.
    pub open spec fn cached_i32_spec(self, addr: u64) -> Option<i32> {
        match self.cached_bytes(addr) {
            Some(b) => if b.len() == 4 {
                Some(i32_of_u32_bits(le_bytes_to_int(b)) as i32)
            } else {
                None
            },
            None => None,
        }
    }

    /// The cached two-component orientation field at an address.
    pub open spec fn cached_rotation_spec(self, addr: u64) -> Option<Rotation2> {
        match self.cached_bytes(addr) {
            Some(b) => if b.len() == 8 {
                Some(
                    Rotation2 {
                        x_bits: le_bytes_to_int(b.take(4)) as u32,
                        y_bits: le_bytes_to_int(b.skip(4)) as u32,
                    },
                )
            } else {
                None
            },
            None => None,
        }
    }

    pub fn new() -> (r: ScatterBatch)
        ensures
            r.entries@.len() == 0,
    {
        ScatterBatch { entries: Vec::new() }
    }

    /// Register one field for the next execute. The entry starts unfilled:
    /// its value cannot be read before an execute.
    pub fn prepare(&mut self, addr: u64, len: u64)
        ensures
            final(self).entries@ == old(self).entries@.push(
                ScatterEntry { addr, len, value: None },
            ),
    {
        self.entries.push(ScatterEntry { addr, len, value: None });
    }

    /// One round trip: fill every registered entry from the image; an entry
    /// whose range is not readable stays unfilled for this cycle.
    pub fn execute(&mut self, m: &MemoryImage)
        requires
            m.wf(),
        ensures
            final(self).entries@.len() == old(self).entries@.len(),
            forall|i: int|
                0 <= i < old(self).entries@.len() ==> {
                    let oe = old(self).entries@[i];
                    let ne = #[trigger] final(self).entries@[i];
                    &&& ne.addr == oe.addr
                    &&& ne.len == oe.len
                    &&& if m.readable(oe.addr, oe.len) {
                        ne.value matches Some(v) && v@ == m.read_spec(oe.addr, oe.len)
                    } else {
                        ne.value is None
                    }
                },
    {
        let n = self.entries.len();
        let mut out: Vec<ScatterEntry> = Vec::new();
        let mut i: usize = 0;
        while i < n
            invariant
                m.wf(),
                n == self.entries@.len(),
                i <= n,
                out@.len() == i,
                forall|j: int|
                    0 <= j < i ==> {
                        let oe = self.entries@[j];
                        let ne = #[trigger] out@[j];
                        &&& ne.addr == oe.addr
                        &&& ne.len == oe.len
                        &&& if m.readable(oe.addr, oe.len) {
                            ne.value matches Some(v) && v@ == m.read_spec(oe.addr, oe.len)
                        } else {
                            ne.value is None
                        }
                    },
            decreases n - i,
        {
            let addr = self.entries[i].addr;
            let len = self.entries[i].len;
            let value = m.read_bytes(addr, len);
            out.push(ScatterEntry { addr, len, value });
            i += 1;
        }
        self.entries = out;
    }

    fn lookup(&self, addr: u64) -> (r: Option<&ScatterEntry>)
        ensures
            match r {
                Some(e) => lookup_spec(self.entries@, addr) == Some(*e),
                None => lookup_spec(self.entries@, addr) is None,
            },
    {
        let mut i: usize = 0;
        proof {
            assert(self.entries@.skip(0) =~= self.entries@);
        }
        while i < self.entries.len()
            invariant
                i <= self.entries@.len(),
                lookup_spec(self.entries@, addr) == lookup_spec(
                    self.entries@.skip(i as int),
                    addr,
                ),
            decreases self.entries@.len() - i,
        {
            proof {
                assert(self.entries@.skip(i as int)[0] == self.entries@[i as int]);
                assert(self.entries@.skip(i as int).drop_first() =~= self.entries@.skip(
                    i as int + 1,
                ));
            }
            if self.entries[i].addr == addr {
                return Some(&self.entries[i]);
            }
            i += 1;
        }
        None
    }

    /// Read a cached signed 32-bit field; fails when the address was never
    /// registered or the last execute did not fill it.
    pub fn read_i32_cached(&self, addr: u64) -> (r: Result<i32, ProbeError>)
        ensures
            match self.cached_i32_spec(addr) {
                Some(v) => r == Ok::<i32, ProbeError>(v),
                None => r == Err::<i32, ProbeError>(ProbeError::MemoryRead { addr, len: 4 }),
            },
    {
        match self.lookup(addr) {
            Some(e) => match &e.value {
                Some(v) => {
                    if v.len() != 4 {
                        return Err(ProbeError::MemoryRead { addr, len: 4 });
                    }
                    let u = le_to_u64(v);
                    proof {
                        lemma_le_bytes_bound(v@);
                        reveal_with_fuel(pow256, 5);
                    }
                    if u >= 0x8000_0000 {
                        Ok(-((0xFFFF_FFFFu64 - u) as i32) - 1)
                    } else {
                        Ok(u as i32)
                    }
                },
                None => Err(ProbeError::MemoryRead { addr, len: 4 }),
            },
            None => Err(ProbeError::MemoryRead { addr, len: 4 }),
        }
    }

    /// Read a cached orientation field; fails when the address was never
    /// registered or the last execute did not fill it.
    pub fn read_rotation_cached(&self, addr: u64) -> (r: Result<Rotation2, ProbeError>)
        ensures
            match self.cached_rotation_spec(addr) {
                Some(v) => r == Ok::<Rotation2, ProbeError>(v),
                None => r == Err::<Rotation2, ProbeError>(
                    ProbeError::MemoryRead { addr, len: 8 },
                ),
            },
    {
        match self.lookup(addr) {
            Some(e) => match &e.value {
                Some(v) => {
                    if v.len() != 8 {
                        return Err(ProbeError::MemoryRead { addr, len: 8 });
                    }
                    let mut lo: Vec<u8> = Vec::new();
                    lo.push(v[0]);
                    lo.push(v[1]);
                    lo.push(v[2]);
                    lo.push(v[3]);
                    let mut hi: Vec<u8> = Vec::new();
                    hi.push(v[4]);
                    hi.push(v[5]);
                    hi.push(v[6]);
                    hi.push(v[7]);
                    proof {
                        assert(lo@ =~= v@.take(4));
                        assert(hi@ =~= v@.skip(4));
                        lemma_le_bytes_bound(lo@);
                        lemma_le_bytes_bound(hi@);
                        reveal_with_fuel(pow256, 5);
                    }
                    let x = le_to_u64(&lo);
                    let y = le_to_u64(&hi);
                    Ok(Rotation2 { x_bits: x as u32, y_bits: y as u32 })
                },
                None => Err(ProbeError::MemoryRead { addr, len: 8 }),
            },
            None => Err(ProbeError::MemoryRead { addr, len: 8 }),
        }
    }
}

} // verus!
