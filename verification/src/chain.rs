//! Pointer-chain resolution.
//!
//! A pointer chain is an ordered list of byte offsets. Resolving it from a
//! base address performs one address-sized dereference per offset: read the
//! value at `current + offset`, make it the new `current`. The whole chain
//! fails as soon as one read fails; offsets are added with wrap-around, as
//! the foreign pointers themselves behave.

use vstd::prelude::*;

use crate::errors::ProbeError;
use crate::mem::MemoryImage;

verus! {

/// The mathematical result of resolving `offs` from `base` in `m`: the final
/// address, or the address whose dereference failed.
pub open spec fn chain_spec(m: MemoryImage, base: u64, offs: Seq<u64>) -> Result<u64, u64>
    decreases offs.len(),
{
    if offs.len() == 0 {
        Ok(base)
    } else {
        let a = base.wrapping_add(offs[0]);
        match m.read_u64_spec(a) {
            Some(v) => chain_spec(m, v, offs.drop_first()),
            None => Err(a),
        }
    }
}

/// The empty chain resolves to the base address unchanged.
pub proof fn lemma_chain_empty(m: MemoryImage, base: u64)
    ensures
        chain_spec(m, base, Seq::<u64>::empty()) == Ok::<u64, u64>(base),
{
}

/// Resolving `offs.push(o)` is resolving `offs` and then dereferencing once
/// more at `+ o`: chain resolution is exactly a manual sequential
/// dereference, one step per offset.
pub proof fn lemma_chain_snoc(m: MemoryImage, base: u64, offs: Seq<u64>, o: u64)
    ensures
        chain_spec(m, base, offs.push(o)) == match chain_spec(m, base, offs) {
            Ok(p) => match m.read_u64_spec(p.wrapping_add(o)) {
                Some(v) => Ok::<u64, u64>(v),
                None => Err::<u64, u64>(p.wrapping_add(o)),
            },
            Err(a) => Err::<u64, u64>(a),
        },
    decreases offs.len(),
{
    reveal_with_fuel(chain_spec, 3);
    if offs.len() == 0 {
        assert(offs.push(o)[0] == o);
        assert(offs.push(o).drop_first() =~= Seq::<u64>::empty());
        assert(chain_spec(m, base, offs.push(o).drop_first()) == chain_spec(
            m,
            base,
            Seq::<u64>::empty(),
        ));
    } else {
        assert(offs.push(o)[0] == offs[0]);
        assert(offs.push(o).drop_first() =~= offs.drop_first().push(o));
        let a = base.wrapping_add(offs[0]);
        match m.read_u64_spec(a) {
            Some(v) => {
                lemma_chain_snoc(m, v, offs.drop_first(), o);
            },
            None => {},
        }
    }
}

impl MemoryImage {
    /// Resolve a pointer chain; on failure reports the address that could
    /// not be dereferenced.
    pub fn mem_read_chain(&self, base: u64, offsets: &Vec<u64>) -> (r: Result<u64, ProbeError>)
        requires
            self.wf(),
        ensures
            match chain_spec(*self, base, offsets@) {
                Ok(p) => r == Ok::<u64, ProbeError>(p),
                Err(a) => r == Err::<u64, ProbeError>(ProbeError::MemoryRead { addr: a, len: 8 }),
            },
    {
        let mut cur = base;
        let mut i: usize = 0;
        proof {
            assert(offsets@.skip(0) =~= offsets@);
        }
        while i < offsets.len()
            invariant
                self.wf(),
                i <= offsets@.len(),
                chain_spec(*self, base, offsets@) == chain_spec(
                    *self,
                    cur,
                    offsets@.skip(i as int),
                ),
            decreases offsets@.len() - i,
        {
            proof {
                assert(offsets@.skip(i as int)[0] == offsets@[i as int]);
                assert(offsets@.skip(i as int).drop_first() =~= offsets@.skip(i as int + 1));
            }
            let a = cur.wrapping_add(offsets[i]);
            match self.read_u64(a) {
                Some(v) => {
                    cur = v;
                },
                None => {
                    return Err(ProbeError::MemoryRead { addr: a, len: 8 });
                },
            }
            i += 1;
        }
        proof {
            assert(offsets@.skip(offsets@.len() as int) =~= Seq::<u64>::empty());
        }
        Ok(cur)
    }
}

} // verus!
