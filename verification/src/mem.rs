//! Snapshot model of foreign memory.
//!
//! The engine never owns the foreign objects it inspects; it only ever sees
//! bytes that a driver has fetched. A [`MemoryImage`] is that set of fetched
//! bytes: a collection of non-overlapping regions of the foreign virtual
//! address space. Every other component states its contract over
//! [`MemoryImage::byte_at`], the per-address mathematical view of the image.

use vstd::prelude::*;

verus! {

/// One contiguous run of fetched foreign bytes.
pub struct Region {
    pub base: u64,
    pub bytes: Vec<u8>,
}

impl Region {
    /// The region does not wrap around the end of the address space.
    pub open spec fn wf(self) -> bool {
        self.base + self.bytes@.len() <= u64::MAX + 1
    }

    /// `addr` falls inside this region.
    pub open spec fn contains(self, addr: u64) -> bool {
        self.base <= addr < self.base + self.bytes@.len()
    }
}

/// First-match byte lookup over a sequence of regions.
pub open spec fn byte_at_from(rs: Seq<Region>, addr: u64) -> Option<u8>
    decreases rs.len(),
{
    if rs.len() == 0 {
        None
    } else if rs[0].contains(addr) {
        Some(rs[0].bytes@[addr - rs[0].base])
    } else {
        byte_at_from(rs.drop_first(), addr)
    }
}

/// An existing region shares no address with the range `[base, base+len)`.
pub open spec fn clear_of_region(r: Region, base: u64, len: int) -> bool {
    ||| r.bytes@.len() == 0
    ||| len == 0
    ||| r.base + r.bytes@.len() <= base
    ||| base + len <= r.base
}

/// Two regions share no address.
pub open spec fn disjoint_regions(a: Region, b: Region) -> bool {
    ||| a.bytes@.len() == 0
    ||| b.bytes@.len() == 0
    ||| a.base + a.bytes@.len() <= b.base
    ||| b.base + b.bytes@.len() <= a.base
}

/// A snapshot of part of a foreign process's address space.
pub struct MemoryImage {
    pub regions: Vec<Region>,
}

impl MemoryImage {
    /// All regions are in-range and pairwise disjoint, so every mapped
    /// address has exactly one value.
    pub open spec fn wf(self) -> bool {
        &&& forall|i: int| 0 <= i < self.regions@.len() ==> (#[trigger] self.regions@[i]).wf()
        &&& forall|i: int, j: int|
            0 <= i < j < self.regions@.len() ==> disjoint_regions(
                #[trigger] self.regions@[i],
                #[trigger] self.regions@[j],
            )
    }

    /// The byte the image holds for `addr`, if any.
    pub open spec fn byte_at(self, addr: u64) -> Option<u8> {
        byte_at_from(self.regions@, addr)
    }

    /// All of `[addr, addr + len)` lies in the address space and is mapped.
    pub open spec fn readable(self, addr: u64, len: u64) -> bool {
        forall|k: int|
            0 <= k < len ==> addr + k <= u64::MAX && (#[trigger] self.byte_at(
                (addr + k) as u64,
            )) is Some
    }

    /// The bytes of `[addr, addr + len)`; meaningful only when `readable`.
    pub open spec fn read_spec(self, addr: u64, len: u64) -> Seq<u8> {
        Seq::new(len as nat, |k: int| self.byte_at((addr + k) as u64)->Some_0)
    }

    pub fn new() -> (r: MemoryImage)
        ensures
            r.wf(),
            forall|a: u64| #[trigger] r.byte_at(a) is None,
    {
        MemoryImage { regions: Vec::new() }
    }

    /// Add fetched bytes for `[base, base + bytes.len())`. Accepted exactly
    /// when the range does not wrap and overlaps no region already present;
    /// refused (returns `false`) with the image unchanged otherwise.
    pub fn add_region(&mut self, base: u64, bytes: Vec<u8>) -> (ok: bool)
        requires
            old(self).wf(),
        ensures
            final(self).wf(),
            ok <==> (bytes@.len() == 0 || (base + bytes@.len() <= u64::MAX + 1 && forall|i: int|
                0 <= i < old(self).regions@.len() ==> clear_of_region(
                    #[trigger] old(self).regions@[i],
                    base,
                    bytes@.len() as int,
                ))),
            ok ==> base + bytes@.len() <= u64::MAX + 1,
            ok ==> forall|a: u64|
                base <= a < base + bytes@.len() ==> #[trigger] final(self).byte_at(a) == Some(
                    bytes@[a - base],
                ),
            ok ==> forall|a: u64|
                !(base <= a < base + bytes@.len()) ==> #[trigger] final(self).byte_at(a) == old(
                    self,
                ).byte_at(a),
            !ok ==> *final(self) == *old(self),
    {
        let ghost bv = bytes@;
        if bytes.len() == 0 {
            return true;
        }
        let len_u64: u64 = bytes.len() as u64;
        let last = match base.checked_add(len_u64 - 1) {
            Some(l) => l,
            None => {
                return false;
            },
        };
        let new_region = Region { base, bytes };
        let mut i: usize = 0;
        while i < self.regions.len()
            invariant
                old(self).wf(),
                *self == *old(self),
                i <= self.regions@.len(),
                new_region.base == base,
                new_region.wf(),
                new_region.bytes@ == bv,
                bv == bytes@,
                new_region.bytes@.len() >= 1,
                last == base + new_region.bytes@.len() - 1,
                forall|j: int|
                    0 <= j < i ==> disjoint_regions(#[trigger] self.regions@[j], new_region),
                forall|j: int|
                    0 <= j < i ==> clear_of_region(
                        #[trigger] self.regions@[j],
                        base,
                        new_region.bytes@.len() as int,
                    ),
            decreases self.regions@.len() - i,
        {
            let r_base = self.regions[i].base;
            let r_len = self.regions[i].bytes.len();
            if r_len > 0 {
                let r_last = r_base + (r_len as u64 - 1);
                if base <= r_last && r_base <= last {
                    proof {
                        assert(bv.len() >= 1);
                        assert(!clear_of_region(
                            old(self).regions@[i as int],
                            base,
                            bv.len() as int,
                        ));
                    }
                    return false;
                }
            }
            proof {
                assert(clear_of_region(
                    self.regions@[i as int],
                    base,
                    new_region.bytes@.len() as int,
                ));
            }
            i += 1;
        }
        proof {
            assert forall|a: u64| #[trigger] byte_at_from(self.regions@.push(new_region), a)
                == if byte_at_from(self.regions@, a) is Some {
                    byte_at_from(self.regions@, a)
                } else if new_region.contains(a) {
                    Some(new_region.bytes@[a - base])
                } else {
                    None
                } by {
                lemma_byte_at_push_at(self.regions@, new_region, a);
            }
            assert forall|a: u64| base <= a < base + new_region.bytes@.len()
                implies byte_at_from(self.regions@, a) is None by {
                assert forall|j: int| 0 <= j < self.regions@.len()
                    implies !(#[trigger] self.regions@[j]).contains(a) by {
                    assert(disjoint_regions(self.regions@[j], new_region));
                }
                lemma_none_when_all_miss(self.regions@, a);
            }
        }
        self.regions.push(new_region);
        true
    }

    /// Exact lookup of one byte.
    pub fn byte_lookup(&self, addr: u64) -> (r: Option<u8>)
        requires
            self.wf(),
        ensures
            r == self.byte_at(addr),
    {
        let mut i: usize = 0;
        proof {
            assert(self.regions@.skip(0) =~= self.regions@);
        }
        while i < self.regions.len()
            invariant
                self.wf(),
                i <= self.regions@.len(),
                byte_at_from(self.regions@, addr) == byte_at_from(
                    self.regions@.skip(i as int),
                    addr,
                ),
            decreases self.regions@.len() - i,
        {
            let r_base = self.regions[i].base;
            let r_len = self.regions[i].bytes.len();
            proof {
                assert(self.regions@.skip(i as int)[0] == self.regions@[i as int]);
            }
            if r_base <= addr && addr - r_base < r_len as u64 {
                return Some(self.regions[i].bytes[(addr - r_base) as usize]);
            }
            proof {
                assert(self.regions@.skip(i as int).drop_first() =~= self.regions@.skip(
                    i as int + 1,
                ));
            }
            i += 1;
        }
        None
    }

    /// Read `len` bytes at `addr`; `None` exactly when some byte is missing.
    pub fn read_bytes(&self, addr: u64, len: u64) -> (r: Option<Vec<u8>>)
        requires
            self.wf(),
        ensures
            match r {
                Some(v) => self.readable(addr, len) && v@ == self.read_spec(addr, len),
                None => !self.readable(addr, len),
            },
    {
        let mut out: Vec<u8> = Vec::new();
        let mut k: u64 = 0;
        while k < len
            invariant
                self.wf(),
                k <= len,
                out@.len() == k,
                forall|j: int|
                    0 <= j < k ==> addr + j <= u64::MAX && (#[trigger] self.byte_at(
                        (addr + j) as u64,
                    )) is Some && out@[j] == self.byte_at((addr + j) as u64)->Some_0,
            decreases len - k,
        {
            let a = match addr.checked_add(k) {
                Some(a) => a,
                None => {
                    proof {
                        let kk = k as int;
                        assert(addr + kk > u64::MAX);
                        assert(!(addr + kk <= u64::MAX && self.byte_at((addr + kk) as u64) is Some));
                        assert(!self.readable(addr, len));
                    }
                    return None;
                },
            };
            match self.byte_lookup(a) {
                Some(b) => out.push(b),
                None => {
                    proof {
                        let kk = k as int;
                        assert(a == (addr + kk) as u64);
                        assert(!(addr + kk <= u64::MAX && self.byte_at((addr + kk) as u64) is Some));
                        assert(!self.readable(addr, len));
                    }
                    return None;
                },
            }
            k += 1;
        }
        proof {
            assert(out@ =~= self.read_spec(addr, len));
        }
        Some(out)
    }
}

/// The integer a byte sequence denotes in little-endian order.
pub open spec fn le_bytes_to_int(s: Seq<u8>) -> int
    decreases s.len(),
{
    if s.len() == 0 {
        0
    } else {
        s[0] + 256 * le_bytes_to_int(s.drop_first())
    }
}

/// `256^n`, the number of values of an `n`-byte field.
pub open spec fn pow256(n: nat) -> int
    decreases n,
{
    if n == 0 {
        1
    } else {
        256 * pow256((n - 1) as nat)
    }
}

pub proof fn lemma_le_bytes_bound(s: Seq<u8>)
    ensures
        0 <= le_bytes_to_int(s) < pow256(s.len() as nat),
    decreases s.len(),
{
    if s.len() > 0 {
        lemma_le_bytes_bound(s.drop_first());
    }
}

/// A signed 32-bit value read as its unsigned two's-complement bits.
pub open spec fn i32_of_u32_bits(u: int) -> int {
    if u < 0x8000_0000 {
        u
    } else {
        u - 0x1_0000_0000
    }
}

impl MemoryImage {
    /// The address-sized value at `addr`, little-endian.
    pub open spec fn read_u64_spec(self, addr: u64) -> Option<u64> {
        if self.readable(addr, 8) {
            Some(le_bytes_to_int(self.read_spec(addr, 8)) as u64)
        } else {
            None
        }
    }

    /// The signed 32-bit value at `addr`, little-endian two's complement.
    pub open spec fn read_i32_spec(self, addr: u64) -> Option<i32> {
        if self.readable(addr, 4) {
            Some(i32_of_u32_bits(le_bytes_to_int(self.read_spec(addr, 4))) as i32)
        } else {
            None
        }
    }

    /// The single byte at `addr`.
    pub open spec fn read_u8_spec(self, addr: u64) -> Option<u8> {
        self.byte_at(addr)
    }

    pub fn read_u64(&self, addr: u64) -> (r: Option<u64>)
        requires
            self.wf(),
        ensures
            r == self.read_u64_spec(addr),
    {
        match self.read_bytes(addr, 8) {
            Some(b) => Some(le_to_u64(&b)),
            None => None,
        }
    }

    pub fn read_i32(&self, addr: u64) -> (r: Option<i32>)
        requires
            self.wf(),
        ensures
            r == self.read_i32_spec(addr),
    {
        match self.read_bytes(addr, 4) {
            Some(b) => {
                let u = le_to_u64(&b);
                proof {
                    lemma_le_bytes_bound(b@);
                    reveal_with_fuel(pow256, 5);
                }
                if u >= 0x8000_0000 {
                    Some(-((0xFFFF_FFFFu64 - u) as i32) - 1)
                } else {
                    Some(u as i32)
                }
            },
            None => None,
        }
    }

    pub fn read_u8(&self, addr: u64) -> (r: Option<u8>)
        requires
            self.wf(),
        ensures
            r == self.read_u8_spec(addr),
    {
        self.byte_lookup(addr)
    }
}

/// Assemble up to eight little-endian bytes into an integer.
pub fn le_to_u64(b: &Vec<u8>) -> (r: u64)
    requires
        b@.len() <= 8,
    ensures
        r == le_bytes_to_int(b@),
{
    let n = b.len();
    let mut val: u64 = 0;
    let mut i: usize = n;
    proof {
        assert(b@.skip(n as int) =~= Seq::<u8>::empty());
        lemma_le_bytes_bound(b@.skip(n as int));
        reveal_with_fuel(pow256, 9);
    }
    while i > 0
        invariant
            i <= n,
            n == b@.len() <= 8,
            val == le_bytes_to_int(b@.skip(i as int)),
            0 <= val < pow256((n - i) as nat),
        decreases i,
    {
        proof {
            assert(b@.skip(i as int - 1)[0] == b@[i as int - 1]);
            assert(b@.skip(i as int - 1).drop_first() =~= b@.skip(i as int));
            lemma_le_bytes_bound(b@.skip(i as int - 1));
            reveal_with_fuel(pow256, 9);
            assert(pow256((n - i) as nat) <= pow256(7)) by {
                reveal_with_fuel(pow256, 9);
                lemma_pow256_monotone((n - i) as nat, 7);
            }
        }
        val = val * 256 + (b[i - 1] as u64);
        i -= 1;
    }
    proof {
        assert(b@.skip(0) =~= b@);
    }
    val
}

proof fn lemma_pow256_monotone(a: nat, b: nat)
    requires
        a <= b,
    ensures
        pow256(a) <= pow256(b),
    decreases b,
{
    if a < b {
        lemma_pow256_monotone(a, (b - 1) as nat);
        assert(pow256(b) == 256 * pow256((b - 1) as nat));
        assert(pow256((b - 1) as nat) >= 1) by {
            lemma_pow256_pos((b - 1) as nat);
        }
    }
}

proof fn lemma_pow256_pos(n: nat)
    ensures
        pow256(n) >= 1,
    decreases n,
{
    if n > 0 {
        lemma_pow256_pos((n - 1) as nat);
    }
}

/// The address-sized elements of a foreign array, read front to back; the
/// first unreadable element fails the whole read.
pub open spec fn read_array_from(m: MemoryImage, ptr: u64, n: nat) -> Result<
    Seq<u64>,
    crate::errors::ProbeError,
>
    decreases n,
{
    if n == 0 {
        Ok(Seq::empty())
    } else {
        match m.read_u64_spec(ptr) {
            None => Err(crate::errors::ProbeError::MemoryRead { addr: ptr, len: 8 }),
            Some(v) => match read_array_from(m, ptr.wrapping_add(8), (n - 1) as nat) {
                Ok(rest) => Ok(seq![v].add(rest)),
                Err(e) => Err(e),
            },
        }
    }
}

impl MemoryImage {
    /// Read a foreign pointer array of `array_size` elements into a native
    /// buffer.
    pub fn mem_read_array_into_buffer(&self, array_ptr: u64, array_size: usize) -> (r: Result<
        Vec<u64>,
        crate::errors::ProbeError,
    >)
        requires
            self.wf(),
        ensures
            match read_array_from(*self, array_ptr, array_size as nat) {
                Ok(vals) => r matches Ok(v) && v@ == vals,
                Err(e) => r == Err::<Vec<u64>, crate::errors::ProbeError>(e),
            },
    {
        let mut out: Vec<u64> = Vec::new();
        let mut cur: u64 = array_ptr;
        let mut i: usize = 0;
        proof {
            match read_array_from(*self, array_ptr, array_size as nat) {
                Ok(vals) => {
                    assert(Seq::<u64>::empty().add(vals) =~= vals);
                },
                Err(_) => {},
            }
        }
        while i < array_size
            invariant
                self.wf(),
                i <= array_size,
                out@.len() == i,
                read_array_from(*self, array_ptr, array_size as nat) == match read_array_from(
                    *self,
                    cur,
                    (array_size - i) as nat,
                ) {
                    Ok(rest) => Ok::<Seq<u64>, crate::errors::ProbeError>(out@.add(rest)),
                    Err(e) => Err::<Seq<u64>, crate::errors::ProbeError>(e),
                },
            decreases array_size - i,
        {
            match self.read_u64(cur) {
                Some(v) => {
                    proof {
                        let rest_n = (array_size - i - 1) as nat;
                        match read_array_from(*self, cur.wrapping_add(8), rest_n) {
                            Ok(rest) => {
                                assert(out@.add(seq![v].add(rest)) =~= out@.push(v).add(rest));
                            },
                            Err(_) => {},
                        }
                    }
                    out.push(v);
                    cur = cur.wrapping_add(8);
                },
                None => {
                    return Err(crate::errors::ProbeError::MemoryRead { addr: cur, len: 8 });
                },
            }
            i += 1;
        }
        proof {
            assert(out@.add(Seq::<u64>::empty()) =~= out@);
        }
        Ok(out)
    }
}

/// If no region in `rs` contains `addr`, the lookup misses.
proof fn lemma_none_when_all_miss(rs: Seq<Region>, addr: u64)
    requires
        forall|j: int| 0 <= j < rs.len() ==> !(#[trigger] rs[j]).contains(addr),
    ensures
        byte_at_from(rs, addr) is None,
    decreases rs.len(),
{
    if rs.len() > 0 {
        lemma_none_when_all_miss(rs.drop_first(), addr);
    }
}

/// Appending a region only affects addresses that no earlier region holds.
proof fn lemma_byte_at_push_at(rs: Seq<Region>, r: Region, a: u64)
    ensures
        byte_at_from(rs.push(r), a) == if byte_at_from(rs, a) is Some {
            byte_at_from(rs, a)
        } else if r.contains(a) {
            Some(r.bytes@[a - r.base])
        } else {
            None
        },
    decreases rs.len(),
{
    reveal_with_fuel(byte_at_from, 3);
    if rs.len() == 0 {
        assert(rs.push(r)[0] == r);
        assert(rs.push(r).drop_first() =~= Seq::<Region>::empty());
        assert(byte_at_from(rs.push(r).drop_first(), a) is None);
    } else {
        lemma_byte_at_push_at(rs.drop_first(), r, a);
        assert(rs.push(r)[0] == rs[0]);
        assert(rs.push(r).drop_first() =~= rs.drop_first().push(r));
        assert(byte_at_from(rs.push(r).drop_first(), a) == byte_at_from(
            rs.drop_first().push(r),
            a,
        ));
    }
}

} // verus!
