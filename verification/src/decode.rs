//! Decoders for fixed-width foreign text buffers.
//!
//! Foreign name fields arrive as fixed-length byte buffers. A narrow buffer
//! is cut at the first zero byte and must be valid UTF-8; a wide buffer must
//! have even length, is read as little-endian two-byte units, cut at the
//! first zero unit, and must be valid UTF-16. Malformed input, an odd-length
//! wide buffer included, is reported as [`ProbeError::Decode`], never a
//! panic.

use vstd::prelude::*;

use crate::errors::ProbeError;

verus! {

/// The two foreign text layouts.
pub enum Encoding {
    UFT8,
    UNICODE,
}

/// What `str::from_utf8` accepts and returns for given bytes. The result
/// depends on the bytes alone.
pub uninterp spec fn utf8_decode(bytes: Seq<u8>) -> Option<Seq<char>>;

/// What `String::from_utf16` accepts and returns for given code units. The
/// result depends on the units alone.
pub uninterp spec fn utf16_decode(units: Seq<u16>) -> Option<Seq<char>>;

/// Relies on std::str::from_utf8: it succeeds exactly on valid UTF-8, and
/// the text it returns is a function of the bytes alone.
#[verifier::external_body]
fn utf8_to_string(bytes: &[u8]) -> (r: Option<String>)
    ensures
        r is Some <==> utf8_decode(bytes@) is Some,
        r is Some ==> r->Some_0@ == utf8_decode(bytes@)->Some_0,
{
    match std::str::from_utf8(bytes) {
        Ok(s) => Some(s.to_owned()),
        Err(_) => None,
    }
}

/// Relies on alloc::string::String::from_utf16: it succeeds exactly on valid
/// UTF-16, and the text it returns is a function of the code units alone.
#[verifier::external_body]
pub(crate) fn utf16_to_string(units: &Vec<u16>) -> (r: Option<String>)
    ensures
        r is Some <==> utf16_decode(units@) is Some,
        r is Some ==> r->Some_0@ == utf16_decode(units@)->Some_0,
{
    match String::from_utf16(units.as_slice()) {
        Ok(s) => Some(s),
        Err(_) => None,
    }
}

/// Length of the prefix before the first zero byte (the whole sequence if
/// none occurs).
pub open spec fn zero_prefix_len(s: Seq<u8>) -> int
    decreases s.len(),
{
    if s.len() == 0 {
        0
    } else if s[0] == 0 {
        0
    } else {
        1 + zero_prefix_len(s.drop_first())
    }
}

/// Length of the prefix before the first zero unit.
pub open spec fn zero_unit_prefix_len(s: Seq<u16>) -> int
    decreases s.len(),
{
    if s.len() == 0 {
        0
    } else if s[0] == 0 {
        0
    } else {
        1 + zero_unit_prefix_len(s.drop_first())
    }
}

/// The little-endian two-byte units of an even-length buffer.
pub open spec fn utf16_units(s: Seq<u8>) -> Seq<u16> {
    Seq::new((s.len() / 2) as nat, |k: int| (s[2 * k] + 256 * s[2 * k + 1]) as u16)
}

/// The narrow text a buffer denotes: its bytes up to the first zero,
/// decoded as UTF-8.
pub open spec fn narrow_text(s: Seq<u8>) -> Option<Seq<char>> {
    utf8_decode(s.take(zero_prefix_len(s)))
}

/// The wide text a buffer denotes: its two-byte units up to the first zero
/// unit, decoded as UTF-16. An odd-length buffer is malformed and denotes
/// nothing.
pub open spec fn wide_text(s: Seq<u8>) -> Option<Seq<char>> {
    if s.len() % 2 == 1 {
        None
    } else {
        utf16_decode(utf16_units(s).take(zero_unit_prefix_len(utf16_units(s))))
    }
}

pub(crate) fn find_zero_byte(b: &[u8]) -> (n: usize)
    ensures
        n == zero_prefix_len(b@),
{
    let mut i: usize = 0;
    proof {
        assert(b@.skip(0) =~= b@);
    }
    while i < b.len()
        invariant
            i <= b@.len(),
            zero_prefix_len(b@) == i + zero_prefix_len(b@.skip(i as int)),
        decreases b@.len() - i,
    {
        proof {
            assert(b@.skip(i as int)[0] == b@[i as int]);
            assert(b@.skip(i as int).drop_first() =~= b@.skip(i as int + 1));
        }
        if b[i] == 0 {
            return i;
        }
        i += 1;
    }
    i
}

pub(crate) fn find_zero_unit(u: &Vec<u16>) -> (n: usize)
    ensures
        n == zero_unit_prefix_len(u@),
{
    let mut i: usize = 0;
    proof {
        assert(u@.skip(0) =~= u@);
    }
    while i < u.len()
        invariant
            i <= u@.len(),
            zero_unit_prefix_len(u@) == i + zero_unit_prefix_len(u@.skip(i as int)),
        decreases u@.len() - i,
    {
        proof {
            assert(u@.skip(i as int)[0] == u@[i as int]);
            assert(u@.skip(i as int).drop_first() =~= u@.skip(i as int + 1));
        }
        if u[i] == 0 {
            return i;
        }
        i += 1;
    }
    i
}

pub(crate) fn collect_units(b: &[u8]) -> (u: Vec<u16>)
    ensures
        u@ == utf16_units(b@),
{
    let mut out: Vec<u16> = Vec::new();
    let n = b.len() / 2;
    let mut k: usize = 0;
    while k < n
        invariant
            n == b@.len() / 2,
            b@.len() <= usize::MAX,
            k <= n,
            out@.len() == k,
            forall|j: int| 0 <= j < k ==> out@[j] == utf16_units(b@)[j],
        decreases n - k,
    {
        proof {
            assert(2 * (k as int) + 1 < b@.len());
        }
        let lo = b[2 * k];
        let hi = b[2 * k + 1];
        let unit: u16 = lo as u16 + 256 * (hi as u16);
        out.push(unit);
        k += 1;
    }
    proof {
        assert(out@ =~= utf16_units(b@));
    }
    out
}

impl Encoding {
    /// Decode a fixed-width foreign name buffer into native text, cutting at
    /// the first zero byte (narrow) or zero unit (wide). Fails with
    /// [`ProbeError::Decode`] exactly when the buffer is malformed in this
    /// encoding: the cut buffer is not valid text, or a wide buffer has odd
    /// length.
    pub fn decode(&self, bytes: &[u8]) -> (r: Result<String, ProbeError>)
        ensures
            match self {
                Encoding::UFT8 => match r {
                    Ok(s) => narrow_text(bytes@) == Some(s@),
                    Err(e) => e == ProbeError::Decode && narrow_text(bytes@) is None,
                },
                Encoding::UNICODE => match r {
                    Ok(s) => wide_text(bytes@) == Some(s@),
                    Err(e) => e == ProbeError::Decode && wide_text(bytes@) is None,
                },
            },
    {
        match self {
            Encoding::UFT8 => {
                let n = find_zero_byte(bytes);
                proof {
                    lemma_zero_prefix_len_bounds(bytes@);
                }
                let prefix: &[u8] = &bytes[0..n];
                proof {
                    assert(prefix@ =~= bytes@.take(zero_prefix_len(bytes@)));
                }
                match utf8_to_string(prefix) {
                    Some(s) => Ok(s),
                    None => Err(ProbeError::Decode),
                }
            },
            Encoding::UNICODE => {
                if bytes.len() % 2 == 1 {
                    return Err(ProbeError::Decode);
                }
                let units = collect_units(bytes);
                let n = find_zero_unit(&units);
                let mut trimmed: Vec<u16> = Vec::new();
                let mut i: usize = 0;
                proof {
                    lemma_zero_unit_prefix_len_bounds(units@);
                }
                while i < n
                    invariant
                        n <= units@.len(),
                        i <= n,
                        trimmed@.len() == i,
                        forall|j: int| 0 <= j < i ==> trimmed@[j] == units@[j],
                    decreases n - i,
                {
                    trimmed.push(units[i]);
                    i += 1;
                }
                proof {
                    assert(trimmed@ =~= units@.take(n as int));
                }
                match utf16_to_string(&trimmed) {
                    Some(s) => Ok(s),
                    None => Err(ProbeError::Decode),
                }
            },
        }
    }
}

pub proof fn lemma_zero_prefix_len_bounds(s: Seq<u8>)
    ensures
        0 <= zero_prefix_len(s) <= s.len(),
    decreases s.len(),
{
    if s.len() > 0 && s[0] != 0 {
        lemma_zero_prefix_len_bounds(s.drop_first());
    }
}

pub proof fn lemma_zero_unit_prefix_len_bounds(s: Seq<u16>)
    ensures
        0 <= zero_unit_prefix_len(s) <= s.len(),
    decreases s.len(),
{
    if s.len() > 0 && s[0] != 0 {
        lemma_zero_unit_prefix_len_bounds(s.drop_first());
    }
}

/// `needle` occurs as a contiguous run inside `hay`.
pub open spec fn contains_seq(hay: Seq<u8>, needle: Seq<u8>) -> bool {
    exists|i: int|
        0 <= i && i + needle.len() <= hay.len() && #[trigger] hay.subrange(i, i + needle.len())
            == needle
}

/// Substring search over bytes.
pub fn bytes_contain(hay: &[u8], needle: &[u8]) -> (r: bool)
    ensures
        r == contains_seq(hay@, needle@),
{
    let nl = needle.len();
    let hl = hay.len();
    if nl > hl {
        proof {
            assert(!contains_seq(hay@, needle@));
        }
        return false;
    }
    if nl == 0 {
        proof {
            assert(hay@.subrange(0, 0 + needle@.len() as int) =~= needle@);
        }
        return true;
    }
    let mut i: usize = 0;
    while i <= hl - nl
        invariant
            nl == needle@.len(),
            hl == hay@.len(),
            0 < nl <= hl,
            i <= hl - nl + 1,
            forall|p: int|
                0 <= p < i ==> #[trigger] hay@.subrange(p, p + needle@.len()) != needle@,
        decreases hl - nl + 1 - i,
    {
        let mut j: usize = 0;
        let mut matched = true;
        while j < nl
            invariant
                nl == needle@.len(),
                hl == hay@.len(),
                i + nl <= hl,
                j <= nl,
                matched ==> forall|q: int| 0 <= q < j ==> hay@[i + q] == needle@[q],
                !matched ==> hay@.subrange(i as int, i + needle@.len()) != needle@,
            decreases nl - j,
        {
            if hay[i + j] != needle[j] {
                proof {
                    assert(hay@.subrange(i as int, i + needle@.len())[j as int] != needle@[
                        j as int
                    ]);
                }
                matched = false;
                j = nl;
            } else {
                j += 1;
            }
        }
        if matched {
            proof {
                assert(hay@.subrange(i as int, i + needle@.len()) =~= needle@);
            }
            return true;
        }
        i += 1;
    }
    proof {
        assert forall|p: int| 0 <= p && p + needle@.len() <= hay@.len() implies #[trigger] hay@
            .subrange(p, p + needle@.len()) != needle@ by {
            assert(p < i);
        }
    }
    false
}

/// `b` begins with `prefix`.
pub open spec fn starts_with_seq(b: Seq<u8>, prefix: Seq<u8>) -> bool {
    b.len() >= prefix.len() && b.take(prefix.len() as int) == prefix
}

/// Prefix test over bytes.
pub fn bytes_start_with(b: &[u8], prefix: &[u8]) -> (r: bool)
    ensures
        r == starts_with_seq(b@, prefix@),
{
    let pl = prefix.len();
    if b.len() < pl {
        return false;
    }
    let mut j: usize = 0;
    while j < pl
        invariant
            pl == prefix@.len(),
            b@.len() >= pl,
            j <= pl,
            forall|q: int| 0 <= q < j ==> b@[q] == prefix@[q],
        decreases pl - j,
    {
        if b[j] != prefix[j] {
            proof {
                assert(b@.take(prefix@.len() as int)[j as int] != prefix@[j as int]);
            }
            return false;
        }
        j += 1;
    }
    proof {
        assert(b@.take(prefix@.len() as int) =~= prefix@);
    }
    true
}

impl crate::mem::MemoryImage {
    /// Read a fixed-width foreign text buffer and decode it.
    pub fn mem_read_string(&self, ptr: u64, length: u64, encoding: Encoding) -> (r: Result<
        String,
        ProbeError,
    >)
        requires
            self.wf(),
        ensures
            !self.readable(ptr, length) ==> r == Err::<String, ProbeError>(
                ProbeError::MemoryRead { addr: ptr, len: length },
            ),
            self.readable(ptr, length) ==> match encoding {
                Encoding::UFT8 => match r {
                    Ok(s) => narrow_text(self.read_spec(ptr, length)) == Some(s@),
                    Err(e) => e == ProbeError::Decode && narrow_text(
                        self.read_spec(ptr, length),
                    ) is None,
                },
                Encoding::UNICODE => match r {
                    Ok(s) => wide_text(self.read_spec(ptr, length)) == Some(s@),
                    Err(e) => e == ProbeError::Decode && wide_text(
                        self.read_spec(ptr, length),
                    ) is None,
                },
            },
    {
        match self.read_bytes(ptr, length) {
            Some(bytes) => encoding.decode(bytes.as_slice()),
            None => Err(ProbeError::MemoryRead { addr: ptr, len: length }),
        }
    }
}

} // verus!
