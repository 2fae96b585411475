//! Root discovery: signature scan over a module's mapped range.
//!
//! A signature is written as space-separated tokens, each either one or two
//! hex digits (an exact byte) or `??` (a wildcard position that matches any
//! byte). The scan returns the first match; ambiguous signatures are an
//! accepted limitation, not validated further.

use vstd::prelude::*;

use crate::errors::ProbeError;
use crate::mem::MemoryImage;

verus! {

/// The value of one hex digit character, if it is one.
pub open spec fn hex_digit_val(c: u8) -> Option<u8> {
    if 48 <= c <= 57 {
        Some((c - 48) as u8)
    } else if 97 <= c <= 102 {
        Some((c - 87) as u8)
    } else if 65 <= c <= 70 {
        Some((c - 55) as u8)
    } else {
        None
    }
}

/// Parse of a signature text from position `i` on: a sequence of
/// `(byte, wildcard)` units, or nothing if the text is malformed. Tokens are
/// separated by spaces; `??` is a wildcard; one or two hex digits are an
/// exact byte.
pub open spec fn parse_sig_from(s: Seq<u8>, i: int) -> Option<Seq<(u8, bool)>>
    decreases s.len() - i,
{
    if i < 0 || i >= s.len() {
        Some(Seq::empty())
    } else if s[i] == 32 {
        parse_sig_from(s, i + 1)
    } else if i + 1 < s.len() && s[i] == 63 && s[i + 1] == 63 && (i + 2 == s.len() || s[i + 2]
        == 32) {
        match parse_sig_from(s, i + 2) {
            Some(rest) => Some(seq![(0u8, true)].add(rest)),
            None => None,
        }
    } else if i + 1 < s.len() && hex_digit_val(s[i]) is Some && hex_digit_val(s[i + 1]) is Some
        && (i + 2 == s.len() || s[i + 2] == 32) {
        match parse_sig_from(s, i + 2) {
            Some(rest) => Some(
                seq![((16 * hex_digit_val(s[i])->Some_0 + hex_digit_val(s[i + 1])->Some_0) as u8, false)].add(
                    rest,
                ),
            ),
            None => None,
        }
    } else if hex_digit_val(s[i]) is Some && (i + 1 == s.len() || s[i + 1] == 32) {
        match parse_sig_from(s, i + 1) {
            Some(rest) => Some(seq![(hex_digit_val(s[i])->Some_0, false)].add(rest)),
            None => None,
        }
    } else {
        None
    }
}

/// The parsed form of a whole signature text.
pub open spec fn parse_sig_spec(s: Seq<u8>) -> Option<Seq<(u8, bool)>> {
    parse_sig_from(s, 0)
}

fn hex_digit(c: u8) -> (r: Option<u8>)
    ensures
        r == hex_digit_val(c),
{
    if 48 <= c && c <= 57 {
        Some(c - 48)
    } else if 97 <= c && c <= 102 {
        Some(c - 87)
    } else if 65 <= c && c <= 70 {
        Some(c - 55)
    } else {
        None
    }
}

/// Parse a signature text into `(byte, wildcard)` units; fails with
/// [`ProbeError::Decode`] exactly when the text is malformed.
pub fn parse_signature(text: &[u8]) -> (r: Result<Vec<(u8, bool)>, ProbeError>)
    ensures
        match r {
            Ok(units) => parse_sig_spec(text@) == Some(units@),
            Err(e) => e == ProbeError::Decode && parse_sig_spec(text@) is None,
        },
{
    let mut out: Vec<(u8, bool)> = Vec::new();
    let mut i: usize = 0;
    let n = text.len();
    while i < n
        invariant
            n == text@.len(),
            i <= n,
            parse_sig_spec(text@) == match parse_sig_from(text@, i as int) {
                Some(rest) => Some(out@.add(rest)),
                None => None::<Seq<(u8, bool)>>,
            },
        decreases n - i,
    {
        let c = text[i];
        if c == 32 {
            i += 1;
        } else if i + 1 < n && c == 63 && text[i + 1] == 63 && (i + 2 == n || text[i + 2] == 32) {
            out.push((0, true));
            proof {
                lemma_add_assoc(out@.drop_last(), seq![(0u8, true)], parse_sig_from(
                    text@,
                    i as int + 2,
                ));
            }
            i += 2;
        } else {
            let d0 = hex_digit(c);
            let two = i + 1 < n && (i + 2 == n || text[i + 2] == 32);
            let one = i + 1 == n || (i + 1 < n && text[i + 1] == 32);
            match d0 {
                Some(h0) => {
                    if two && hex_digit(text[i + 1]).is_some() {
                        let h1 = match hex_digit(text[i + 1]) {
                            Some(h) => h,
                            None => 0,
                        };
                        out.push((16 * h0 + h1, false));
                        proof {
                            lemma_add_assoc(out@.drop_last(), seq![((16 * h0 + h1) as u8, false)],
                                parse_sig_from(text@, i as int + 2));
                        }
                        i += 2;
                    } else if one {
                        out.push((h0, false));
                        proof {
                            lemma_add_assoc(out@.drop_last(), seq![(h0, false)], parse_sig_from(
                                text@,
                                i as int + 1,
                            ));
                        }
                        i += 1;
                    } else {
                        return Err(ProbeError::Decode);
                    }
                },
                None => {
                    return Err(ProbeError::Decode);
                },
            }
        }
    }
    proof {
        assert(out@.add(Seq::empty()) =~= out@);
    }
    Ok(out)
}

proof fn lemma_add_assoc(a: Seq<(u8, bool)>, b: Seq<(u8, bool)>, rest: Option<Seq<(u8, bool)>>)
    ensures
        rest is Some ==> a.add(b.add(rest->Some_0)) == a.add(b).add(rest->Some_0),
{
    if rest is Some {
        assert(a.add(b.add(rest->Some_0)) =~= a.add(b).add(rest->Some_0));
    }
}

/// The signature `sig` matches `hay` at position `p`.
pub open spec fn sig_found_at(hay: Seq<u8>, sig: Seq<(u8, bool)>, p: int) -> bool {
    0 <= p && p + sig.len() <= hay.len() && forall|j: int|
        0 <= j < sig.len() ==> (#[trigger] sig[j]).1 || hay[p + j] == sig[j].0
}

/// The first position at or after `p` where the signature matches.
pub open spec fn first_match_from(hay: Seq<u8>, sig: Seq<(u8, bool)>, p: int) -> Option<int>
    decreases hay.len() - p,
{
    if p < 0 || p + sig.len() > hay.len() {
        None
    } else if sig_found_at(hay, sig, p) {
        Some(p)
    } else {
        first_match_from(hay, sig, p + 1)
    }
}

/// The first position where the signature matches, if any.
pub open spec fn first_match_spec(hay: Seq<u8>, sig: Seq<(u8, bool)>) -> Option<int> {
    first_match_from(hay, sig, 0)
}

/// The first match is a match, nothing before it matches, and absence of a
/// first match means no position matches.
pub proof fn lemma_first_match_from_props(hay: Seq<u8>, sig: Seq<(u8, bool)>, p: int)
    requires
        p >= 0,
    ensures
        match first_match_from(hay, sig, p) {
            Some(q) => sig_found_at(hay, sig, q) && p <= q && forall|x: int|
                p <= x < q ==> !sig_found_at(hay, sig, x),
            None => forall|x: int| x >= p ==> !sig_found_at(hay, sig, x),
        },
    decreases hay.len() - p,
{
    if p + sig.len() > hay.len() {
    } else if sig_found_at(hay, sig, p) {
    } else {
        lemma_first_match_from_props(hay, sig, p + 1);
    }
}

/// First position where the signature matches, if any.
pub fn find_pattern(hay: &[u8], sig: &Vec<(u8, bool)>) -> (r: Option<usize>)
    ensures
        match first_match_spec(hay@, sig@) {
            Some(p) => r == Some(p as usize),
            None => r is None,
        },
{
    let nl = sig.len();
    let hl = hay.len();
    proof {
        lemma_first_match_from_props(hay@, sig@, 0);
    }
    if nl > hl {
        return None;
    }
    let mut i: usize = 0;
    while i <= hl - nl
        invariant
            nl == sig@.len(),
            hl == hay@.len(),
            nl <= hl,
            i <= hl - nl + 1,
            forall|q: int| 0 <= q < i ==> !sig_found_at(hay@, sig@, q),
            first_match_spec(hay@, sig@) == first_match_from(hay@, sig@, i as int),
        decreases hl - nl + 1 - i,
    {
        let mut j: usize = 0;
        let mut matched = true;
        while j < nl
            invariant
                nl == sig@.len(),
                hl == hay@.len(),
                i + nl <= hl,
                j <= nl,
                matched ==> forall|q: int| 0 <= q < j ==> (#[trigger] sig@[q]).1 || hay@[i + q]
                    == sig@[q].0,
                !matched ==> !sig_found_at(hay@, sig@, i as int),
            decreases nl - j,
        {
            let (b, wild) = sig[j];
            if !wild && hay[i + j] != b {
                matched = false;
                j = nl;
            } else {
                j += 1;
            }
        }
        if matched {
            proof {
                assert(sig_found_at(hay@, sig@, i as int));
            }
            return Some(i);
        }
        i += 1;
    }
    None
}

impl MemoryImage {
    /// Scan a module's mapped range for a signature text; returns the
    /// address of the first match. Fails with [`ProbeError::Decode`] on a
    /// malformed signature, [`ProbeError::MemoryRead`] when the range is not
    /// in the image, and [`ProbeError::SignatureNotFound`] when the
    /// signature occurs nowhere in the range.
    #[verifier::rlimit(60)]
    pub fn get_game_address(&self, module_base: u64, module_size: u64, signature: &[u8]) -> (r:
        Result<u64, ProbeError>)
        requires
            self.wf(),
        ensures
            r == self.get_game_address_spec(module_base, module_size, signature@),
    {
        let sig = match parse_signature(signature) {
            Ok(s) => s,
            Err(e) => {
                return Err(e);
            },
        };
        let hay = match self.read_bytes(module_base, module_size) {
            Some(h) => h,
            None => {
                return Err(ProbeError::MemoryRead { addr: module_base, len: module_size });
            },
        };
        let r = find_pattern(hay.as_slice(), &sig);
        proof {
            assert(parse_sig_spec(signature@) == Some(sig@));
            assert(self.readable(module_base, module_size));
            assert(hay@ == self.read_spec(module_base, module_size));
        }
        match r {
            Some(p) => {
                proof {
                    lemma_first_match_from_props(hay@, sig@, 0);
                    let fm = first_match_spec(hay@, sig@);
                    if fm is Some {
                        let q = fm->Some_0;
                        assert(sig_found_at(hay@, sig@, q));
                        assert(0 <= q && q + sig@.len() <= hay@.len());
                        assert(p == q as usize);
                        assert(q <= usize::MAX);
                        assert(p as int == q);
                    } else {
                        assert(false);
                    }
                    assert(first_match_spec(self.read_spec(module_base, module_size), sig@)
                        == Some(p as int));
                    if sig@.len() == 0 {
                        assert(sig_found_at(hay@, sig@, 0));
                    } else {
                        assert((p as int) + sig@.len() <= hay@.len());
                    }
                    if 0 < p as int {
                        assert((p as int) < module_size);
                        assert(module_base + p as int <= u64::MAX && self.byte_at(
                            (module_base + p as int) as u64,
                        ) is Some);
                    }
                    assert(module_base + p <= u64::MAX);
                    assert(self.get_game_address_spec(module_base, module_size, signature@)
                        == Ok::<u64, ProbeError>(((module_base + p) as u64)));
                }
                Ok(module_base + p as u64)
            },
            None => {
                proof {
                    assert(first_match_spec(self.read_spec(module_base, module_size), sig@)
                        is None);
                    assert(self.get_game_address_spec(module_base, module_size, signature@)
                        == Err::<u64, ProbeError>(ProbeError::SignatureNotFound));
                }
                Err(ProbeError::SignatureNotFound)
            },
        }
    }

    /// The scan's result as a function of the image and its inputs.
    pub open spec fn get_game_address_spec(
        self,
        module_base: u64,
        module_size: u64,
        signature: Seq<u8>,
    ) -> Result<u64, ProbeError> {
        match parse_sig_spec(signature) {
            None => Err(ProbeError::Decode),
            Some(sig) => if !self.readable(module_base, module_size) {
                Err(ProbeError::MemoryRead { addr: module_base, len: module_size })
            } else {
                match first_match_spec(self.read_spec(module_base, module_size), sig) {
                    Some(p) => Ok((module_base + p) as u64),
                    None => Err(ProbeError::SignatureNotFound),
                }
            },
        }
    }
}

} // verus!
