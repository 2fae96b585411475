//! World discovery: anchor-pointer fixup and the dual-ended search over the
//! foreign intrusive linked collection.
//!
//! The collection is never owned: each node is read on demand from the
//! image. Two search workers walk it from its two ends; a worker that is
//! told to stop (the shared cancellation signal of a threaded driver)
//! changes nothing and takes no further traversal step.

use vstd::prelude::*;

use crate::chain::chain_spec;
use crate::decode::collect_units;
use crate::decode::contains_seq;
use crate::decode::bytes_contain;
use crate::decode::find_zero_byte;
use crate::decode::find_zero_unit;
use crate::decode::narrow_text;
use crate::decode::utf16_decode;
use crate::decode::utf16_to_string;
use crate::decode::utf16_units;
use crate::decode::zero_prefix_len;
use crate::decode::zero_unit_prefix_len;
use crate::decode::Encoding;
use crate::errors::ProbeError;
use crate::mem::MemoryImage;
use crate::offsets::GameOffsets;
use crate::offsets::PlayerOffsets;
use crate::offsets::SignatureFixup;
use crate::offsets::UnityOffsets;

verus! {

/// Offset of the last-active-node field inside the foreign object manager.
pub const GOM_LAST_ACTIVE_NODE: u64 = 0x20;

/// Offset of the active-nodes field inside the foreign object manager.
pub const GOM_ACTIVE_NODES: u64 = 0x28;

/// The two root fields of the foreign object manager: the first and last
/// nodes of the intrusive linked collection.
#[derive(Debug, Copy, Clone, PartialEq, Eq, Structural)]
pub struct GameObjectManager {
    pub last_active_node: u64,
    pub active_nodes: u64,
}

/// One node of the intrusive linked collection: its neighbours and its
/// payload object.
#[derive(Debug, Copy, Clone, PartialEq, Eq, Structural)]
pub struct LinkedListObject {
    pub prev: u64,
    pub next: u64,
    pub object: u64,
}

/// The discovered world anchor: its address and the session's map name.
#[derive(Debug, PartialEq, Eq)]
pub struct GameWorld {
    pub game_world_ptr: u64,
    pub map_name: String,
}

/// Name fragment that identifies the world object ("GameWorld").
pub open spec fn game_world_needle() -> Seq<u8> {
    seq![71u8, 97u8, 109u8, 101u8, 87u8, 111u8, 114u8, 108u8, 100u8]
}

/// The wide-text units of the placeholder session name ("hideout").
pub open spec fn hideout_units() -> Seq<u16> {
    seq![104u16, 105u16, 100u16, 101u16, 111u16, 117u16, 116u16]
}

/// A list node read from the image: `prev`, `next` and payload pointer at
/// consecutive address-sized fields.
pub open spec fn read_node_spec(m: MemoryImage, addr: u64) -> Result<LinkedListObject, ProbeError> {
    match m.read_u64_spec(addr) {
        None => Err(ProbeError::MemoryRead { addr, len: 8 }),
        Some(prev) => match m.read_u64_spec(addr.wrapping_add(8)) {
            None => Err(ProbeError::MemoryRead { addr: addr.wrapping_add(8), len: 8 }),
            Some(next) => match m.read_u64_spec(addr.wrapping_add(16)) {
                None => Err(ProbeError::MemoryRead { addr: addr.wrapping_add(16), len: 8 }),
                Some(object) => Ok(LinkedListObject { prev, next, object }),
            },
        },
    }
}

/// Anchor-pointer reconstruction from a signature match: read the 4-byte
/// relative displacement, apply the relative-addressing fixup, dereference,
/// and read the object manager's two root fields.
pub open spec fn locate_gom_spec(m: MemoryImage, sig_addr: u64, fix: SignatureFixup) -> Result<
    (u64, GameObjectManager),
    ProbeError,
> {
    let da = sig_addr.wrapping_add(fix.displacement_offset);
    match m.read_i32_spec(da) {
        None => Err(ProbeError::MemoryRead { addr: da, len: 4 }),
        Some(rva) => {
            let target = sig_addr.wrapping_add(fix.instruction_len).wrapping_add_signed(
                rva as i64,
            );
            match m.read_u64_spec(target) {
                None => Err(ProbeError::MemoryRead { addr: target, len: 8 }),
                Some(game_ptr) => {
                    let la = game_ptr.wrapping_add(GOM_LAST_ACTIVE_NODE);
                    let aa = game_ptr.wrapping_add(GOM_ACTIVE_NODES);
                    match m.read_u64_spec(la) {
                        None => Err(ProbeError::MemoryRead { addr: la, len: 8 }),
                        Some(last) => match m.read_u64_spec(aa) {
                            None => Err(ProbeError::MemoryRead { addr: aa, len: 8 }),
                            Some(active) => Ok(
                                (
                                    game_ptr,
                                    GameObjectManager {
                                        last_active_node: last,
                                        active_nodes: active,
                                    },
                                ),
                            ),
                        },
                    }
                },
            }
        },
    }
}

/// Where the session's map name lives: the location field of the world, or,
/// when that is null, the location field of the main entity.
pub open spec fn map_ptr_spec(
    m: MemoryImage,
    local_world: u64,
    go: GameOffsets,
    po: PlayerOffsets,
) -> Result<u64, ProbeError> {
    let a1 = local_world.wrapping_add(go.location_id);
    match m.read_u64_spec(a1) {
        None => Err(ProbeError::MemoryRead { addr: a1, len: 8 }),
        Some(mp) => if mp != 0 {
            Ok(mp)
        } else {
            let a2 = local_world.wrapping_add(go.main_player);
            match m.read_u64_spec(a2) {
                None => Err(ProbeError::MemoryRead { addr: a2, len: 8 }),
                Some(lp) => {
                    let a3 = lp.wrapping_add(po.location);
                    match m.read_u64_spec(a3) {
                        None => Err(ProbeError::MemoryRead { addr: a3, len: 8 }),
                        Some(mp2) => Ok(mp2),
                    }
                },
            }
        },
    }
}

/// The structural predicate of the search: whether a node's payload is the
/// live world object. On success yields the world pointer and its map-name
/// text; a name mismatch or the placeholder session is `AnchorNotFound`
/// ("not this node"), a failed read or malformed text its own error.
#[verifier::opaque]
pub open spec fn parse_game_world_spec(
    m: MemoryImage,
    obj: u64,
    uo: UnityOffsets,
    go: GameOffsets,
    po: PlayerOffsets,
) -> Result<(u64, Seq<char>), ProbeError> {
    let na = obj.wrapping_add(uo.game_object_name);
    match m.read_u64_spec(na) {
        None => Err(ProbeError::MemoryRead { addr: na, len: 8 }),
        Some(name_ptr) => if !m.readable(name_ptr, 64) {
            Err(ProbeError::MemoryRead { addr: name_ptr, len: 64 })
        } else {
            let name_bytes = m.read_spec(name_ptr, 64);
            match narrow_text(name_bytes) {
                None => Err(ProbeError::Decode),
                Some(_name) => if !contains_seq(
                    name_bytes.take(zero_prefix_len(name_bytes)),
                    game_world_needle(),
                ) {
                    Err(ProbeError::AnchorNotFound)
                } else {
                    match chain_spec(m, obj, uo.game_world_chain@) {
                        Err(a) => Err(ProbeError::MemoryRead { addr: a, len: 8 }),
                        Ok(local_world) => match map_ptr_spec(m, local_world, go, po) {
                            Err(e) => Err(e),
                            Ok(map_ptr) => {
                                let ma = map_ptr.wrapping_add(uo.unity_utf8);
                                if !m.readable(ma, 128) {
                                    Err(ProbeError::MemoryRead { addr: ma, len: 128 })
                                } else {
                                    let mb = m.read_spec(ma, 128);
                                    let units = utf16_units(mb).take(
                                        zero_unit_prefix_len(utf16_units(mb)),
                                    );
                                    match utf16_decode(units) {
                                        None => Err(ProbeError::Decode),
                                        Some(chars) => if units == hideout_units() {
                                            Err(ProbeError::AnchorNotFound)
                                        } else {
                                            Ok((local_world, chars))
                                        },
                                    }
                                }
                            },
                        },
                    }
                },
            }
        },
    }
}

impl MemoryImage {
    /// Read one list node.
    pub fn read_node(&self, addr: u64) -> (r: Result<LinkedListObject, ProbeError>)
        requires
            self.wf(),
        ensures
            r == read_node_spec(*self, addr),
    {
        let prev = match self.read_u64(addr) {
            Some(v) => v,
            None => {
                return Err(ProbeError::MemoryRead { addr, len: 8 });
            },
        };
        let next = match self.read_u64(addr.wrapping_add(8)) {
            Some(v) => v,
            None => {
                return Err(ProbeError::MemoryRead { addr: addr.wrapping_add(8), len: 8 });
            },
        };
        let object = match self.read_u64(addr.wrapping_add(16)) {
            Some(v) => v,
            None => {
                return Err(ProbeError::MemoryRead { addr: addr.wrapping_add(16), len: 8 });
            },
        };
        Ok(LinkedListObject { prev, next, object })
    }

    /// Reconstruct the object-manager pointer from a signature match and
    /// read its root fields.
    pub fn locate_gom(&self, sig_addr: u64, fix: &SignatureFixup) -> (r: Result<
        (u64, GameObjectManager),
        ProbeError,
    >)
        requires
            self.wf(),
        ensures
            r == locate_gom_spec(*self, sig_addr, *fix),
    {
        let da = sig_addr.wrapping_add(fix.displacement_offset);
        let rva = match self.read_i32(da) {
            Some(v) => v,
            None => {
                return Err(ProbeError::MemoryRead { addr: da, len: 4 });
            },
        };
        let target = sig_addr.wrapping_add(fix.instruction_len).wrapping_add_signed(rva as i64);
        let game_ptr = match self.read_u64(target) {
            Some(v) => v,
            None => {
                return Err(ProbeError::MemoryRead { addr: target, len: 8 });
            },
        };
        let la = game_ptr.wrapping_add(GOM_LAST_ACTIVE_NODE);
        let aa = game_ptr.wrapping_add(GOM_ACTIVE_NODES);
        let last = match self.read_u64(la) {
            Some(v) => v,
            None => {
                return Err(ProbeError::MemoryRead { addr: la, len: 8 });
            },
        };
        let active = match self.read_u64(aa) {
            Some(v) => v,
            None => {
                return Err(ProbeError::MemoryRead { addr: aa, len: 8 });
            },
        };
        Ok((game_ptr, GameObjectManager { last_active_node: last, active_nodes: active }))
    }

    /// Apply the structural predicate to one node's payload.
    pub fn parse_game_world(
        &self,
        obj: u64,
        uo: &UnityOffsets,
        go: &GameOffsets,
        po: &PlayerOffsets,
    ) -> (r: Result<GameWorld, ProbeError>)
        requires
            self.wf(),
        ensures
            match parse_game_world_spec(*self, obj, *uo, *go, *po) {
                Ok((p, chars)) => r matches Ok(gw) && gw.game_world_ptr == p && gw.map_name@
                    == chars,
                Err(e) => r == Err::<GameWorld, ProbeError>(e),
            },
    {
        proof {
            reveal(parse_game_world_spec);
        }
        let na = obj.wrapping_add(uo.game_object_name);
        let name_ptr = match self.read_u64(na) {
            Some(v) => v,
            None => {
                return Err(ProbeError::MemoryRead { addr: na, len: 8 });
            },
        };
        let name_bytes = match self.read_bytes(name_ptr, 64) {
            Some(v) => v,
            None => {
                return Err(ProbeError::MemoryRead { addr: name_ptr, len: 64 });
            },
        };
        match Encoding::UFT8.decode(name_bytes.as_slice()) {
            Ok(_) => {},
            Err(_) => {
                return Err(ProbeError::Decode);
            },
        }
        let n = find_zero_byte(name_bytes.as_slice());
        let mut needle: Vec<u8> = Vec::new();
        needle.push(71);
        needle.push(97);
        needle.push(109);
        needle.push(101);
        needle.push(87);
        needle.push(111);
        needle.push(114);
        needle.push(108);
        needle.push(100);
        proof {
            assert(needle@ =~= game_world_needle());
            crate::decode::lemma_zero_prefix_len_bounds(name_bytes@);
        }
        let prefix: &[u8] = &name_bytes.as_slice()[0..n];
        proof {
            assert(prefix@ =~= name_bytes@.take(zero_prefix_len(name_bytes@)));
        }
        if !bytes_contain(prefix, needle.as_slice()) {
            return Err(ProbeError::AnchorNotFound);
        }
        let local_world = match self.mem_read_chain(obj, &uo.game_world_chain) {
            Ok(p) => p,
            Err(e) => {
                return Err(e);
            },
        };
        let a1 = local_world.wrapping_add(go.location_id);
        let mp = match self.read_u64(a1) {
            Some(v) => v,
            None => {
                return Err(ProbeError::MemoryRead { addr: a1, len: 8 });
            },
        };
        let map_ptr = if mp != 0 {
            mp
        } else {
            let a2 = local_world.wrapping_add(go.main_player);
            let lp = match self.read_u64(a2) {
                Some(v) => v,
                None => {
                    return Err(ProbeError::MemoryRead { addr: a2, len: 8 });
                },
            };
            let a3 = lp.wrapping_add(po.location);
            match self.read_u64(a3) {
                Some(v) => v,
                None => {
                    return Err(ProbeError::MemoryRead { addr: a3, len: 8 });
                },
            }
        };
        let ma = map_ptr.wrapping_add(uo.unity_utf8);
        let map_bytes = match self.read_bytes(ma, 128) {
            Some(v) => v,
            None => {
                return Err(ProbeError::MemoryRead { addr: ma, len: 128 });
            },
        };
        let units = collect_units(map_bytes.as_slice());
        let zn = find_zero_unit(&units);
        let mut trimmed: Vec<u16> = Vec::new();
        let mut i: usize = 0;
        proof {
            crate::decode::lemma_zero_unit_prefix_len_bounds(units@);
        }
        while i < zn
            invariant
                zn <= units@.len(),
                i <= zn,
                trimmed@.len() == i,
                forall|j: int| 0 <= j < i ==> trimmed@[j] == units@[j],
            decreases zn - i,
        {
            trimmed.push(units[i]);
            i += 1;
        }
        proof {
            assert(trimmed@ =~= units@.take(zn as int));
        }
        let map_name = match utf16_to_string(&trimmed) {
            Some(s) => s,
            None => {
                return Err(ProbeError::Decode);
            },
        };
        if units_are_hideout(&trimmed) {
            return Err(ProbeError::AnchorNotFound);
        }
        Ok(GameWorld { game_world_ptr: local_world, map_name })
    }
}

fn units_are_hideout(u: &Vec<u16>) -> (r: bool)
    ensures
        r == (u@ == hideout_units()),
{
    if u.len() != 7 {
        proof {
            assert(u@ != hideout_units());
        }
        return false;
    }
    let r = u[0] == 104 && u[1] == 105 && u[2] == 100 && u[3] == 101 && u[4] == 111 && u[5] == 117
        && u[6] == 116;
    proof {
        if r {
            assert(u@ =~= hideout_units());
        } else {
            assert(u@ != hideout_units());
        }
    }
    r
}

/// One directional searcher over the linked collection.
#[derive(Debug, Copy, Clone, PartialEq, Eq, Structural)]
pub struct SearchWorker {
    pub current: LinkedListObject,
    pub end_object: u64,
    pub forward: bool,
    pub steps: u64,
}

/// What one search step produced.
pub enum StepOutcome {
    Found(GameWorld),
    Advanced,
    Exhausted,
    Cancelled,
    Failed(ProbeError),
}

/// The mathematical outcome of one uncancelled step.
pub enum StepOutcomeSpec {
    Found(u64, Seq<char>),
    Advanced,
    Exhausted,
    Failed(ProbeError),
}

/// One uncancelled step of a worker: stop at the end node, report a payload
/// that satisfies the predicate, otherwise advance one link in the worker's
/// direction; a failed link read ends the search on this side.
pub open spec fn worker_step_spec(
    m: MemoryImage,
    w: SearchWorker,
    uo: UnityOffsets,
    go: GameOffsets,
    po: PlayerOffsets,
) -> (SearchWorker, StepOutcomeSpec) {
    if w.current.object == w.end_object {
        (w, StepOutcomeSpec::Exhausted)
    } else {
        match parse_game_world_spec(m, w.current.object, uo, go, po) {
            Ok((p, chars)) => (w, StepOutcomeSpec::Found(p, chars)),
            Err(_) => step_advance_spec(m, w),
        }
    }
}

/// Advance one link in the worker's direction.
pub open spec fn step_advance_spec(m: MemoryImage, w: SearchWorker) -> (
    SearchWorker,
    StepOutcomeSpec,
) {
    let next_addr = if w.forward {
        w.current.next
    } else {
        w.current.prev
    };
    match read_node_spec(m, next_addr) {
        Ok(n) => (
            SearchWorker {
                current: n,
                steps: w.steps.wrapping_add(1),
                ..w
            },
            StepOutcomeSpec::Advanced,
        ),
        Err(e) => (w, StepOutcomeSpec::Failed(e)),
    }
}

impl SearchWorker {
    /// A worker about to walk forward from `first` toward `last`.
    pub fn forward_from(first: LinkedListObject, last: LinkedListObject) -> (r: SearchWorker)
        ensures
            r == (SearchWorker {
                current: first,
                end_object: last.object,
                forward: true,
                steps: 0,
            }),
    {
        SearchWorker { current: first, end_object: last.object, forward: true, steps: 0 }
    }

    /// A worker about to walk backward from `last` toward `first`.
    pub fn backward_from(first: LinkedListObject, last: LinkedListObject) -> (r: SearchWorker)
        ensures
            r == (SearchWorker {
                current: last,
                end_object: first.object,
                forward: false,
                steps: 0,
            }),
    {
        SearchWorker { current: last, end_object: first.object, forward: false, steps: 0 }
    }

    /// Take one step. A worker that observes the cancellation signal stops
    /// at once: it changes nothing and takes no further traversal step, so
    /// after the signal is raised the loser walks at most the one node it
    /// was already processing.
    pub fn step(
        &mut self,
        m: &MemoryImage,
        cancel: bool,
        uo: &UnityOffsets,
        go: &GameOffsets,
        po: &PlayerOffsets,
    ) -> (r: StepOutcome)
        requires
            m.wf(),
        ensures
            cancel ==> *final(self) == *old(self) && r is Cancelled,
            !cancel ==> *final(self) == worker_step_spec(*m, *old(self), *uo, *go, *po).0,
            !cancel ==> match worker_step_spec(*m, *old(self), *uo, *go, *po).1 {
                StepOutcomeSpec::Found(p, chars) => r matches StepOutcome::Found(gw)
                    && gw.game_world_ptr == p && gw.map_name@ == chars,
                StepOutcomeSpec::Advanced => r is Advanced,
                StepOutcomeSpec::Exhausted => r is Exhausted,
                StepOutcomeSpec::Failed(e) => r == StepOutcome::Failed(e),
            },
    {
        if cancel {
            return StepOutcome::Cancelled;
        }
        if self.current.object == self.end_object {
            return StepOutcome::Exhausted;
        }
        match m.parse_game_world(self.current.object, uo, go, po) {
            Ok(gw) => StepOutcome::Found(gw),
            Err(_) => {
                let next_addr = if self.forward {
                    self.current.next
                } else {
                    self.current.prev
                };
                match m.read_node(next_addr) {
                    Ok(n) => {
                        self.current = n;
                        self.steps = self.steps.wrapping_add(1);
                        StepOutcome::Advanced
                    },
                    Err(e) => StepOutcome::Failed(e),
                }
            },
        }
    }
}

/// The dual-ended race, sequentialised by an explicit schedule: tick `i`
/// lets the forward worker act when `schedule[i]` holds, the backward
/// worker otherwise. The first payload satisfying the predicate wins; a
/// side that exhausts its range or fails only retires, and the overall
/// search fails when both sides have retired (or the schedule runs out),
/// with the first recorded read failure, or `AnchorNotFound` when both
/// sides merely exhausted.
pub open spec fn dual_search_spec(
    m: MemoryImage,
    fw: SearchWorker,
    bw: SearchWorker,
    fw_done: bool,
    bw_done: bool,
    first_err: Option<ProbeError>,
    schedule: Seq<bool>,
    uo: UnityOffsets,
    go: GameOffsets,
    po: PlayerOffsets,
) -> Result<(u64, Seq<char>), ProbeError>
    decreases schedule.len(),
{
    if fw_done && bw_done {
        match first_err {
            Some(e) => Err(e),
            None => Err(ProbeError::AnchorNotFound),
        }
    } else if schedule.len() == 0 {
        match first_err {
            Some(e) => Err(e),
            None => Err(ProbeError::AnchorNotFound),
        }
    } else {
        let side = schedule[0];
        let rest = schedule.drop_first();
        if (side && fw_done) || (!side && bw_done) {
            dual_search_spec(m, fw, bw, fw_done, bw_done, first_err, rest, uo, go, po)
        } else {
            let w = if side {
                fw
            } else {
                bw
            };
            let (w2, o) = worker_step_spec(m, w, uo, go, po);
            match o {
                StepOutcomeSpec::Found(p, chars) => Ok((p, chars)),
                StepOutcomeSpec::Advanced => if side {
                    dual_search_spec(m, w2, bw, fw_done, bw_done, first_err, rest, uo, go, po)
                } else {
                    dual_search_spec(m, fw, w2, fw_done, bw_done, first_err, rest, uo, go, po)
                },
                StepOutcomeSpec::Exhausted => if side {
                    dual_search_spec(m, fw, bw, true, bw_done, first_err, rest, uo, go, po)
                } else {
                    dual_search_spec(m, fw, bw, fw_done, true, first_err, rest, uo, go, po)
                },
                StepOutcomeSpec::Failed(e) => {
                    let err2 = if first_err is Some {
                        first_err
                    } else {
                        Some(e)
                    };
                    if side {
                        dual_search_spec(m, fw, bw, true, bw_done, err2, rest, uo, go, po)
                    } else {
                        dual_search_spec(m, fw, bw, fw_done, true, err2, rest, uo, go, po)
                    }
                },
            }
        }
    }
}

/// Run the dual-ended search under a schedule.
pub fn dual_search(
    m: &MemoryImage,
    first: LinkedListObject,
    last: LinkedListObject,
    schedule: &Vec<bool>,
    uo: &UnityOffsets,
    go: &GameOffsets,
    po: &PlayerOffsets,
) -> (r: Result<GameWorld, ProbeError>)
    requires
        m.wf(),
    ensures
        match dual_search_spec(
            *m,
            SearchWorker { current: first, end_object: last.object, forward: true, steps: 0 },
            SearchWorker { current: last, end_object: first.object, forward: false, steps: 0 },
            false,
            false,
            None,
            schedule@,
            *uo,
            *go,
            *po,
        ) {
            Ok((p, chars)) => r matches Ok(gw) && gw.game_world_ptr == p && gw.map_name@ == chars,
            Err(e) => r == Err::<GameWorld, ProbeError>(e),
        },
{
    let mut fw = SearchWorker::forward_from(first, last);
    let mut bw = SearchWorker::backward_from(first, last);
    let mut fw_done = false;
    let mut bw_done = false;
    let mut err: Option<ProbeError> = None;
    let mut i: usize = 0;
    proof {
        assert(schedule@.skip(0) =~= schedule@);
    }
    while i < schedule.len() && !(fw_done && bw_done)
        invariant
            m.wf(),
            i <= schedule@.len(),
            dual_search_spec(
                *m,
                SearchWorker { current: first, end_object: last.object, forward: true, steps: 0 },
                SearchWorker { current: last, end_object: first.object, forward: false, steps: 0 },
                false,
                false,
                None,
                schedule@,
                *uo,
                *go,
                *po,
            ) == dual_search_spec(
                *m,
                fw,
                bw,
                fw_done,
                bw_done,
                err,
                schedule@.skip(i as int),
                *uo,
                *go,
                *po,
            ),
        decreases schedule@.len() - i,
    {
        proof {
            assert(schedule@.skip(i as int)[0] == schedule@[i as int]);
            assert(schedule@.skip(i as int).drop_first() =~= schedule@.skip(i as int + 1));
        }
        let side = schedule[i];
        if side && !fw_done {
            match fw.step(m, false, uo, go, po) {
                StepOutcome::Found(gw) => {
                    return Ok(gw);
                },
                StepOutcome::Advanced => {},
                StepOutcome::Exhausted => {
                    fw_done = true;
                },
                StepOutcome::Failed(e) => {
                    if err.is_none() {
                        err = Some(e);
                    }
                    fw_done = true;
                },
                StepOutcome::Cancelled => {
                    proof {
                        assert(false);
                    }
                },
            }
        } else if !side && !bw_done {
            match bw.step(m, false, uo, go, po) {
                StepOutcome::Found(gw) => {
                    return Ok(gw);
                },
                StepOutcome::Advanced => {},
                StepOutcome::Exhausted => {
                    bw_done = true;
                },
                StepOutcome::Failed(e) => {
                    if err.is_none() {
                        err = Some(e);
                    }
                    bw_done = true;
                },
                StepOutcome::Cancelled => {
                    proof {
                        assert(false);
                    }
                },
            }
        }
        i += 1;
    }
    proof {
        if !(fw_done && bw_done) {
            assert(schedule@.skip(i as int) =~= Seq::<bool>::empty());
        }
    }
    match err {
        Some(e) => Err(e),
        None => Err(ProbeError::AnchorNotFound),
    }
}

/// A strictly alternating schedule: the two sides take turns, forward
/// first.
pub open spec fn alternating_schedule(n: nat) -> Seq<bool> {
    Seq::new(2 * n, |i: int| i % 2 == 0)
}

/// The whole discovery, as a function of the image: signature scan,
/// anchor-pointer fixup, root fields, then the dual-ended search under the
/// given schedule.
pub open spec fn get_game_world_spec(
    m: MemoryImage,
    module_base: u64,
    module_size: u64,
    signature: Seq<u8>,
    fix: SignatureFixup,
    uo: UnityOffsets,
    go: GameOffsets,
    po: PlayerOffsets,
    schedule: Seq<bool>,
) -> Result<(u64, Seq<char>), ProbeError> {
    match m.get_game_address_spec(module_base, module_size, signature) {
        Err(e) => Err(e),
        Ok(sig_addr) => match locate_gom_spec(m, sig_addr, fix) {
            Err(e) => Err(e),
            Ok((_game_ptr, gom)) => match read_node_spec(m, gom.active_nodes) {
                Err(e) => Err(e),
                Ok(first) => match read_node_spec(m, gom.last_active_node) {
                    Err(e) => Err(e),
                    Ok(last) => dual_search_spec(
                        m,
                        SearchWorker {
                            current: first,
                            end_object: last.object,
                            forward: true,
                            steps: 0,
                        },
                        SearchWorker {
                            current: last,
                            end_object: first.object,
                            forward: false,
                            steps: 0,
                        },
                        false,
                        false,
                        None,
                        schedule,
                        uo,
                        go,
                        po,
                    ),
                },
            },
        },
    }
}

impl MemoryImage {
    /// Discover the world anchor: scan the module range for the root
    /// signature, reconstruct the object-manager pointer, read the first
    /// and last nodes of the collection, and race the two search workers
    /// (alternating turns, at most `max_steps` turns per side).
    pub fn get_game_world(
        &self,
        module_base: u64,
        module_size: u64,
        signature: &[u8],
        fix: &SignatureFixup,
        uo: &UnityOffsets,
        go: &GameOffsets,
        po: &PlayerOffsets,
        max_steps: usize,
    ) -> (r: Result<GameWorld, ProbeError>)
        requires
            self.wf(),
            max_steps <= usize::MAX / 2,
        ensures
            match get_game_world_spec(
                *self,
                module_base,
                module_size,
                signature@,
                *fix,
                *uo,
                *go,
                *po,
                alternating_schedule(max_steps as nat),
            ) {
                Ok((p, chars)) => r matches Ok(gw) && gw.game_world_ptr == p && gw.map_name@
                    == chars,
                Err(e) => r == Err::<GameWorld, ProbeError>(e),
            },
    {
        let sig_addr = match self.get_game_address(module_base, module_size, signature) {
            Ok(a) => a,
            Err(e) => {
                return Err(e);
            },
        };
        let gom = match self.locate_gom(sig_addr, fix) {
            Ok((_p, g)) => g,
            Err(e) => {
                return Err(e);
            },
        };
        let first = match self.read_node(gom.active_nodes) {
            Ok(n) => n,
            Err(e) => {
                return Err(e);
            },
        };
        let last = match self.read_node(gom.last_active_node) {
            Ok(n) => n,
            Err(e) => {
                return Err(e);
            },
        };
        let mut schedule: Vec<bool> = Vec::new();
        let mut i: usize = 0;
        while i < 2 * max_steps
            invariant
                max_steps <= usize::MAX / 2,
                i <= 2 * max_steps,
                schedule@.len() == i,
                forall|j: int| 0 <= j < i ==> schedule@[j] == (j % 2 == 0),
            decreases 2 * max_steps - i,
        {
            schedule.push(i % 2 == 0);
            i += 1;
        }
        proof {
            assert(schedule@ =~= alternating_schedule(max_steps as nat));
        }
        dual_search(self, first, last, &schedule, uo, go, po)
    }
}

/// A well-formed stretch of the intrusive collection as it stands in the
/// image: node `i` lives at `addrs[i]`, links point at the neighbouring
/// addresses, and payloads are pairwise distinct.
pub open spec fn list_path_wf(m: MemoryImage, addrs: Seq<u64>, nodes: Seq<LinkedListObject>) -> bool {
    &&& addrs.len() == nodes.len()
    &&& nodes.len() >= 1
    &&& forall|i: int|
        0 <= i < nodes.len() ==> read_node_spec(m, #[trigger] addrs[i]) == Ok::<
            LinkedListObject,
            ProbeError,
        >(nodes[i])
    &&& forall|i: int| 0 <= i < nodes.len() - 1 ==> (#[trigger] nodes[i]).next == addrs[i + 1]
    &&& forall|i: int| 1 <= i < nodes.len() ==> (#[trigger] nodes[i]).prev == addrs[i - 1]
    &&& forall|i: int, j: int|
        0 <= i < j < nodes.len() ==> (#[trigger] nodes[i]).object != (#[trigger] nodes[j]).object
}

/// How many ticks of a schedule belong to the forward side.
pub open spec fn count_trues(s: Seq<bool>) -> int
    decreases s.len(),
{
    if s.len() == 0 {
        0
    } else {
        (if s[0] {
            1int
        } else {
            0int
        }) + count_trues(s.drop_first())
    }
}

pub proof fn lemma_count_trues_bound(s: Seq<bool>)
    ensures
        0 <= count_trues(s) <= s.len(),
    decreases s.len(),
{
    if s.len() > 0 {
        lemma_count_trues_bound(s.drop_first());
    }
}

/// The dual-ended search is schedule-independent in its answer: over a
/// well-formed list in which exactly the node at position `k` satisfies the
/// predicate, any winner returns that node's result, and the search does
/// return it as soon as either side is scheduled often enough to reach it
/// (the forward side `k + 1 - fw_pos` turns when the target is not the final
/// node, the backward side `bw_pos - k + 1` turns when it is not the first).
#[verifier::rlimit(100)]
#[verifier::spinoff_prover]
pub proof fn lemma_dual_search_finds_target(
    m: MemoryImage,
    addrs: Seq<u64>,
    nodes: Seq<LinkedListObject>,
    k: int,
    fw_pos: int,
    bw_pos: int,
    fw: SearchWorker,
    bw: SearchWorker,
    fw_done: bool,
    bw_done: bool,
    schedule: Seq<bool>,
    uo: UnityOffsets,
    go: GameOffsets,
    po: PlayerOffsets,
)
    requires
        list_path_wf(m, addrs, nodes),
        0 <= k < nodes.len(),
        parse_game_world_spec(m, nodes[k].object, uo, go, po) is Ok,
        forall|i: int|
            0 <= i < nodes.len() && i != k ==> parse_game_world_spec(
                m,
                (#[trigger] nodes[i]).object,
                uo,
                go,
                po,
            ) is Err,
        0 <= fw_pos <= k,
        k <= bw_pos < nodes.len(),
        fw.current == nodes[fw_pos],
        fw.end_object == nodes[nodes.len() - 1].object,
        fw.forward == true,
        bw.current == nodes[bw_pos],
        bw.end_object == nodes[0].object,
        bw.forward == false,
    ensures
        ({
            let r = dual_search_spec(m, fw, bw, fw_done, bw_done, None, schedule, uo, go, po);
            let target = parse_game_world_spec(m, nodes[k].object, uo, go, po);
            &&& (r is Ok ==> r == target)
            &&& (!fw_done && k < nodes.len() - 1 && count_trues(schedule) >= k + 1 - fw_pos ==> r
                == target)
            &&& (!bw_done && k > 0 && schedule.len() - count_trues(schedule) >= bw_pos - k + 1
                ==> r == target)
        }),
    decreases schedule.len(),
{
    lemma_count_trues_bound(schedule);
    if fw_done && bw_done {
    } else if schedule.len() == 0 {
    } else {
        let side = schedule[0];
        let rest = schedule.drop_first();
        lemma_count_trues_bound(rest);
        if (side && fw_done) || (!side && bw_done) {
            lemma_dual_search_finds_target(
                m,
                addrs,
                nodes,
                k,
                fw_pos,
                bw_pos,
                fw,
                bw,
                fw_done,
                bw_done,
                rest,
                uo,
                go,
                po,
            );
        } else if side {
            // the forward worker acts
            if fw.current.object == fw.end_object {
                // distinct payloads: only the final node matches the end payload
                assert(fw_pos == nodes.len() - 1);
                lemma_dual_search_finds_target(
                    m,
                    addrs,
                    nodes,
                    k,
                    fw_pos,
                    bw_pos,
                    fw,
                    bw,
                    true,
                    bw_done,
                    rest,
                    uo,
                    go,
                    po,
                );
            } else {
                assert(fw_pos < nodes.len() - 1);
                if fw_pos == k {
                    // found: the result is exactly the target's parse
                } else {
                    let (fw2, o) = worker_step_spec(m, fw, uo, go, po);
                    assert(read_node_spec(m, addrs[fw_pos + 1]) == Ok::<
                        LinkedListObject,
                        ProbeError,
                    >(nodes[fw_pos + 1]));
                    assert(fw2.current == nodes[fw_pos + 1]);
                    lemma_dual_search_finds_target(
                        m,
                        addrs,
                        nodes,
                        k,
                        fw_pos + 1,
                        bw_pos,
                        fw2,
                        bw,
                        fw_done,
                        bw_done,
                        rest,
                        uo,
                        go,
                        po,
                    );
                }
            }
        } else {
            // the backward worker acts
            if bw.current.object == bw.end_object {
                assert(bw_pos == 0);
                lemma_dual_search_finds_target(
                    m,
                    addrs,
                    nodes,
                    k,
                    fw_pos,
                    bw_pos,
                    fw,
                    bw,
                    fw_done,
                    true,
                    rest,
                    uo,
                    go,
                    po,
                );
            } else {
                assert(bw_pos > 0);
                if bw_pos == k {
                } else {
                    let (bw2, o) = worker_step_spec(m, bw, uo, go, po);
                    assert(read_node_spec(m, addrs[bw_pos - 1]) == Ok::<
                        LinkedListObject,
                        ProbeError,
                    >(nodes[bw_pos - 1]));
                    assert(bw2.current == nodes[bw_pos - 1]);
                    lemma_dual_search_finds_target(
                        m,
                        addrs,
                        nodes,
                        k,
                        fw_pos,
                        bw_pos - 1,
                        fw,
                        bw2,
                        fw_done,
                        bw_done,
                        rest,
                        uo,
                        go,
                        po,
                    );
                }
            }
        }
    }
}

} // verus!
