//! Entity classification and the per-entity records the sampler works on.

use vstd::prelude::*;

use crate::chain::chain_spec;
use crate::decode::starts_with_seq;
use crate::decode::bytes_start_with;
use crate::errors::ProbeError;
use crate::mem::read_array_from;
use crate::mem::MemoryImage;
use crate::offsets::GameOffsets;
use crate::offsets::PlayerOffsets;
use crate::offsets::UnityOffsets;
use crate::scatter::ScatterBatch;
use crate::scatter::ScatterEntry;

verus! {

/// Faction an entity fights for, decoded from a small closed set of codes.
#[derive(Debug, PartialEq, Eq, Clone, Copy, Structural)]
pub enum Faction {
    USEC,
    BEAR,
    SCAV,
}

/// How an entity is simulated, decided by its object-name prefix.
#[derive(Debug, Copy, Clone, PartialEq, Eq, Structural)]
pub enum PlayerType {
    ClientPlayer,
    MainPlayer,
    NetworkedPlayer,
}

/// Bucketed vitality category.
#[derive(Debug, Copy, Clone, PartialEq, Eq, Structural)]
pub enum HealthStatus {
    UNKNOWN,
    FULL,
    HIGH,
    MEDIUM,
    LOW,
    SPECIAL,
}

/// A 2-D orientation sample, carried as the raw bit patterns of the two
/// foreign 32-bit components.
#[derive(Debug, Copy, Clone, PartialEq, Eq, Structural)]
pub struct Rotation2 {
    pub x_bits: u32,
    pub y_bits: u32,
}

/// One tracked entity: its object base, classification, and the two field
/// addresses resolved once at enumeration time and reused every cycle.
/// Locally-simulated entities carry no vitality address (`health_addr` is
/// zero): vitality is deliberately not sampled for them.
#[derive(Debug, Copy, Clone, PartialEq, Eq, Structural)]
pub struct Player {
    pub ptr: u64,
    pub faction: Faction,
    pub human: bool,
    pub player_type: PlayerType,
    pub health_addr: u64,
    pub rota_addr: u64,
}

/// One per-cycle immutable snapshot of a tracked entity.
#[derive(Debug, Copy, Clone, PartialEq, Eq, Structural)]
pub struct PopulatedPlayer {
    pub faction: Faction,
    pub human: bool,
    pub player_type: PlayerType,
    pub health_status: HealthStatus,
    pub rotation: Rotation2,
}

/// The faction a code denotes, if any: the mapping is total over exactly
/// the codes 1, 2 and 4.
pub open spec fn faction_from_code_spec(code: int) -> Option<Faction> {
    if code == 1 {
        Some(Faction::USEC)
    } else if code == 2 {
        Some(Faction::BEAR)
    } else if code == 4 {
        Some(Faction::SCAV)
    } else {
        None
    }
}

/// The vitality category of a raw foreign value. Zero and minus one mean
/// the value is unknown; the four exact boundary values map to their
/// categories; every other value falls back to the special category.
pub open spec fn health_status_spec(v: int) -> HealthStatus {
    if v == 0 || v == -1 {
        HealthStatus::UNKNOWN
    } else if v == 1024 {
        HealthStatus::FULL
    } else if v == 2048 {
        HealthStatus::HIGH
    } else if v == 4096 {
        HealthStatus::MEDIUM
    } else if v == 8192 {
        HealthStatus::LOW
    } else {
        HealthStatus::SPECIAL
    }
}

/// Name prefix of a client-side simulated entity ("ClientPlayer").
pub open spec fn client_player_prefix() -> Seq<u8> {
    seq![67u8, 108u8, 105u8, 101u8, 110u8, 116u8, 80u8, 108u8, 97u8, 121u8, 101u8, 114u8]
}

/// Name prefix of the main locally-controlled entity ("LocalPlayer").
pub open spec fn local_player_prefix() -> Seq<u8> {
    seq![76u8, 111u8, 99u8, 97u8, 108u8, 80u8, 108u8, 97u8, 121u8, 101u8, 114u8]
}

/// Classification of a name buffer: by prefix, networked when no prefix
/// matches.
pub open spec fn player_type_spec(b: Seq<u8>) -> PlayerType {
    if starts_with_seq(b, client_player_prefix()) {
        PlayerType::ClientPlayer
    } else if starts_with_seq(b, local_player_prefix()) {
        PlayerType::MainPlayer
    } else {
        PlayerType::NetworkedPlayer
    }
}

impl Faction {
    /// Decode a faction code; any code outside the closed set is reported
    /// as [`ProbeError::UnknownFactionCode`].
    pub fn from_code(code: i32) -> (r: Result<Faction, ProbeError>)
        ensures
            match faction_from_code_spec(code as int) {
                Some(f) => r == Ok::<Faction, ProbeError>(f),
                None => r == Err::<Faction, ProbeError>(ProbeError::UnknownFactionCode { code }),
            },
    {
        match code {
            1 => Ok(Faction::USEC),
            2 => Ok(Faction::BEAR),
            4 => Ok(Faction::SCAV),
            _ => Err(ProbeError::UnknownFactionCode { code }),
        }
    }
}

/// The faction mapping is a total function over exactly the codes 1, 2
/// and 4; every other integer has no faction.
pub proof fn lemma_faction_mapping_domain()
    ensures
        faction_from_code_spec(1) == Some(Faction::USEC),
        faction_from_code_spec(2) == Some(Faction::BEAR),
        faction_from_code_spec(4) == Some(Faction::SCAV),
        forall|code: int|
            code != 1 && code != 2 && code != 4 ==> #[trigger] faction_from_code_spec(
                code,
            ) is None,
{
}

impl HealthStatus {
    /// Bucket a raw vitality value; total, never fails.
    pub fn from_raw(v: i32) -> (r: HealthStatus)
        ensures
            r == health_status_spec(v as int),
    {
        if v == 0 || v == -1 {
            HealthStatus::UNKNOWN
        } else if v == 1024 {
            HealthStatus::FULL
        } else if v == 2048 {
            HealthStatus::HIGH
        } else if v == 4096 {
            HealthStatus::MEDIUM
        } else if v == 8192 {
            HealthStatus::LOW
        } else {
            HealthStatus::SPECIAL
        }
    }
}

impl PlayerType {
    /// Classify an entity by the prefix of its object-name buffer.
    pub fn player_type_from_bytes(p_type_bytes: &[u8]) -> (r: Self)
        ensures
            r == player_type_spec(p_type_bytes@),
    {
        let mut client: Vec<u8> = Vec::new();
        client.push(67);
        client.push(108);
        client.push(105);
        client.push(101);
        client.push(110);
        client.push(116);
        client.push(80);
        client.push(108);
        client.push(97);
        client.push(121);
        client.push(101);
        client.push(114);
        proof {
            assert(client@ =~= client_player_prefix());
        }
        if bytes_start_with(p_type_bytes, client.as_slice()) {
            return PlayerType::ClientPlayer;
        }
        let mut local: Vec<u8> = Vec::new();
        local.push(76);
        local.push(111);
        local.push(99);
        local.push(97);
        local.push(108);
        local.push(80);
        local.push(108);
        local.push(97);
        local.push(121);
        local.push(101);
        local.push(114);
        proof {
            assert(local@ =~= local_player_prefix());
        }
        if bytes_start_with(p_type_bytes, local.as_slice()) {
            return PlayerType::MainPlayer;
        }
        PlayerType::NetworkedPlayer
    }
}

/// The fields registered by one resolution, as batch entries.
pub open spec fn entries_of(pushes: Seq<(u64, u64)>) -> Seq<ScatterEntry> {
    pushes.map_values(|p: (u64, u64)| ScatterEntry { addr: p.0, len: p.1, value: None })
}

/// The name buffer of a foreign object: a pointer chain from the object to
/// its name, then a fixed-width read.
#[verifier::opaque]
pub open spec fn object_bytes_spec(m: MemoryImage, object_ptr: u64, length: u64, uo: UnityOffsets) -> Result<
    Seq<u8>,
    ProbeError,
> {
    match chain_spec(m, object_ptr, uo.object_name_chain@) {
        Err(a) => Err(ProbeError::MemoryRead { addr: a, len: 8 }),
        Ok(name_ptr) => if !m.readable(name_ptr, length) {
            Err(ProbeError::MemoryRead { addr: name_ptr, len: length })
        } else {
            Ok(m.read_spec(name_ptr, length))
        },
    }
}

/// Resolution of one entity: the record produced (if the entity's reads and
/// its faction code are good) and the field addresses registered on the
/// way. The record carries the classification it was resolved under, so the
/// explicitly-resolved main entity alone is marked `MainPlayer`.
/// Locally-simulated entities register only their orientation field and
/// carry no vitality address; networked entities register both fields.
#[verifier::opaque]
pub open spec fn player_details_spec(
    m: MemoryImage,
    player_ptr: u64,
    p_type: PlayerType,
    po: PlayerOffsets,
) -> (Result<Player, ProbeError>, Seq<(u64, u64)>) {
    match p_type {
        PlayerType::ClientPlayer | PlayerType::MainPlayer => {
            let pa = player_ptr.wrapping_add(po.profile);
            match m.read_u64_spec(pa) {
                None => (Err(ProbeError::MemoryRead { addr: pa, len: 8 }), Seq::empty()),
                Some(profile_ptr) => {
                    let ia = profile_ptr.wrapping_add(po.info);
                    match m.read_u64_spec(ia) {
                        None => (Err(ProbeError::MemoryRead { addr: ia, len: 8 }), Seq::empty()),
                        Some(info_ptr) => {
                            let fa = info_ptr.wrapping_add(po.faction);
                            match m.read_i32_spec(fa) {
                                None => (
                                    Err(ProbeError::MemoryRead { addr: fa, len: 4 }),
                                    Seq::empty(),
                                ),
                                Some(faction_value) => {
                                    let ma = player_ptr.wrapping_add(po.movement_context);
                                    match m.read_u64_spec(ma) {
                                        None => (
                                            Err(ProbeError::MemoryRead { addr: ma, len: 8 }),
                                            Seq::empty(),
                                        ),
                                        Some(move_ctx) => {
                                            let rotation_addr = move_ctx.wrapping_add(po.rotation);
                                            let pushes = seq![(rotation_addr, 8u64)];
                                            match faction_from_code_spec(faction_value as int) {
                                                None => (
                                                    Err(
                                                        ProbeError::UnknownFactionCode {
                                                            code: faction_value,
                                                        },
                                                    ),
                                                    pushes,
                                                ),
                                                Some(f) => (
                                                    Ok(
                                                        Player {
                                                            ptr: player_ptr,
                                                            faction: f,
                                                            human: true,
                                                            player_type: p_type,
                                                            health_addr: 0,
                                                            rota_addr: rotation_addr,
                                                        },
                                                    ),
                                                    pushes,
                                                ),
                                            }
                                        },
                                    }
                                },
                            }
                        },
                    }
                },
            }
        },
        PlayerType::NetworkedPlayer => {
            let ca = player_ptr.wrapping_add(po.networked_player_controller);
            match m.read_u64_spec(ca) {
                None => (Err(ProbeError::MemoryRead { addr: ca, len: 8 }), Seq::empty()),
                Some(controller) => {
                    let ha = controller.wrapping_add(po.networked_health_controller);
                    match m.read_u64_spec(ha) {
                        None => (Err(ProbeError::MemoryRead { addr: ha, len: 8 }), Seq::empty()),
                        Some(health_ptr) => match chain_spec(
                            m,
                            controller,
                            po.networked_movement_chain@,
                        ) {
                            Err(a) => (
                                Err(ProbeError::MemoryRead { addr: a, len: 8 }),
                                Seq::empty(),
                            ),
                            Ok(move_ctx) => {
                                let ba = player_ptr.wrapping_add(po.networked_is_bot);
                                match m.read_u8_spec(ba) {
                                    None => (
                                        Err(ProbeError::MemoryRead { addr: ba, len: 1 }),
                                        Seq::empty(),
                                    ),
                                    Some(bot_byte) => {
                                        let fa = player_ptr.wrapping_add(po.networked_faction);
                                        match m.read_i32_spec(fa) {
                                            None => (
                                                Err(ProbeError::MemoryRead { addr: fa, len: 4 }),
                                                Seq::empty(),
                                            ),
                                            Some(faction_value) => match faction_from_code_spec(
                                                faction_value as int,
                                            ) {
                                                None => (
                                                    Err(
                                                        ProbeError::UnknownFactionCode {
                                                            code: faction_value,
                                                        },
                                                    ),
                                                    Seq::empty(),
                                                ),
                                                Some(f) => {
                                                    let rotation_addr = move_ctx.wrapping_add(
                                                        po.networked_rotation,
                                                    );
                                                    let health_addr = health_ptr.wrapping_add(
                                                        po.networked_health_value,
                                                    );
                                                    (
                                                        Ok(
                                                            Player {
                                                                ptr: player_ptr,
                                                                faction: f,
                                                                human: bot_byte == 0,
                                                                player_type:
                                                                    PlayerType::NetworkedPlayer,
                                                                health_addr,
                                                                rota_addr: rotation_addr,
                                                            },
                                                        ),
                                                        seq![
                                                            (health_addr, 4u64),
                                                            (rotation_addr, 8u64),
                                                        ],
                                                    )
                                                },
                                            },
                                        }
                                    },
                                }
                            },
                        },
                    }
                },
            }
        },
    }
}

impl MemoryImage {
    /// Read a foreign object's name buffer.
    pub fn get_object_bytes(&self, object_ptr: u64, length: u64, uo: &UnityOffsets) -> (r: Result<
        Vec<u8>,
        ProbeError,
    >)
        requires
            self.wf(),
        ensures
            match object_bytes_spec(*self, object_ptr, length, *uo) {
                Ok(b) => r matches Ok(v) && v@ == b,
                Err(e) => r == Err::<Vec<u8>, ProbeError>(e),
            },
    {
        proof {
            reveal(object_bytes_spec);
        }
        let name_ptr = match self.mem_read_chain(object_ptr, &uo.object_name_chain) {
            Ok(p) => p,
            Err(e) => {
                return Err(e);
            },
        };
        match self.read_bytes(name_ptr, length) {
            Some(v) => Ok(v),
            None => Err(ProbeError::MemoryRead { addr: name_ptr, len: length }),
        }
    }

    /// Resolve one entity into a tracked record, registering its volatile
    /// fields in the batch (the registrations a failed resolution made are
    /// kept; they are harmless pending reads).
    pub fn get_player_details(
        &self,
        batch: &mut ScatterBatch,
        player_ptr: u64,
        p_type: &PlayerType,
        po: &PlayerOffsets,
    ) -> (r: Result<Player, ProbeError>)
        requires
            self.wf(),
        ensures
            r == player_details_spec(*self, player_ptr, *p_type, *po).0,
            final(batch).entries@ == old(batch).entries@.add(
                entries_of(player_details_spec(*self, player_ptr, *p_type, *po).1),
            ),
    {
        proof {
            reveal(player_details_spec);
            assert(old(batch).entries@.add(entries_of(Seq::empty())) =~= old(batch).entries@);
        }
        match p_type {
            PlayerType::ClientPlayer | PlayerType::MainPlayer => {
                let pa = player_ptr.wrapping_add(po.profile);
                let profile_ptr = match self.read_u64(pa) {
                    Some(v) => v,
                    None => {
                        return Err(ProbeError::MemoryRead { addr: pa, len: 8 });
                    },
                };
                let ia = profile_ptr.wrapping_add(po.info);
                let info_ptr = match self.read_u64(ia) {
                    Some(v) => v,
                    None => {
                        return Err(ProbeError::MemoryRead { addr: ia, len: 8 });
                    },
                };
                let fa = info_ptr.wrapping_add(po.faction);
                let faction_value = match self.read_i32(fa) {
                    Some(v) => v,
                    None => {
                        return Err(ProbeError::MemoryRead { addr: fa, len: 4 });
                    },
                };
                let ma = player_ptr.wrapping_add(po.movement_context);
                let move_ctx = match self.read_u64(ma) {
                    Some(v) => v,
                    None => {
                        return Err(ProbeError::MemoryRead { addr: ma, len: 8 });
                    },
                };
                let rotation_addr = move_ctx.wrapping_add(po.rotation);
                batch.prepare(rotation_addr, 8);
                proof {
                    assert(old(batch).entries@.push(
                        ScatterEntry { addr: rotation_addr, len: 8, value: None },
                    ) =~= old(batch).entries@.add(entries_of(seq![(rotation_addr, 8u64)])));
                }
                let faction = match Faction::from_code(faction_value) {
                    Ok(f) => f,
                    Err(e) => {
                        return Err(e);
                    },
                };
                Ok(
                    Player {
                        ptr: player_ptr,
                        faction,
                        human: true,
                        player_type: *p_type,
                        health_addr: 0,
                        rota_addr: rotation_addr,
                    },
                )
            },
            PlayerType::NetworkedPlayer => {
                let ca = player_ptr.wrapping_add(po.networked_player_controller);
                let controller = match self.read_u64(ca) {
                    Some(v) => v,
                    None => {
                        return Err(ProbeError::MemoryRead { addr: ca, len: 8 });
                    },
                };
                let ha = controller.wrapping_add(po.networked_health_controller);
                let health_ptr = match self.read_u64(ha) {
                    Some(v) => v,
                    None => {
                        return Err(ProbeError::MemoryRead { addr: ha, len: 8 });
                    },
                };
                let move_ctx = match self.mem_read_chain(
                    controller,
                    &po.networked_movement_chain,
                ) {
                    Ok(p) => p,
                    Err(e) => {
                        return Err(e);
                    },
                };
                let ba = player_ptr.wrapping_add(po.networked_is_bot);
                let bot_byte = match self.read_u8(ba) {
                    Some(v) => v,
                    None => {
                        return Err(ProbeError::MemoryRead { addr: ba, len: 1 });
                    },
                };
                let fa = player_ptr.wrapping_add(po.networked_faction);
                let faction_value = match self.read_i32(fa) {
                    Some(v) => v,
                    None => {
                        return Err(ProbeError::MemoryRead { addr: fa, len: 4 });
                    },
                };
                let faction = match Faction::from_code(faction_value) {
                    Ok(f) => f,
                    Err(e) => {
                        return Err(e);
                    },
                };
                let rotation_addr = move_ctx.wrapping_add(po.networked_rotation);
                let health_addr = health_ptr.wrapping_add(po.networked_health_value);
                batch.prepare(health_addr, 4);
                batch.prepare(rotation_addr, 8);
                proof {
                    assert(old(batch).entries@.push(
                        ScatterEntry { addr: health_addr, len: 4, value: None },
                    ).push(ScatterEntry { addr: rotation_addr, len: 8, value: None }) =~= old(
                        batch,
                    ).entries@.add(
                        entries_of(seq![(health_addr, 4u64), (rotation_addr, 8u64)]),
                    ));
                }
                Ok(
                    Player {
                        ptr: player_ptr,
                        faction,
                        human: bot_byte == 0,
                        player_type: PlayerType::NetworkedPlayer,
                        health_addr,
                        rota_addr: rotation_addr,
                    },
                )
            },
        }
    }
}

/// The pointers kept from a decoded entity array: null pointers and the
/// configured self pointer are skipped, order and duplicates kept.
pub open spec fn keep_pointers(s: Seq<u64>, ignore: u64) -> Seq<u64>
    decreases s.len(),
{
    if s.len() == 0 {
        Seq::empty()
    } else {
        let rest = keep_pointers(s.drop_first(), ignore);
        if s[0] != 0 && s[0] != ignore {
            seq![s[0]].add(rest)
        } else {
            rest
        }
    }
}

/// Drop null pointers and the self pointer from a decoded entity array.
pub fn retain_valid_pointers(v: &Vec<u64>, ignore: u64) -> (r: Vec<u64>)
    ensures
        r@ == keep_pointers(v@, ignore),
{
    let mut out: Vec<u64> = Vec::new();
    let mut i: usize = 0;
    proof {
        assert(v@.skip(0) =~= v@);
        lemma_keep_pointers_acc(out@, v@, ignore);
    }
    while i < v.len()
        invariant
            i <= v@.len(),
            keep_pointers(v@, ignore) == out@.add(keep_pointers(v@.skip(i as int), ignore)),
        decreases v@.len() - i,
    {
        proof {
            assert(v@.skip(i as int)[0] == v@[i as int]);
            assert(v@.skip(i as int).drop_first() =~= v@.skip(i as int + 1));
        }
        let x = v[i];
        if x != 0 && x != ignore {
            proof {
                assert(out@.add(seq![x].add(keep_pointers(v@.skip(i as int + 1), ignore))) =~= out@
                    .push(x).add(keep_pointers(v@.skip(i as int + 1), ignore)));
            }
            out.push(x);
        }
        i += 1;
    }
    proof {
        assert(out@.add(Seq::<u64>::empty()) =~= out@);
    }
    out
}

proof fn lemma_keep_pointers_acc(acc: Seq<u64>, s: Seq<u64>, ignore: u64)
    ensures
        acc.len() == 0 ==> acc.add(keep_pointers(s, ignore)) == keep_pointers(s, ignore),
{
    if acc.len() == 0 {
        assert(acc.add(keep_pointers(s, ignore)) =~= keep_pointers(s, ignore));
    }
}

/// What one array entry contributes: nothing when its name cannot be read
/// (the entity is skipped), otherwise the outcome of its resolution under
/// its name-prefix classification.
pub open spec fn entity_spec(m: MemoryImage, p: u64, uo: UnityOffsets, po: PlayerOffsets) -> (
    Seq<Player>,
    Seq<(u64, u64)>,
) {
    match object_bytes_spec(m, p, 64, uo) {
        Err(_) => (Seq::empty(), Seq::empty()),
        Ok(bytes) => {
            let pt = player_type_spec(bytes);
            let (res, pushes) = player_details_spec(m, p, pt, po);
            match res {
                Ok(player) => (seq![player], pushes),
                Err(_) => (Seq::empty(), pushes),
            }
        },
    }
}

/// Per-entity resolution over an array of entity pointers; failures are
/// isolated, every entity is resolved independently.
pub open spec fn enumerate_spec(
    m: MemoryImage,
    ptrs: Seq<u64>,
    uo: UnityOffsets,
    po: PlayerOffsets,
) -> (Seq<Player>, Seq<(u64, u64)>)
    decreases ptrs.len(),
{
    if ptrs.len() == 0 {
        (Seq::empty(), Seq::empty())
    } else {
        let head = entity_spec(m, ptrs[0], uo, po);
        let rest = enumerate_spec(m, ptrs.drop_first(), uo, po);
        (head.0.add(rest.0), head.1.add(rest.1))
    }
}

/// Enumeration consumes its array front to back.
pub proof fn lemma_enumerate_snoc(
    m: MemoryImage,
    ptrs: Seq<u64>,
    x: u64,
    uo: UnityOffsets,
    po: PlayerOffsets,
)
    ensures
        enumerate_spec(m, ptrs.push(x), uo, po).0 == enumerate_spec(m, ptrs, uo, po).0.add(
            entity_spec(m, x, uo, po).0,
        ),
        enumerate_spec(m, ptrs.push(x), uo, po).1 == enumerate_spec(m, ptrs, uo, po).1.add(
            entity_spec(m, x, uo, po).1,
        ),
    decreases ptrs.len(),
{
    if ptrs.len() == 0 {
        assert(ptrs.push(x)[0] == x);
        assert(ptrs.push(x).drop_first() =~= Seq::<u64>::empty());
        assert(enumerate_spec(m, Seq::<u64>::empty(), uo, po).0 == Seq::<Player>::empty());
        assert(enumerate_spec(m, Seq::<u64>::empty(), uo, po).1 == Seq::<(u64, u64)>::empty());
        assert(enumerate_spec(m, ptrs, uo, po).0.add(entity_spec(m, x, uo, po).0) =~= entity_spec(
            m,
            x,
            uo,
            po,
        ).0.add(Seq::empty()));
        assert(entity_spec(m, x, uo, po).0.add(Seq::empty()) =~= entity_spec(m, x, uo, po).0);
        assert(enumerate_spec(m, ptrs.push(x), uo, po).0 =~= entity_spec(m, x, uo, po).0);
        assert(enumerate_spec(m, ptrs, uo, po).1.add(entity_spec(m, x, uo, po).1) =~= entity_spec(
            m,
            x,
            uo,
            po,
        ).1.add(Seq::empty()));
        assert(entity_spec(m, x, uo, po).1.add(Seq::empty()) =~= entity_spec(m, x, uo, po).1);
        assert(enumerate_spec(m, ptrs.push(x), uo, po).1 =~= entity_spec(m, x, uo, po).1);
    } else {
        lemma_enumerate_snoc(m, ptrs.drop_first(), x, uo, po);
        assert(ptrs.push(x)[0] == ptrs[0]);
        assert(ptrs.push(x).drop_first() =~= ptrs.drop_first().push(x));
        assert(enumerate_spec(m, ptrs, uo, po).0.add(entity_spec(m, x, uo, po).0) =~= entity_spec(
            m,
            ptrs[0],
            uo,
            po,
        ).0.add(enumerate_spec(m, ptrs.drop_first(), uo, po).0.add(entity_spec(m, x, uo, po).0)));
        assert(enumerate_spec(m, ptrs, uo, po).1.add(entity_spec(m, x, uo, po).1) =~= entity_spec(
            m,
            ptrs[0],
            uo,
            po,
        ).1.add(enumerate_spec(m, ptrs.drop_first(), uo, po).1.add(entity_spec(m, x, uo, po).1)));
    }
}

/// The whole enumeration of the entity array, as a function of the image:
/// the records produced and the batch registrations made.
pub open spec fn get_all_players_spec(
    m: MemoryImage,
    game_world_ptr: u64,
    player_to_ignore: u64,
    uo: UnityOffsets,
    go: GameOffsets,
    po: PlayerOffsets,
) -> (Result<Seq<Player>, ProbeError>, Seq<(u64, u64)>) {
    let aa = game_world_ptr.wrapping_add(go.all_players);
    match m.read_u64_spec(aa) {
        None => (Err(ProbeError::MemoryRead { addr: aa, len: 8 }), Seq::empty()),
        Some(players_address) => {
            let ca = players_address.wrapping_add(uo.array_count_offset);
            match m.read_i32_spec(ca) {
                None => (Err(ProbeError::MemoryRead { addr: ca, len: 4 }), Seq::empty()),
                Some(player_count) => {
                    let va = players_address.wrapping_add(uo.array_offset);
                    match m.read_u64_spec(va) {
                        None => (Err(ProbeError::MemoryRead { addr: va, len: 8 }), Seq::empty()),
                        Some(vec_base) => if player_count < 0 {
                            (Err(ProbeError::Decode), Seq::empty())
                        } else {
                            let vec_ptr = vec_base.wrapping_add(uo.array_start);
                            match read_array_from(m, vec_ptr, player_count as nat) {
                                Err(e) => (Err(e), Seq::empty()),
                                Ok(raw) => {
                                    let kept = keep_pointers(raw, player_to_ignore);
                                    let r = enumerate_spec(m, kept, uo, po);
                                    (Ok(r.0), r.1)
                                },
                            }
                        },
                    }
                },
            }
        },
    }
}

/// The full entity walk: the main entity resolved explicitly first, then
/// the array with the main entity's pointer excluded, the main record
/// appended last.
pub open spec fn get_players_spec(
    m: MemoryImage,
    game_world_ptr: u64,
    uo: UnityOffsets,
    go: GameOffsets,
    po: PlayerOffsets,
) -> (Result<Seq<Player>, ProbeError>, Seq<(u64, u64)>) {
    let la = game_world_ptr.wrapping_add(go.main_player);
    match m.read_u64_spec(la) {
        None => (Err(ProbeError::MemoryRead { addr: la, len: 8 }), Seq::empty()),
        Some(local_player_ptr) => {
            let main = player_details_spec(m, local_player_ptr, PlayerType::MainPlayer, po);
            match main.0 {
                Err(e) => (Err(e), main.1),
                Ok(main_player) => {
                    let all = get_all_players_spec(m, game_world_ptr, local_player_ptr, uo, go, po);
                    match all.0 {
                        Err(e) => (Err(e), main.1.add(all.1)),
                        Ok(players) => (Ok(players.push(main_player)), main.1.add(all.1)),
                    }
                },
            }
        },
    }
}

impl MemoryImage {
    /// Enumerate the entity array: decode its header, read its pointers in
    /// one batched read, skip null pointers and the excluded self pointer,
    /// classify each remaining entity by name prefix and resolve it;
    /// per-entity failures are isolated.
    pub fn get_all_players(
        &self,
        batch: &mut ScatterBatch,
        game_world_ptr: u64,
        player_to_ignore: u64,
        uo: &UnityOffsets,
        go: &GameOffsets,
        po: &PlayerOffsets,
    ) -> (r: Result<Vec<Player>, ProbeError>)
        requires
            self.wf(),
        ensures
            ({
                let spec = get_all_players_spec(
                    *self,
                    game_world_ptr,
                    player_to_ignore,
                    *uo,
                    *go,
                    *po,
                );
                &&& match spec.0 {
                    Ok(ps) => r matches Ok(v) && v@ == ps,
                    Err(e) => r == Err::<Vec<Player>, ProbeError>(e),
                }
                &&& final(batch).entries@ == old(batch).entries@.add(entries_of(spec.1))
            }),
    {
        proof {
            assert(old(batch).entries@.add(entries_of(Seq::empty())) =~= old(batch).entries@);
        }
        let aa = game_world_ptr.wrapping_add(go.all_players);
        let players_address = match self.read_u64(aa) {
            Some(v) => v,
            None => {
                return Err(ProbeError::MemoryRead { addr: aa, len: 8 });
            },
        };
        let ca = players_address.wrapping_add(uo.array_count_offset);
        let player_count = match self.read_i32(ca) {
            Some(v) => v,
            None => {
                return Err(ProbeError::MemoryRead { addr: ca, len: 4 });
            },
        };
        let va = players_address.wrapping_add(uo.array_offset);
        let vec_base = match self.read_u64(va) {
            Some(v) => v,
            None => {
                return Err(ProbeError::MemoryRead { addr: va, len: 8 });
            },
        };
        if player_count < 0 {
            return Err(ProbeError::Decode);
        }
        let vec_ptr = vec_base.wrapping_add(uo.array_start);
        let raw = match self.mem_read_array_into_buffer(vec_ptr, player_count as usize) {
            Ok(v) => v,
            Err(e) => {
                return Err(e);
            },
        };
        let kept = retain_valid_pointers(&raw, player_to_ignore);
        let ghost kept_seq = kept@;
        let mut out: Vec<Player> = Vec::new();
        let mut i: usize = 0;
        proof {
            assert(kept_seq.take(0) =~= Seq::<u64>::empty());
            assert(out@ =~= enumerate_spec(*self, kept_seq.take(0), *uo, *po).0);
            assert(old(batch).entries@.add(
                entries_of(enumerate_spec(*self, kept_seq.take(0), *uo, *po).1),
            ) =~= old(batch).entries@);
        }
        while i < kept.len()
            invariant
                self.wf(),
                i <= kept@.len(),
                kept_seq == kept@,
                out@ == enumerate_spec(*self, kept_seq.take(i as int), *uo, *po).0,
                batch.entries@ == old(batch).entries@.add(
                    entries_of(enumerate_spec(*self, kept_seq.take(i as int), *uo, *po).1),
                ),
            decreases kept@.len() - i,
        {
            let p = kept[i];
            proof {
                lemma_enumerate_snoc(*self, kept_seq.take(i as int), p, *uo, *po);
                assert(kept_seq.take(i as int).push(p) =~= kept_seq.take(i as int + 1));
            }
            match self.get_object_bytes(p, 64, uo) {
                Err(_) => {
                    proof {
                        assert(out@.add(Seq::<Player>::empty()) =~= out@);
                        assert(entries_of(
                            enumerate_spec(*self, kept_seq.take(i as int), *uo, *po).1.add(
                                Seq::empty(),
                            ),
                        ) =~= entries_of(
                            enumerate_spec(*self, kept_seq.take(i as int), *uo, *po).1,
                        ));
                    }
                },
                Ok(bytes) => {
                    let pt = PlayerType::player_type_from_bytes(bytes.as_slice());
                    let ghost pre = batch.entries@;
                    let res = self.get_player_details(batch, p, &pt, po);
                    proof {
                        let head = entity_spec(*self, p, *uo, *po);
                        let prior = enumerate_spec(*self, kept_seq.take(i as int), *uo, *po);
                        assert(entries_of(prior.1.add(head.1)) =~= entries_of(prior.1).add(
                            entries_of(head.1),
                        ));
                        assert(old(batch).entries@.add(entries_of(prior.1)).add(
                            entries_of(head.1),
                        ) =~= old(batch).entries@.add(entries_of(prior.1).add(entries_of(head.1))));
                    }
                    match res {
                        Ok(player) => {
                            proof {
                                let head = entity_spec(*self, p, *uo, *po);
                                assert(out@.add(head.0) =~= out@.push(player));
                            }
                            out.push(player);
                        },
                        Err(_) => {
                            proof {
                                assert(out@.add(Seq::<Player>::empty()) =~= out@);
                            }
                        },
                    }
                },
            }
            i += 1;
        }
        proof {
            assert(kept_seq.take(kept_seq.len() as int) =~= kept_seq);
        }
        Ok(out)
    }

    /// Resolve the main entity and enumerate the rest of the population;
    /// the main record is appended last and its pointer is not duplicated
    /// by the array walk.
    pub fn get_players(
        &self,
        batch: &mut ScatterBatch,
        game_world_ptr: u64,
        uo: &UnityOffsets,
        go: &GameOffsets,
        po: &PlayerOffsets,
    ) -> (r: Result<Vec<Player>, ProbeError>)
        requires
            self.wf(),
        ensures
            ({
                let spec = get_players_spec(*self, game_world_ptr, *uo, *go, *po);
                &&& match spec.0 {
                    Ok(ps) => r matches Ok(v) && v@ == ps,
                    Err(e) => r == Err::<Vec<Player>, ProbeError>(e),
                }
                &&& final(batch).entries@ == old(batch).entries@.add(entries_of(spec.1))
            }),
    {
        proof {
            assert(old(batch).entries@.add(entries_of(Seq::empty())) =~= old(batch).entries@);
        }
        let la = game_world_ptr.wrapping_add(go.main_player);
        let local_player_ptr = match self.read_u64(la) {
            Some(v) => v,
            None => {
                return Err(ProbeError::MemoryRead { addr: la, len: 8 });
            },
        };
        let main_player = match self.get_player_details(
            batch,
            local_player_ptr,
            &PlayerType::MainPlayer,
            po,
        ) {
            Ok(p) => p,
            Err(e) => {
                return Err(e);
            },
        };
        let ghost after_main = batch.entries@;
        let mut all = match self.get_all_players(
            batch,
            game_world_ptr,
            local_player_ptr,
            uo,
            go,
            po,
        ) {
            Ok(v) => v,
            Err(e) => {
                proof {
                    let main = player_details_spec(
                        *self,
                        local_player_ptr,
                        PlayerType::MainPlayer,
                        *po,
                    );
                    let allspec = get_all_players_spec(
                        *self,
                        game_world_ptr,
                        local_player_ptr,
                        *uo,
                        *go,
                        *po,
                    );
                    assert(entries_of(main.1.add(allspec.1)) =~= entries_of(main.1).add(
                        entries_of(allspec.1),
                    ));
                    assert(old(batch).entries@.add(entries_of(main.1)).add(
                        entries_of(allspec.1),
                    ) =~= old(batch).entries@.add(entries_of(main.1).add(entries_of(allspec.1))));
                }
                return Err(e);
            },
        };
        proof {
            let main = player_details_spec(*self, local_player_ptr, PlayerType::MainPlayer, *po);
            let allspec = get_all_players_spec(
                *self,
                game_world_ptr,
                local_player_ptr,
                *uo,
                *go,
                *po,
            );
            assert(entries_of(main.1.add(allspec.1)) =~= entries_of(main.1).add(
                entries_of(allspec.1),
            ));
            assert(old(batch).entries@.add(entries_of(main.1)).add(entries_of(allspec.1)) =~= old(
                batch,
            ).entries@.add(entries_of(main.1).add(entries_of(allspec.1))));
        }
        all.push(main_player);
        Ok(all)
    }
}

/// One snapshot from cached values alone: the cached vitality bucketed and
/// the cached orientation taken over; no new read is issued.
pub open spec fn populate_player_spec(batch: ScatterBatch, player: Player) -> Result<
    PopulatedPlayer,
    ProbeError,
> {
    match batch.cached_i32_spec(player.health_addr) {
        None => Err(ProbeError::MemoryRead { addr: player.health_addr, len: 4 }),
        Some(h) => match batch.cached_rotation_spec(player.rota_addr) {
            None => Err(ProbeError::MemoryRead { addr: player.rota_addr, len: 8 }),
            Some(rot) => Ok(
                PopulatedPlayer {
                    faction: player.faction,
                    human: player.human,
                    player_type: player.player_type,
                    health_status: health_status_spec(h as int),
                    rotation: rot,
                },
            ),
        },
    }
}

impl MemoryImage {
    /// Materialise one snapshot for a tracked entity from the executed
    /// batch.
    pub fn populate_player(batch: &ScatterBatch, player: &Player) -> (r: Result<
        PopulatedPlayer,
        ProbeError,
    >)
        ensures
            r == populate_player_spec(*batch, *player),
    {
        let health_value = match batch.read_i32_cached(player.health_addr) {
            Ok(v) => v,
            Err(e) => {
                return Err(e);
            },
        };
        let rotation = match batch.read_rotation_cached(player.rota_addr) {
            Ok(v) => v,
            Err(e) => {
                return Err(e);
            },
        };
        Ok(
            PopulatedPlayer {
                faction: player.faction,
                human: player.human,
                player_type: player.player_type,
                health_status: HealthStatus::from_raw(health_value),
                rotation,
            },
        )
    }
}

/// The snapshots of one cycle, in enumeration order; entities whose cached
/// values are missing are skipped, never aborting the cycle.
pub open spec fn sample_cycle_spec(batch: ScatterBatch, players: Seq<Player>) -> Seq<
    PopulatedPlayer,
>
    decreases players.len(),
{
    if players.len() == 0 {
        Seq::empty()
    } else {
        let rest = sample_cycle_spec(batch, players.drop_first());
        match populate_player_spec(batch, players[0]) {
            Ok(s) => seq![s].add(rest),
            Err(_) => rest,
        }
    }
}

/// Produce the cycle's snapshots from the executed batch; per-entity
/// failures are isolated.
pub fn sample_cycle(batch: &ScatterBatch, players: &Vec<Player>) -> (r: Vec<PopulatedPlayer>)
    ensures
        r@ == sample_cycle_spec(*batch, players@),
{
    let mut out: Vec<PopulatedPlayer> = Vec::new();
    let mut i: usize = 0;
    proof {
        assert(players@.skip(0) =~= players@);
        if out@.len() == 0 {
            assert(out@.add(sample_cycle_spec(*batch, players@)) =~= sample_cycle_spec(
                *batch,
                players@,
            ));
        }
    }
    while i < players.len()
        invariant
            i <= players@.len(),
            sample_cycle_spec(*batch, players@) == out@.add(
                sample_cycle_spec(*batch, players@.skip(i as int)),
            ),
        decreases players@.len() - i,
    {
        proof {
            assert(players@.skip(i as int)[0] == players@[i as int]);
            assert(players@.skip(i as int).drop_first() =~= players@.skip(i as int + 1));
        }
        match MemoryImage::populate_player(batch, &players[i]) {
            Ok(s) => {
                proof {
                    assert(out@.add(
                        seq![s].add(sample_cycle_spec(*batch, players@.skip(i as int + 1))),
                    ) =~= out@.push(s).add(sample_cycle_spec(*batch, players@.skip(i as int + 1))));
                }
                out.push(s);
            },
            Err(_) => {},
        }
        i += 1;
    }
    proof {
        assert(players@.skip(players@.len() as int) =~= Seq::<Player>::empty());
        assert(out@.add(Seq::<PopulatedPlayer>::empty()) =~= out@);
    }
    out
}

} // verus!
