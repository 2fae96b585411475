//! Structural configuration: externally supplied byte offsets into known
//! foreign struct layouts.
//!
//! These values are reverse-engineered constants, not part of the engine's
//! algorithms; they are loaded once and passed in as immutable data.

use vstd::prelude::*;

verus! {

/// Offsets into the foreign player-entity layouts.
pub struct PlayerOffsets {
    pub location: u64,
    pub profile: u64,
    pub movement_context: u64,
    pub info: u64,
    pub faction: u64,
    pub group_id: u64,
    pub rotation: u64,
    pub networked_is_bot: u64,
    pub networked_player_controller: u64,
    pub networked_health_controller: u64,
    pub networked_health_value: u64,
    pub networked_rotation: u64,
    pub networked_faction: u64,
    pub networked_voice: u64,
    pub networked_movement_chain: Vec<u64>,
    pub networked_group_id: u64,
}

/// The player offsets of the currently supported foreign build.
pub fn player_offsets() -> (r: PlayerOffsets)
    ensures
        r.location == 0x870,
        r.profile == 0x900,
        r.movement_context == 0x60,
        r.info == 0x48,
        r.faction == 0x48,
        r.group_id == 0x50,
        r.rotation == 0xC8,
        r.networked_is_bot == 0xA0,
        r.networked_player_controller == 0x28,
        r.networked_health_controller == 0xE8,
        r.networked_health_value == 0x10,
        r.networked_rotation == 0x20,
        r.networked_faction == 0x94,
        r.networked_voice == 0x40,
        r.networked_movement_chain@ == seq![0xD8u64, 0x98u64],
        r.networked_group_id == 0x80,
{
    let mut chain: Vec<u64> = Vec::new();
    chain.push(0xD8);
    chain.push(0x98);
    proof {
        assert(chain@ =~= seq![0xD8u64, 0x98u64]);
    }
    PlayerOffsets {
        location: 0x870,
        profile: 0x900,
        movement_context: 0x60,
        info: 0x48,
        faction: 0x48,
        group_id: 0x50,
        rotation: 0xC8,
        networked_is_bot: 0xA0,
        networked_player_controller: 0x28,
        networked_health_controller: 0xE8,
        networked_health_value: 0x10,
        networked_rotation: 0x20,
        networked_faction: 0x94,
        networked_voice: 0x40,
        networked_movement_chain: chain,
        networked_group_id: 0x80,
    }
}

/// Offsets into the foreign world/session layout.
pub struct GameOffsets {
    pub main_player: u64,
    pub all_players: u64,
    pub location_id: u64,
}

/// Offsets into the foreign engine-runtime layouts: object names and
/// dynamic-array headers.
pub struct UnityOffsets {
    pub object_name_chain: Vec<u64>,
    pub game_object_name: u64,
    pub game_world_chain: Vec<u64>,
    pub unity_utf8: u64,
    pub array_count_offset: u64,
    pub array_offset: u64,
    pub array_start: u64,
}

/// How the anchor pointer is reconstructed from a signature match: the
/// 4-byte relative displacement sits at `displacement_offset` into the
/// matched idiom, and the displacement is relative to the end of the
/// `instruction_len`-byte instruction.
pub struct SignatureFixup {
    pub displacement_offset: u64,
    pub instruction_len: u64,
}

impl SignatureFixup {
    /// The fixup of the relative-addressing idiom the root signature matches.
    pub fn defaults() -> (r: SignatureFixup)
        ensures
            r.displacement_offset == 3,
            r.instruction_len == 7,
    {
        SignatureFixup { displacement_offset: 3, instruction_len: 7 }
    }
}

} // verus!
