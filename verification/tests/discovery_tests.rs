use remote_probe::anchor::parse_signature;
use remote_probe::decode::Encoding;
use remote_probe::game_world::{dual_search, GameWorld, LinkedListObject, SearchWorker, StepOutcome};
use remote_probe::mem::MemoryImage;
use remote_probe::offsets::{GameOffsets, PlayerOffsets, SignatureFixup, UnityOffsets, player_offsets};
use remote_probe::players::{Faction, HealthStatus, PlayerType, Rotation2};
use remote_probe::scatter::ScatterBatch;
use remote_probe::ProbeError;

const NODE_BASE: u64 = 0x40000;
const OBJ_BASE: u64 = 0x50000;
const NAME_BASE: u64 = 0x58000;
const WORLD: u64 = 0x60000;
const MAP_PTR: u64 = 0x70000;
const MAIN: u64 = 0x80000;
const PLAYERS_ADDR: u64 = 0x90000;
const VEC_BASE: u64 = 0xA0000;
const NETWORKED: u64 = 0xB0000;
const NET_NAME: u64 = 0xB8000;
const PROFILE: u64 = 0xC0000;
const INFO: u64 = 0xD0000;
const MAIN_MC: u64 = 0xE0000;
const CONTROLLER: u64 = 0xF0000;
const HEALTH_CTRL: u64 = 0x100000;
const MOVE_HOP: u64 = 0x110000;
const NET_MC: u64 = 0x120000;

fn put(img: &mut MemoryImage, addr: u64, bytes: Vec<u8>) {
    assert!(img.add_region(addr, bytes), "overlapping mock region at {addr:#x}");
}

fn put_u64(img: &mut MemoryImage, addr: u64, v: u64) {
    put(img, addr, v.to_le_bytes().to_vec());
}

fn put_i32(img: &mut MemoryImage, addr: u64, v: i32) {
    put(img, addr, v.to_le_bytes().to_vec());
}

fn name_buf(name: &[u8]) -> Vec<u8> {
    let mut b = name.to_vec();
    b.resize(64, 0);
    b
}

fn test_offsets() -> (UnityOffsets, GameOffsets, PlayerOffsets) {
    let uo = UnityOffsets {
        object_name_chain: vec![0x10],
        game_object_name: 0x10,
        game_world_chain: vec![0x30],
        unity_utf8: 0x10,
        array_count_offset: 0x18,
        array_offset: 0x10,
        array_start: 0x20,
    };
    let go = GameOffsets { main_player: 0x18, all_players: 0x20, location_id: 0x08 };
    (uo, go, player_offsets())
}

/// A four-node list whose `target`-th payload is the live world object.
fn build_list(img: &mut MemoryImage, target: usize) -> (LinkedListObject, LinkedListObject) {
    let node = |i: usize| NODE_BASE + (i as u64) * 0x100;
    for i in 0..4usize {
        let prev = if i == 0 { 0 } else { node(i - 1) };
        let next = if i == 3 { 0 } else { node(i + 1) };
        let obj = OBJ_BASE + (i as u64) * 0x1000;
        put_u64(img, node(i), prev);
        put_u64(img, node(i) + 8, next);
        put_u64(img, node(i) + 16, obj);
        // each payload's name pointer and name buffer
        put_u64(img, obj + 0x10, NAME_BASE + (i as u64) * 0x100);
        let name = if i == target { name_buf(b"GameWorld") } else { name_buf(b"OtherObject") };
        put(img, NAME_BASE + (i as u64) * 0x100, name);
        // the world chain from the payload
        put_u64(img, obj + 0x30, WORLD);
    }
    let first = img.read_node(node(0)).unwrap();
    let last = img.read_node(node(3)).unwrap();
    (first, last)
}

fn build_world(img: &mut MemoryImage, map_name: &str) {
    put_u64(img, WORLD + 0x08, MAP_PTR);
    let mut wide = Vec::new();
    for u in map_name.encode_utf16() {
        wide.extend_from_slice(&u.to_le_bytes());
    }
    wide.resize(128, 0);
    put(img, MAP_PTR + 0x10, wide);
}

fn alternating(n: usize) -> Vec<bool> {
    (0..2 * n).map(|i| i % 2 == 0).collect()
}

#[test]
fn signature_text_parses_with_wildcards() {
    let sig = parse_signature(b"48 89 05 ?? ?? ?? ?? 48 83 C4 ?? C3 33 C9").unwrap();
    assert_eq!(sig.len(), 14);
    assert_eq!(sig[0], (0x48, false));
    assert_eq!(sig[3], (0x00, true));
    assert_eq!(sig[10], (0x00, true));
    assert_eq!(sig[13], (0xC9, false));
}

#[test]
fn signature_text_accepts_single_digit_tokens() {
    let sig = parse_signature(b"4 ?? f").unwrap();
    assert_eq!(sig, vec![(0x04, false), (0x00, true), (0x0F, false)]);
}

#[test]
fn signature_text_rejects_garbage() {
    assert_eq!(parse_signature(b"4G 00"), Err(ProbeError::Decode));
    assert_eq!(parse_signature(b"48 ???"), Err(ProbeError::Decode));
    assert_eq!(parse_signature(b"123"), Err(ProbeError::Decode));
}

#[test]
fn scan_finds_first_match_and_reports_absence() {
    let mut img = MemoryImage::new();
    let mut module = vec![0u8; 0x40];
    module[0x20..0x2E].copy_from_slice(&[
        0x48, 0x89, 0x05, 0xD9, 0xFF, 0x00, 0x00, 0x48, 0x83, 0xC4, 0x12, 0xC3, 0x33, 0xC9,
    ]);
    put(&mut img, 0x10000, module);
    let a = img
        .get_game_address(0x10000, 0x40, b"48 89 05 ?? ?? ?? ?? 48 83 C4 ?? C3 33 C9")
        .unwrap();
    assert_eq!(a, 0x10020);
    assert_eq!(
        img.get_game_address(0x10000, 0x40, b"AA BB CC"),
        Err(ProbeError::SignatureNotFound)
    );
    assert_eq!(
        img.get_game_address(0x20000, 0x40, b"48"),
        Err(ProbeError::MemoryRead { addr: 0x20000, len: 0x40 })
    );
}

fn run_search(target: usize, schedule: &[bool]) -> Result<GameWorld, ProbeError> {
    let mut img = MemoryImage::new();
    let (first, last) = build_list(&mut img, target);
    build_world(&mut img, "Customs");
    let (uo, go, po) = test_offsets();
    dual_search(&img, first, last, &schedule.to_vec(), &uo, &go, &po)
}

#[test]
fn dual_search_finds_target_at_front() {
    // position 0: only the forward side can parse it; give both sides turns
    let gw = run_search(0, &alternating(8)).unwrap();
    assert_eq!(gw.game_world_ptr, WORLD);
    assert_eq!(gw.map_name, "Customs");
}

#[test]
fn dual_search_finds_target_at_back() {
    // position N-1: only the backward side can parse it
    let gw = run_search(3, &alternating(8)).unwrap();
    assert_eq!(gw.game_world_ptr, WORLD);
}

#[test]
fn dual_search_finds_middle_target_from_either_side() {
    // forward side alone wins
    let fw_only = vec![true; 8];
    let gw = run_search(1, &fw_only).unwrap();
    assert_eq!(gw.game_world_ptr, WORLD);
    // backward side alone wins, same answer
    let bw_only = vec![false; 8];
    let gw = run_search(1, &bw_only).unwrap();
    assert_eq!(gw.game_world_ptr, WORLD);
    // and so does any mixed race
    let gw = run_search(2, &alternating(8)).unwrap();
    assert_eq!(gw.game_world_ptr, WORLD);
}

#[test]
fn dual_search_without_match_reports_anchor_not_found() {
    let mut img = MemoryImage::new();
    // no payload is named GameWorld: target index out of the walked range
    let node = |i: usize| NODE_BASE + (i as u64) * 0x100;
    for i in 0..4usize {
        let prev = if i == 0 { 0 } else { node(i - 1) };
        let next = if i == 3 { 0 } else { node(i + 1) };
        let obj = OBJ_BASE + (i as u64) * 0x1000;
        put_u64(&mut img, node(i), prev);
        put_u64(&mut img, node(i) + 8, next);
        put_u64(&mut img, node(i) + 16, obj);
        put_u64(&mut img, obj + 0x10, NAME_BASE + (i as u64) * 0x100);
        put(&mut img, NAME_BASE + (i as u64) * 0x100, name_buf(b"OtherObject"));
    }
    let first = img.read_node(node(0)).unwrap();
    let last = img.read_node(node(3)).unwrap();
    let (uo, go, po) = test_offsets();
    let r = dual_search(&img, first, last, &alternating(8), &uo, &go, &po);
    assert_eq!(r, Err(ProbeError::AnchorNotFound));
}

#[test]
fn hideout_placeholder_is_not_this_node() {
    let mut img = MemoryImage::new();
    let (first, last) = build_list(&mut img, 1);
    build_world(&mut img, "hideout");
    let (uo, go, po) = test_offsets();
    let r = dual_search(&img, first, last, &alternating(8), &uo, &go, &po);
    assert_eq!(r, Err(ProbeError::AnchorNotFound));
}

#[test]
fn cancelled_worker_takes_no_further_step() {
    let mut img = MemoryImage::new();
    let (first, last) = build_list(&mut img, 3);
    build_world(&mut img, "Customs");
    let (uo, go, po) = test_offsets();
    // the losing (forward) side has advanced once when the flag goes up
    let mut loser = SearchWorker::forward_from(first, last);
    assert!(matches!(loser.step(&img, false, &uo, &go, &po), StepOutcome::Advanced));
    let steps_at_cancel = loser.steps;
    assert_eq!(steps_at_cancel, 1);
    // the winner finds the target, the flag is raised; from now on the
    // loser's traversal count never moves again
    let mut winner = SearchWorker::backward_from(first, last);
    assert!(matches!(winner.step(&img, false, &uo, &go, &po), StepOutcome::Found(_)));
    for _ in 0..5 {
        assert!(matches!(loser.step(&img, true, &uo, &go, &po), StepOutcome::Cancelled));
    }
    assert_eq!(loser.steps, steps_at_cancel);
}

fn build_full_process() -> MemoryImage {
    let mut img = MemoryImage::new();
    // module with the root signature at +0x20; its displacement points the
    // fixup at 0x20000
    let mut module = vec![0u8; 0x40];
    module[0x20..0x2E].copy_from_slice(&[
        0x48, 0x89, 0x05, 0xD9, 0xFF, 0x00, 0x00, 0x48, 0x83, 0xC4, 0x12, 0xC3, 0x33, 0xC9,
    ]);
    put(&mut img, 0x10000, module);
    put_u64(&mut img, 0x20000, 0x30000); // anchor pointer
    put_u64(&mut img, 0x30000 + 0x20, NODE_BASE + 3 * 0x100); // last active node
    put_u64(&mut img, 0x30000 + 0x28, NODE_BASE); // active nodes
    build_list(&mut img, 1);
    build_world(&mut img, "Customs");
    // world fields: main entity and the entity array
    put_u64(&mut img, WORLD + 0x18, MAIN);
    put_u64(&mut img, WORLD + 0x20, PLAYERS_ADDR);
    put_i32(&mut img, PLAYERS_ADDR + 0x18, 3);
    put_u64(&mut img, PLAYERS_ADDR + 0x10, VEC_BASE);
    let mut vec_bytes = Vec::new();
    for p in [0u64, MAIN, NETWORKED] {
        vec_bytes.extend_from_slice(&p.to_le_bytes());
    }
    put(&mut img, VEC_BASE + 0x20, vec_bytes);
    // the main (locally-controlled) entity
    put_u64(&mut img, MAIN + 0x900, PROFILE);
    put_u64(&mut img, PROFILE + 0x48, INFO);
    put_i32(&mut img, INFO + 0x48, 1); // USEC
    put_u64(&mut img, MAIN + 0x60, MAIN_MC);
    let mut rot = 0.5f32.to_le_bytes().to_vec();
    rot.extend_from_slice(&2.0f32.to_le_bytes());
    put(&mut img, MAIN_MC + 0xC8, rot);
    // the networked entity
    put_u64(&mut img, NETWORKED + 0x10, NET_NAME);
    put(&mut img, NET_NAME, name_buf(b"ObservedPlayerView"));
    put_u64(&mut img, NETWORKED + 0x28, CONTROLLER);
    put_u64(&mut img, CONTROLLER + 0xE8, HEALTH_CTRL);
    put_u64(&mut img, CONTROLLER + 0xD8, MOVE_HOP);
    put_u64(&mut img, MOVE_HOP + 0x98, NET_MC);
    put(&mut img, NETWORKED + 0xA0, vec![0]); // not autonomous
    put_i32(&mut img, NETWORKED + 0x94, 2); // BEAR
    put_i32(&mut img, HEALTH_CTRL + 0x10, 2048);
    let mut rot2 = 1.5f32.to_le_bytes().to_vec();
    rot2.extend_from_slice(&(-0.25f32).to_le_bytes());
    put(&mut img, NET_MC + 0x20, rot2);
    img
}

#[test]
fn full_cycle_produces_one_networked_snapshot() {
    let img = build_full_process();
    let (uo, go, po) = test_offsets();
    let fix = SignatureFixup::defaults();
    let gw = img
        .get_game_world(
            0x10000,
            0x40,
            b"48 89 05 ?? ?? ?? ?? 48 83 C4 ?? C3 33 C9",
            &fix,
            &uo,
            &go,
            &po,
            16,
        )
        .unwrap();
    assert_eq!(gw.game_world_ptr, WORLD);
    assert_eq!(gw.map_name, "Customs");

    let mut batch = ScatterBatch::new();
    let players = img.get_players(&mut batch, gw.game_world_ptr, &uo, &go, &po).unwrap();
    assert_eq!(players.len(), 2);
    let networked = &players[0];
    assert_eq!(networked.player_type, PlayerType::NetworkedPlayer);
    assert_eq!(networked.faction, Faction::BEAR);
    assert!(networked.human);
    let main = &players[1];
    assert_eq!(main.player_type, PlayerType::MainPlayer);
    assert_eq!(main.faction, Faction::USEC);
    assert_eq!(main.health_addr, 0);

    batch.execute(&img);
    let snapshots = remote_probe::mem::MemoryImage::populate_player(&batch, networked).unwrap();
    assert_eq!(snapshots.health_status, HealthStatus::HIGH);

    let cycle = remote_probe::players::sample_cycle(&batch, &players);
    assert_eq!(cycle.len(), 1);
    let snap = &cycle[0];
    assert_eq!(snap.faction, Faction::BEAR);
    assert_eq!(snap.player_type, PlayerType::NetworkedPlayer);
    assert!(snap.human);
    assert_eq!(snap.health_status, HealthStatus::HIGH);
    assert_eq!(
        snap.rotation,
        Rotation2 { x_bits: 1.5f32.to_bits(), y_bits: (-0.25f32).to_bits() }
    );
}

#[test]
fn entity_with_unknown_faction_is_dropped_for_the_cycle() {
    let mut img = MemoryImage::new();
    let (uo, go, po) = test_offsets();
    put_u64(&mut img, WORLD + 0x18, MAIN);
    put_u64(&mut img, WORLD + 0x20, PLAYERS_ADDR);
    put_i32(&mut img, PLAYERS_ADDR + 0x18, 1);
    put_u64(&mut img, PLAYERS_ADDR + 0x10, VEC_BASE);
    put(&mut img, VEC_BASE + 0x20, NETWORKED.to_le_bytes().to_vec());
    // main resolves fine
    put_u64(&mut img, MAIN + 0x900, PROFILE);
    put_u64(&mut img, PROFILE + 0x48, INFO);
    put_i32(&mut img, INFO + 0x48, 4); // SCAV
    put_u64(&mut img, MAIN + 0x60, MAIN_MC);
    // the networked entity carries a faction code outside the closed set
    put_u64(&mut img, NETWORKED + 0x10, NET_NAME);
    put(&mut img, NET_NAME, name_buf(b"ObservedPlayerView"));
    put_u64(&mut img, NETWORKED + 0x28, CONTROLLER);
    put_u64(&mut img, CONTROLLER + 0xE8, HEALTH_CTRL);
    put_u64(&mut img, CONTROLLER + 0xD8, MOVE_HOP);
    put_u64(&mut img, MOVE_HOP + 0x98, NET_MC);
    put(&mut img, NETWORKED + 0xA0, vec![1]);
    put_i32(&mut img, NETWORKED + 0x94, 3);

    let mut batch = ScatterBatch::new();
    let players = img.get_players(&mut batch, WORLD, &uo, &go, &po).unwrap();
    assert_eq!(players.len(), 1);
    assert_eq!(players[0].faction, Faction::SCAV);
    // only the main entity's orientation field was registered
    assert_eq!(batch.entries.len(), 1);
    assert_eq!(batch.entries[0].addr, MAIN_MC + 0xC8);
}

#[test]
fn string_read_from_image_decodes_in_place() {
    let mut img = MemoryImage::new();
    put(&mut img, 0x7000, name_buf(b"GameWorld"));
    let s = img.mem_read_string(0x7000, 64, Encoding::UFT8).unwrap();
    assert_eq!(s, "GameWorld");
    assert_eq!(
        img.mem_read_string(0x7100, 16, Encoding::UFT8),
        Err(ProbeError::MemoryRead { addr: 0x7100, len: 16 })
    );
}
