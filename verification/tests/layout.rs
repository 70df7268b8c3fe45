use qcheat::layout::{
    read_i32_le, read_u32_le, EntityState, PlayerState, Snapshot, SnapshotHeader, Trajectory,
    Vec3Bits, ENTITY_STATE_SIZE, PLAYER_STATE_SIZE, SNAPSHOT_HEADER_SIZE, SNAPSHOT_SIZE,
};

fn put_i32(b: &mut [u8], off: usize, v: i32) {
    b[off..off + 4].copy_from_slice(&v.to_le_bytes());
}

fn put_f32(b: &mut [u8], off: usize, v: f32) {
    b[off..off + 4].copy_from_slice(&v.to_le_bytes());
}

#[test]
fn layout_sizes_match_engine() {
    assert_eq!(ENTITY_STATE_SIZE, 208);
    assert_eq!(PLAYER_STATE_SIZE, 468);
    assert_eq!(SNAPSHOT_HEADER_SIZE, 516);
    assert_eq!(SNAPSHOT_SIZE, 53_772);
}

#[test]
fn layout_reads_little_endian() {
    let b = [0x78, 0x56, 0x34, 0x12, 0xff, 0xff, 0xff, 0xff];
    assert_eq!(read_u32_le(&b, 0), 0x1234_5678);
    assert_eq!(read_i32_le(&b, 4), -1);
    assert_eq!(read_u32_le(&b, 2), 0xffff_1234);
}

#[test]
fn layout_entity_fields_at_engine_offsets() {
    let mut b = vec![0u8; 300];
    let base = 40;
    put_i32(&mut b, base, 7); // number
    put_i32(&mut b, base + 4, 1); // e_type
    put_i32(&mut b, base + 12, 1); // pos.tr_type
    put_f32(&mut b, base + 24, 100.5); // pos.tr_base.x
    put_f32(&mut b, base + 92, -12.25); // origin.x
    put_f32(&mut b, base + 100, 64.0); // origin.z
    put_i32(&mut b, base + 168, 3); // client_num
    put_i32(&mut b, base + 192, 5); // weapon
    put_i32(&mut b, base + 204, 99); // generic1
    let es = EntityState::read_from(&b, base);
    assert_eq!(es.number, 7);
    assert_eq!(es.e_type, 1);
    assert_eq!(es.pos.tr_type, 1);
    assert_eq!(f32::from_bits(es.pos.tr_base.x), 100.5);
    assert_eq!(f32::from_bits(es.origin.x), -12.25);
    assert_eq!(f32::from_bits(es.origin.z), 64.0);
    assert_eq!(es.client_num, 3);
    assert_eq!(es.weapon, 5);
    assert_eq!(es.generic1, 99);
    let t = Trajectory::read_from(&b, base + 12);
    assert_eq!(t, es.pos);
    let v = Vec3Bits::read_from(&b, base + 92);
    assert_eq!(v, es.origin);
}

#[test]
fn layout_player_state_and_header_offsets() {
    let mut b = vec![0u8; SNAPSHOT_HEADER_SIZE];
    put_i32(&mut b, 8, 123_456); // server_time
    b[12] = 0xAA; // areamask[0]
    put_i32(&mut b, 44, 777); // ps.command_time
    put_f32(&mut b, 44 + 20, 1.5); // ps.origin.x
    put_i32(&mut b, 44 + 140, 2); // ps.client_num
    put_f32(&mut b, 44 + 152, 45.0); // ps.viewangles.x
    put_i32(&mut b, 44 + 184, 100); // stats[STAT_HEALTH]
    put_i32(&mut b, 44 + 184 + 12, 50); // stats[STAT_ARMOR]
    put_i32(&mut b, 44 + 464, 9); // entity_event_sequence
    put_i32(&mut b, 512, 4); // num_entities
    let h = SnapshotHeader::read_from(&b, 0);
    assert_eq!(h.server_time, 123_456);
    assert_eq!(h.areamask[0], 0xAA);
    assert_eq!(h.ps.command_time, 777);
    assert_eq!(f32::from_bits(h.ps.origin.x), 1.5);
    assert_eq!(h.ps.client_num, 2);
    assert_eq!(f32::from_bits(h.ps.viewangles.x), 45.0);
    assert_eq!(h.ps.stats[0], 100);
    assert_eq!(h.ps.stats[3], 50);
    assert_eq!(h.ps.entity_event_sequence, 9);
    assert_eq!(h.num_entities, 4);
    let ps = PlayerState::read_from(&b, 44);
    assert_eq!(ps.stats, h.ps.stats);
}

#[test]
fn layout_snapshot_entities() {
    let mut b = vec![0u8; SNAPSHOT_SIZE + 8];
    let base = 8;
    put_i32(&mut b, base + 516 + 208 * 5, 42); // entities[5].number
    put_i32(&mut b, base + 516 + 208 * 255 + 4, 3); // entities[255].e_type
    put_i32(&mut b, base + 53_764, 11);
    put_i32(&mut b, base + 53_768, 12);
    let s = Snapshot::read_from(&b, base);
    assert_eq!(s.entities.len(), 256);
    assert_eq!(s.entities[5].number, 42);
    assert_eq!(s.entities[255].e_type, 3);
    assert_eq!(s.num_server_commands, 11);
    assert_eq!(s.server_command_sequence, 12);
}
