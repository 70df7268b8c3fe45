use qcheat::entity::{
    entity_breakdown, entity_fields_plausible_exec, entity_sanity, etype_name, inspect_target,
    live_player_fields_exec, living_enemies, mark, players_in_view, visible_count, Mode, EF_DEAD,
};
use qcheat::layout::{EntityState, EntityType, TrType, Trajectory, Vec3Bits};
use qcheat::track::Tracks;

fn v(x: f32, y: f32, z: f32) -> Vec3Bits {
    Vec3Bits { x: x.to_bits(), y: y.to_bits(), z: z.to_bits() }
}

fn entity(number: i32, e_type: i32, client_num: i32) -> EntityState {
    let traj = Trajectory {
        tr_type: TrType::INTERPOLATE,
        tr_time: 0,
        tr_duration: 0,
        tr_base: v(500.0, 600.0, 24.0),
        tr_delta: v(0.0, 0.0, 0.0),
    };
    EntityState {
        number,
        e_type,
        e_flags: 0,
        pos: traj,
        apos: traj,
        time: 0,
        time2: 0,
        origin: v(500.0, 600.0, 24.0),
        origin2: v(0.0, 0.0, 0.0),
        angles: v(0.0, 90.0, 0.0),
        angles2: v(0.0, 0.0, 0.0),
        other_entity_num: 0,
        other_entity_num2: 0,
        ground_entity_num: 0,
        constant_light: 0,
        loop_sound: 0,
        modelindex: 0,
        modelindex2: 0,
        client_num,
        frame: 0,
        solid: 0,
        event: 0,
        event_parm: 0,
        powerups: 0,
        weapon: 5,
        legs_anim: 0,
        torso_anim: 0,
        generic1: 0,
    }
}

#[test]
fn entity_names_and_marks() {
    assert_eq!(etype_name(1), "PLAYER");
    assert_eq!(etype_name(9), "TELEPORT_TRIGGER");
    assert_eq!(etype_name(12), "TEAM");
    assert_eq!(etype_name(13), "???");
    assert_eq!(etype_name(-1), "???");
    assert_eq!(mark(true), "");
    assert_eq!(mark(false), "<-- suspicious");
    assert_eq!(EntityType::PLAYER, 1);
    assert_eq!(TrType::GRAVITY, 5);
}

#[test]
fn entity_sanity_flags_fields() {
    let e = entity(3, 1, 2);
    let s = entity_sanity(&e);
    assert!(s.looks_good());
    let mut bad = e;
    bad.number = 1024;
    bad.client_num = -2;
    bad.origin = v(f32::INFINITY, 0.0, 0.0);
    let s = entity_sanity(&bad);
    assert!(!s.number_ok && !s.client_ok && !s.origin_ok && s.etype_ok);
    assert!(!s.looks_good());
    let mut noclient = e;
    noclient.client_num = -1;
    assert!(entity_sanity(&noclient).client_ok);
}

#[test]
fn entity_inspect_targets() {
    assert_eq!(inspect_target(Mode::Origin, 0x0613_F728), (0x0613_F728 - 92, 208));
    assert_eq!(inspect_target(Mode::Raw, 0x1000), (0x1000, 208));
    assert_eq!(inspect_target(Mode::Vec3, 0x1000), (0x1000, 12));
    assert_eq!(inspect_target(Mode::Origin, 10), (10usize.wrapping_sub(92), 208));
}

/// The scan filter as it reads with floats, for comparison.
fn float_entity_filter(es: &EntityState) -> bool {
    let f = |b: u32| f32::from_bits(b);
    let reasonable = |x: f32| x.is_finite() && x.abs() < 32_768.0;
    let close = |a: f32, b: f32| a.is_finite() && b.is_finite() && (a - b).abs() <= 4096.0;
    let (ox, oy, oz) = (f(es.origin.x), f(es.origin.y), f(es.origin.z));
    (0..=12).contains(&es.e_type)
        && (0..1024).contains(&es.number)
        && (-1..64).contains(&es.client_num)
        && (0..=5).contains(&es.pos.tr_type)
        && reasonable(ox)
        && reasonable(oy)
        && reasonable(oz)
        && close(f(es.pos.tr_base.x), ox)
        && close(f(es.pos.tr_base.y), oy)
        && close(f(es.pos.tr_base.z), oz)
        && (0..=15).contains(&es.weapon)
}

#[test]
fn entity_field_filter_is_a_necessary_part() {
    let mut cases = vec![entity(3, 1, 2), entity(1023, 12, -1), entity(5, 13, 0), entity(5, 2, 64)];
    let mut e = entity(3, 1, 2);
    e.pos.tr_base = v(f32::NAN, 0.0, 0.0);
    cases.push(e);
    let mut e = entity(3, 1, 2);
    e.pos.tr_type = 6;
    cases.push(e);
    let mut e = entity(3, 1, 2);
    e.weapon = 16;
    cases.push(e);
    for es in &cases {
        if float_entity_filter(es) {
            assert!(entity_fields_plausible_exec(es));
        }
    }
    assert!(entity_fields_plausible_exec(&cases[0]));
    assert!(!entity_fields_plausible_exec(&cases[2]));
    assert!(!entity_fields_plausible_exec(&cases[4]));
}

#[test]
fn entity_live_player_fields() {
    let e = entity(3, 1, 3);
    assert!(live_player_fields_exec(&e));
    let mut near_axis = e;
    near_axis.origin = v(0.5, 600.0, 24.0);
    assert!(!live_player_fields_exec(&near_axis));
    let mut item = e;
    item.e_type = EntityType::ITEM;
    assert!(!live_player_fields_exec(&item));
    let mut rail = e;
    rail.weapon = 10;
    assert!(!live_player_fields_exec(&rail));
}

fn frame() -> Vec<EntityState> {
    let mut ents = vec![entity(0, 0, -1); 256];
    ents[0] = entity(1, EntityType::PLAYER, 0);
    ents[1] = entity(2, EntityType::PLAYER, 1);
    ents[2] = entity(3, EntityType::ITEM, -1);
    ents[3] = entity(4, 42, -1);
    ents[4] = entity(5, EntityType::PLAYER, 2);
    ents[4].e_flags = EF_DEAD;
    ents[5] = entity(6, EntityType::PLAYER, 3);
    ents
}

#[test]
fn entity_breakdown_counts_kinds() {
    let ents = frame();
    let b = entity_breakdown(&ents, 5);
    assert_eq!(b.visible, 5);
    assert_eq!(b.by_type[EntityType::PLAYER as usize], 3);
    assert_eq!(b.by_type[EntityType::ITEM as usize], 1);
    assert_eq!(b.other, 1);
    assert_eq!(b.by_type.iter().sum::<usize>() + b.other, b.visible);
    let b = entity_breakdown(&ents, -3);
    assert_eq!(b.visible, 0);
    assert_eq!(b.other, 0);
    let b = entity_breakdown(&ents, 1000);
    assert_eq!(b.visible, 256);
    assert_eq!(b.by_type[0], 250);
    assert_eq!(visible_count(300), 256);
    assert_eq!(visible_count(-1), 0);
}

#[test]
fn entity_players_and_enemies() {
    let ents = frame();
    let players = players_in_view(&ents, 6);
    let numbers: Vec<i32> = players.iter().map(|e| e.number).collect();
    assert_eq!(numbers, vec![1, 2, 5, 6]);
    let enemies = living_enemies(&ents, 6, 1);
    let clients: Vec<i32> = enemies.iter().map(|e| e.client_num).collect();
    assert_eq!(clients, vec![0, 3]);
    assert!(players_in_view(&ents, 0).is_empty());
}

#[test]
fn tracks_follow_living_enemies_only() {
    // Local player is client 0; client 2 is dead; slot 5 (client 3) is beyond num = 5.
    let ents = frame();
    let mut tracks: Tracks<(i32, u32)> = Tracks::new();
    // Keep (sighting count, entity number) for each followed client.
    let make = |e: EntityState, prev: Option<(i32, u32)>| match prev {
        Some((n, _)) => (n + 1, e.number as u32),
        None => (1, e.number as u32),
    };
    tracks.update(&ents, 5, 0, make);
    assert_eq!(tracks.entries, vec![(1, (1, 2))]);
    // Client 3 comes into view: client 1 is followed on, client 3 starts.
    tracks.update(&ents, 6, 0, make);
    assert_eq!(tracks.entries, vec![(1, (2, 2)), (3, (1, 6))]);
    assert_eq!(tracks.get(3), Some((1, 6)));
    assert_eq!(tracks.get(0), None);
    // Client 1 leaves the snapshot: it is dropped.
    let mut later = frame();
    later[1] = entity(2, EntityType::ITEM, -1);
    tracks.update(&later, 6, 0, make);
    assert_eq!(tracks.entries, vec![(3, (2, 6))]);
    // Seen from client 3's side, client 3 is never followed and client 0 is.
    tracks.update(&later, 6, 3, make);
    assert_eq!(tracks.entries, vec![(0, (1, 1))]);
}

#[test]
fn tracks_hand_each_sighting_the_slot_value_so_far() {
    // Two copies of client 1 in one snapshot: the second sees the value made for the first.
    let mut ents = frame();
    ents[2] = entity(9, EntityType::PLAYER, 1);
    let mut tracks: Tracks<(i32, u32)> = Tracks::new();
    tracks.entries.push((1, (10, 0)));
    let make = |e: EntityState, prev: Option<(i32, u32)>| match prev {
        Some((n, _)) => (n + 1, e.number as u32),
        None => (1, e.number as u32),
    };
    tracks.update(&ents, 5, 0, make);
    assert_eq!(tracks.entries, vec![(1, (12, 9))]);
}
