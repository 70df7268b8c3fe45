//! Mirrors of the ioquake3 engine structures, decoded from the raw bytes
//! that hold them in the client's memory.
//!
//! The layout is the engine's own (`code/qcommon/q_shared.h`,
//! `code/cgame/cg_public.h`) on Windows x86_64: 4-byte little-endian
//! integers, IEEE-754 single-precision floats and no padding. Floats are
//! kept as their bit patterns; the predicates in [`crate::floatbits`] read
//! them.

use vstd::prelude::*;

verus! {

/// Maximum number of connected clients (player slots).
pub const MAX_CLIENTS: usize = 64;
/// Upper bound on networked game entities.
pub const MAX_GENTITIES: usize = 1024;
/// Per-player stat slots (health, armor, ...).
pub const MAX_STATS: usize = 16;
/// Persistent values carried across respawns.
pub const MAX_PERSISTANT: usize = 16;
/// Powerup expiry timestamps, indexed by powerup id.
pub const MAX_POWERUPS: usize = 16;
/// Ammo counts, indexed by weapon id.
pub const MAX_WEAPONS: usize = 16;
/// Events batched into a single `playerState_t`.
pub const MAX_PS_EVENTS: usize = 2;
/// Bytes in the area-visibility bit vector carried by every snapshot.
pub const MAX_MAP_AREA_BYTES: usize = 32;
/// Maximum entities transmitted in a single `snapshot_t`.
pub const MAX_ENTITIES_IN_SNAPSHOT: usize = 256;

/// `stats[]` slot for current HP.
pub const STAT_HEALTH: usize = 0;
/// `stats[]` slot for armor amount.
pub const STAT_ARMOR: usize = 3;
/// `stats[]` slot for the soft HP cap.
pub const STAT_MAX_HEALTH: usize = 6;

/// Size in bytes of a `vec3_t`.
pub const VEC3_SIZE: usize = 12;
/// Size in bytes of a `trajectory_t`.
pub const TRAJECTORY_SIZE: usize = 36;
/// Size in bytes of an `entityState_t`.
pub const ENTITY_STATE_SIZE: usize = 208;
/// Size in bytes of a `playerState_t`.
pub const PLAYER_STATE_SIZE: usize = 468;
/// Size in bytes of the `snapshot_t` header that precedes its entity array.
pub const SNAPSHOT_HEADER_SIZE: usize = 516;
/// Size in bytes of a whole `snapshot_t`.
pub const SNAPSHOT_SIZE: usize = 53772;
/// Offset of `origin` inside an `entityState_t`.
pub const ENTITY_ORIGIN_OFFSET: usize = 92;
/// Offset of the entity array inside a `snapshot_t`.
pub const SNAPSHOT_ENTITIES_OFFSET: usize = 516;

/// `eType` discriminants as defined in `q_shared.h`, kept as plain integers
/// so that unknown values read from memory stay representable.
pub struct EntityType;

impl EntityType {
    /// Unclassified / generic entity.
    pub const GENERAL: i32 = 0;
    /// A player.
    pub const PLAYER: i32 = 1;
    /// Pickable item.
    pub const ITEM: i32 = 2;
    /// In-flight projectile.
    pub const MISSILE: i32 = 3;
    /// Moving brush.
    pub const MOVER: i32 = 4;
    /// Laser / rail trail beam.
    pub const BEAM: i32 = 5;
    /// Portal camera.
    pub const PORTAL: i32 = 6;
    /// Ambient sound emitter.
    pub const SPEAKER: i32 = 7;
    /// Jumppad / push trigger.
    pub const PUSH_TRIGGER: i32 = 8;
    /// Teleport trigger.
    pub const TELEPORT_TRIGGER: i32 = 9;
    /// Invisible marker.
    pub const INVISIBLE: i32 = 10;
    /// Grappling-hook anchor.
    pub const GRAPPLE: i32 = 11;
    /// Team marker.
    pub const TEAM: i32 = 12;
}

/// Kind of motion curve attached to a trajectory (`trType_t`), kept as
/// plain integers.
pub struct TrType;

impl TrType {
    /// Fixed position.
    pub const STATIONARY: i32 = 0;
    /// Interpolated between snapshots (used for players).
    pub const INTERPOLATE: i32 = 1;
    /// Unbounded linear motion.
    pub const LINEAR: i32 = 2;
    /// Linear for `tr_duration` ms then frozen.
    pub const LINEAR_STOP: i32 = 3;
    /// Sine-wave oscillation.
    pub const SINE: i32 = 4;
    /// Parabolic fall under gravity.
    pub const GRAVITY: i32 = 5;
}

/// The unsigned 32-bit little-endian integer stored at `b[off..off + 4]`.
pub open spec fn u32_le(b: Seq<u8>, off: int) -> u32 {
    (b[off] + b[off + 1] * 256 + b[off + 2] * 65536 + b[off + 3] * 16777216) as u32
}

/// The signed 32-bit little-endian integer stored at `b[off..off + 4]`.
pub open spec fn i32_le(b: Seq<u8>, off: int) -> i32 {
    u32_le(b, off) as i32
}

/// Reads the unsigned 32-bit little-endian integer at `b[off..off + 4]`.
pub fn read_u32_le(b: &[u8], off: usize) -> (r: u32)
    requires
        off + 4 <= b@.len(),
    ensures
        r == u32_le(b@, off as int),
{
    assert(b@.len() == b.len());  // the length fits in a usize
    let b0 = b[off] as u32;
    let b1 = b[off + 1] as u32;
    let b2 = b[off + 2] as u32;
    let b3 = b[off + 3] as u32;
    b0 + b1 * 256 + b2 * 65536 + b3 * 16777216
}

/// Reads the signed 32-bit little-endian integer at `b[off..off + 4]`.
pub fn read_i32_le(b: &[u8], off: usize) -> (r: i32)
    requires
        off + 4 <= b@.len(),
    ensures
        r == i32_le(b@, off as int),
{
    read_u32_le(b, off) as i32
}

/// A `vec3_t`: three single-precision floats, kept as their bit patterns.
#[derive(Clone, Copy, Debug, PartialEq, Eq, Structural)]
pub struct Vec3Bits {
    /// X component (forward).
    pub x: u32,
    /// Y component (left).
    pub y: u32,
    /// Z component (up).
    pub z: u32,
}

/// The `vec3_t` stored at `b[base..base + 12]`.
pub open spec fn vec3_at(b: Seq<u8>, base: int) -> Vec3Bits {
    Vec3Bits { x: u32_le(b, base), y: u32_le(b, base + 4), z: u32_le(b, base + 8) }
}

impl Vec3Bits {
    /// Decodes the `vec3_t` at `b[base..base + 12]`.
    pub fn read_from(b: &[u8], base: usize) -> (r: Vec3Bits)
        requires
            base + VEC3_SIZE <= b@.len(),
        ensures
            r == vec3_at(b@, base as int),
    {
        assert(b@.len() == b.len());  // the length fits in a usize
        Vec3Bits { x: read_u32_le(b, base), y: read_u32_le(b, base + 4), z: read_u32_le(b, base + 8) }
    }
}

/// Motion parameters attached to an entity's position or angles (`trajectory_t`).
#[derive(Clone, Copy, Debug, PartialEq, Eq, Structural)]
pub struct Trajectory {
    /// Motion kind; compare against the [`TrType`] constants.
    pub tr_type: i32,
    /// Server time (ms) the curve started at.
    pub tr_time: i32,
    /// Duration (ms), meaningful for [`TrType::LINEAR_STOP`].
    pub tr_duration: i32,
    /// Position at `tr_time`.
    pub tr_base: Vec3Bits,
    /// Velocity or direction, depending on `tr_type`.
    pub tr_delta: Vec3Bits,
}

/// The `trajectory_t` stored at `b[base..base + 36]`.
pub open spec fn trajectory_at(b: Seq<u8>, base: int) -> Trajectory {
    Trajectory {
        tr_type: i32_le(b, base),
        tr_time: i32_le(b, base + 4),
        tr_duration: i32_le(b, base + 8),
        tr_base: vec3_at(b, base + 12),
        tr_delta: vec3_at(b, base + 24),
    }
}

impl Trajectory {
    /// Decodes the `trajectory_t` at `b[base..base + 36]`.
    pub fn read_from(b: &[u8], base: usize) -> (r: Trajectory)
        requires
            base + TRAJECTORY_SIZE <= b@.len(),
        ensures
            r == trajectory_at(b@, base as int),
    {
        assert(b@.len() == b.len());  // the length fits in a usize
        Trajectory {
            tr_type: read_i32_le(b, base),
            tr_time: read_i32_le(b, base + 4),
            tr_duration: read_i32_le(b, base + 8),
            tr_base: Vec3Bits::read_from(b, base + 12),
            tr_delta: Vec3Bits::read_from(b, base + 24),
        }
    }
}

/// Networked state of any world entity (`entityState_t`, 208 bytes).
#[derive(Clone, Copy, Debug, PartialEq, Eq, Structural)]
pub struct EntityState {
    /// Entity slot (0..MAX_GENTITIES).
    pub number: i32,
    /// Kind of entity; compare against the [`EntityType`] constants.
    pub e_type: i32,
    /// Engine + gamecode flag bitmask.
    pub e_flags: i32,
    /// Linear motion of this entity's origin.
    pub pos: Trajectory,
    /// Angular motion of its orientation.
    pub apos: Trajectory,
    /// Generic per-entity timestamp (event-specific).
    pub time: i32,
    /// Second generic timestamp.
    pub time2: i32,
    /// World-space origin (interpolated for non-linear `pos` types).
    pub origin: Vec3Bits,
    /// Second origin slot (beams, portals, movers' destination).
    pub origin2: Vec3Bits,
    /// World-space Euler angles `[pitch, yaw, roll]`.
    pub angles: Vec3Bits,
    /// Second angle slot.
    pub angles2: Vec3Bits,
    /// Entity this one is linked to.
    pub other_entity_num: i32,
    /// Secondary linked entity.
    pub other_entity_num2: i32,
    /// Entity slot we're standing on.
    pub ground_entity_num: i32,
    /// Packed constant-light color + radius.
    pub constant_light: i32,
    /// Looping sound index.
    pub loop_sound: i32,
    /// Primary model index.
    pub modelindex: i32,
    /// Secondary model index.
    pub modelindex2: i32,
    /// For players, the slot of the owning client (0..MAX_CLIENTS).
    pub client_num: i32,
    /// Animation frame index.
    pub frame: i32,
    /// Encoded bounding-box / clip type.
    pub solid: i32,
    /// Queued event id.
    pub event: i32,
    /// Parameter accompanying `event`.
    pub event_parm: i32,
    /// Bitmask of currently held powerups.
    pub powerups: i32,
    /// Currently held weapon index.
    pub weapon: i32,
    /// Lower-body animation id.
    pub legs_anim: i32,
    /// Upper-body animation id.
    pub torso_anim: i32,
    /// Free slot for mod-specific data.
    pub generic1: i32,
}

/// The `entityState_t` stored at `b[base..base + 208]`.
pub open spec fn entity_state_at(b: Seq<u8>, base: int) -> EntityState {
    EntityState {
        number: i32_le(b, base + 0),
        e_type: i32_le(b, base + 4),
        e_flags: i32_le(b, base + 8),
        pos: trajectory_at(b, base + 12),
        apos: trajectory_at(b, base + 48),
        time: i32_le(b, base + 84),
        time2: i32_le(b, base + 88),
        origin: vec3_at(b, base + 92),
        origin2: vec3_at(b, base + 104),
        angles: vec3_at(b, base + 116),
        angles2: vec3_at(b, base + 128),
        other_entity_num: i32_le(b, base + 140),
        other_entity_num2: i32_le(b, base + 144),
        ground_entity_num: i32_le(b, base + 148),
        constant_light: i32_le(b, base + 152),
        loop_sound: i32_le(b, base + 156),
        modelindex: i32_le(b, base + 160),
        modelindex2: i32_le(b, base + 164),
        client_num: i32_le(b, base + 168),
        frame: i32_le(b, base + 172),
        solid: i32_le(b, base + 176),
        event: i32_le(b, base + 180),
        event_parm: i32_le(b, base + 184),
        powerups: i32_le(b, base + 188),
        weapon: i32_le(b, base + 192),
        legs_anim: i32_le(b, base + 196),
        torso_anim: i32_le(b, base + 200),
        generic1: i32_le(b, base + 204),
    }
}

impl EntityState {
    /// Decodes the `entityState_t` at `b[base..base + 208]`.
    pub fn read_from(b: &[u8], base: usize) -> (r: EntityState)
        requires
            base + ENTITY_STATE_SIZE <= b@.len(),
        ensures
            r == entity_state_at(b@, base as int),
    {
        assert(b@.len() == b.len());  // the length fits in a usize
        EntityState {
            number: read_i32_le(b, base + 0),
            e_type: read_i32_le(b, base + 4),
            e_flags: read_i32_le(b, base + 8),
            pos: Trajectory::read_from(b, base + 12),
            apos: Trajectory::read_from(b, base + 48),
            time: read_i32_le(b, base + 84),
            time2: read_i32_le(b, base + 88),
            origin: Vec3Bits::read_from(b, base + 92),
            origin2: Vec3Bits::read_from(b, base + 104),
            angles: Vec3Bits::read_from(b, base + 116),
            angles2: Vec3Bits::read_from(b, base + 128),
            other_entity_num: read_i32_le(b, base + 140),
            other_entity_num2: read_i32_le(b, base + 144),
            ground_entity_num: read_i32_le(b, base + 148),
            constant_light: read_i32_le(b, base + 152),
            loop_sound: read_i32_le(b, base + 156),
            modelindex: read_i32_le(b, base + 160),
            modelindex2: read_i32_le(b, base + 164),
            client_num: read_i32_le(b, base + 168),
            frame: read_i32_le(b, base + 172),
            solid: read_i32_le(b, base + 176),
            event: read_i32_le(b, base + 180),
            event_parm: read_i32_le(b, base + 184),
            powerups: read_i32_le(b, base + 188),
            weapon: read_i32_le(b, base + 192),
            legs_anim: read_i32_le(b, base + 196),
            torso_anim: read_i32_le(b, base + 200),
            generic1: read_i32_le(b, base + 204),
        }
    }
}

/// The `n` signed 32-bit little-endian integers stored from `b[off]` on.
pub open spec fn i32s_at(b: Seq<u8>, off: int, n: nat) -> Seq<i32> {
    Seq::new(n, |k: int| i32_le(b, off + 4 * k))
}

/// Decodes `[i32; 2]` from `b[base..base + 8]`.
pub fn read_i32_array2(b: &[u8], base: usize) -> (r: [i32; 2])
    requires
        base + 8 <= b@.len(),
    ensures
        r@ == i32s_at(b@, base as int, 2),
{
    assert(b@.len() == b.len());  // the length fits in a usize
    let r = [read_i32_le(b, base + 0), read_i32_le(b, base + 4)];
    assert(r@ =~= i32s_at(b@, base as int, 2));
    r
}

/// Decodes `[i32; 3]` from `b[base..base + 12]`.
pub fn read_i32_array3(b: &[u8], base: usize) -> (r: [i32; 3])
    requires
        base + 12 <= b@.len(),
    ensures
        r@ == i32s_at(b@, base as int, 3),
{
    assert(b@.len() == b.len());  // the length fits in a usize
    let r = [read_i32_le(b, base + 0), read_i32_le(b, base + 4), read_i32_le(b, base + 8)];
    assert(r@ =~= i32s_at(b@, base as int, 3));
    r
}

/// Decodes `[i32; 16]` from `b[base..base + 64]`.
pub fn read_i32_array16(b: &[u8], base: usize) -> (r: [i32; 16])
    requires
        base + 64 <= b@.len(),
    ensures
        r@ == i32s_at(b@, base as int, 16),
{
    assert(b@.len() == b.len());  // the length fits in a usize
    let r = [read_i32_le(b, base + 0), read_i32_le(b, base + 4), read_i32_le(b, base + 8), read_i32_le(b, base + 12), read_i32_le(b, base + 16), read_i32_le(b, base + 20), read_i32_le(b, base + 24), read_i32_le(b, base + 28), read_i32_le(b, base + 32), read_i32_le(b, base + 36), read_i32_le(b, base + 40), read_i32_le(b, base + 44), read_i32_le(b, base + 48), read_i32_le(b, base + 52), read_i32_le(b, base + 56), read_i32_le(b, base + 60)];
    assert(r@ =~= i32s_at(b@, base as int, 16));
    r
}

/// Decodes `[u8; 32]` from `b[base..base + 32]`.
pub fn read_u8_array32(b: &[u8], base: usize) -> (r: [u8; 32])
    requires
        base + 32 <= b@.len(),
    ensures
        r@ == b@.subrange(base as int, base + 32),
{
    assert(b@.len() == b.len());  // the length fits in a usize
    let r = [b[base + 0], b[base + 1], b[base + 2], b[base + 3], b[base + 4], b[base + 5], b[base + 6], b[base + 7], b[base + 8], b[base + 9], b[base + 10], b[base + 11], b[base + 12], b[base + 13], b[base + 14], b[base + 15], b[base + 16], b[base + 17], b[base + 18], b[base + 19], b[base + 20], b[base + 21], b[base + 22], b[base + 23], b[base + 24], b[base + 25], b[base + 26], b[base + 27], b[base + 28], b[base + 29], b[base + 30], b[base + 31]];
    assert(r@ =~= b@.subrange(base as int, base + 32));
    r
}

/// Networked per-frame state of the local player (`playerState_t`, 468 bytes).
#[derive(Clone, Copy, Debug)]
pub struct PlayerState {
    /// `cmd->serverTime` of the last executed command.
    pub command_time: i32,
    /// Pmove kind (normal, dead, spectator, ...).
    pub pm_type: i32,
    /// View bob counter.
    pub bob_cycle: i32,
    /// Pmove flag bitmask.
    pub pm_flags: i32,
    /// Pmove timer for the current locked animation.
    pub pm_time: i32,
    /// World-space origin of the player.
    pub origin: Vec3Bits,
    /// Linear velocity vector (units / second).
    pub velocity: Vec3Bits,
    /// Cooldown ms until the current weapon can fire again.
    pub weapon_time: i32,
    /// Gravity strength applied this frame.
    pub gravity: i32,
    /// Max horizontal move speed.
    pub speed: i32,
    /// Angle correction added to client cmd angles each frame.
    pub delta_angles: [i32; 3],
    /// Entity slot we're standing on.
    pub ground_entity_num: i32,
    /// Lock-out ms for the lower-body animation.
    pub legs_timer: i32,
    /// Current lower-body animation id.
    pub legs_anim: i32,
    /// Lock-out ms for the upper-body animation.
    pub torso_timer: i32,
    /// Current upper-body animation id.
    pub torso_anim: i32,
    /// 0..7 movement direction relative to view.
    pub movement_dir: i32,
    /// Grapple anchor point.
    pub grapple_point: Vec3Bits,
    /// Engine + gamecode flag bitmask.
    pub e_flags: i32,
    /// Monotonic per-pmove event counter.
    pub event_sequence: i32,
    /// Event ids queued this frame.
    pub events: [i32; 2],
    /// Parameters paired with `events`.
    pub event_parms: [i32; 2],
    /// Server-injected one-shot event.
    pub external_event: i32,
    /// Parameter for `external_event`.
    pub external_event_parm: i32,
    /// Server time of `external_event`.
    pub external_event_time: i32,
    /// Owning client slot (0..MAX_CLIENTS).
    pub client_num: i32,
    /// Currently held weapon index.
    pub weapon: i32,
    /// Internal weapon state.
    pub weapon_state: i32,
    /// View angles `[pitch, yaw, roll]`.
    pub viewangles: Vec3Bits,
    /// Eye height above `origin`.
    pub viewheight: i32,
    /// Increments when damage is received.
    pub damage_event: i32,
    /// Yaw the damage came from.
    pub damage_yaw: i32,
    /// Pitch the damage came from.
    pub damage_pitch: i32,
    /// Magnitude of the damage.
    pub damage_count: i32,
    /// HUD stat values (health, armor, max-health, ...).
    pub stats: [i32; 16],
    /// Score/kills/etc. that survive respawn.
    pub persistant: [i32; 16],
    /// Per-powerup expiry timestamps.
    pub powerups: [i32; 16],
    /// Per-weapon ammo counts.
    pub ammo: [i32; 16],
    /// Mod-defined value.
    pub generic1: i32,
    /// Looping sound index.
    pub loop_sound: i32,
    /// Jumppad entity hit this frame.
    pub jumppad_ent: i32,
    /// Ping in ms.
    pub ping: i32,
    /// Monotonic pmove frame counter.
    pub pmove_framecount: i32,
    /// `pmove_framecount` value of last jumppad hit.
    pub jumppad_frame: i32,
    /// Counter for `entityEvent` deltas.
    pub entity_event_sequence: i32,
}

/// `ps` is the `playerState_t` stored at `b[base..base + 468]`.
pub open spec fn is_player_state_at(ps: PlayerState, b: Seq<u8>, base: int) -> bool {
    &&& ps.command_time == i32_le(b, base + 0)
    &&& ps.pm_type == i32_le(b, base + 4)
    &&& ps.bob_cycle == i32_le(b, base + 8)
    &&& ps.pm_flags == i32_le(b, base + 12)
    &&& ps.pm_time == i32_le(b, base + 16)
    &&& ps.origin == vec3_at(b, base + 20)
    &&& ps.velocity == vec3_at(b, base + 32)
    &&& ps.weapon_time == i32_le(b, base + 44)
    &&& ps.gravity == i32_le(b, base + 48)
    &&& ps.speed == i32_le(b, base + 52)
    &&& ps.delta_angles@ == i32s_at(b, base + 56, 3)
    &&& ps.ground_entity_num == i32_le(b, base + 68)
    &&& ps.legs_timer == i32_le(b, base + 72)
    &&& ps.legs_anim == i32_le(b, base + 76)
    &&& ps.torso_timer == i32_le(b, base + 80)
    &&& ps.torso_anim == i32_le(b, base + 84)
    &&& ps.movement_dir == i32_le(b, base + 88)
    &&& ps.grapple_point == vec3_at(b, base + 92)
    &&& ps.e_flags == i32_le(b, base + 104)
    &&& ps.event_sequence == i32_le(b, base + 108)
    &&& ps.events@ == i32s_at(b, base + 112, 2)
    &&& ps.event_parms@ == i32s_at(b, base + 120, 2)
    &&& ps.external_event == i32_le(b, base + 128)
    &&& ps.external_event_parm == i32_le(b, base + 132)
    &&& ps.external_event_time == i32_le(b, base + 136)
    &&& ps.client_num == i32_le(b, base + 140)
    &&& ps.weapon == i32_le(b, base + 144)
    &&& ps.weapon_state == i32_le(b, base + 148)
    &&& ps.viewangles == vec3_at(b, base + 152)
    &&& ps.viewheight == i32_le(b, base + 164)
    &&& ps.damage_event == i32_le(b, base + 168)
    &&& ps.damage_yaw == i32_le(b, base + 172)
    &&& ps.damage_pitch == i32_le(b, base + 176)
    &&& ps.damage_count == i32_le(b, base + 180)
    &&& ps.stats@ == i32s_at(b, base + 184, 16)
    &&& ps.persistant@ == i32s_at(b, base + 248, 16)
    &&& ps.powerups@ == i32s_at(b, base + 312, 16)
    &&& ps.ammo@ == i32s_at(b, base + 376, 16)
    &&& ps.generic1 == i32_le(b, base + 440)
    &&& ps.loop_sound == i32_le(b, base + 444)
    &&& ps.jumppad_ent == i32_le(b, base + 448)
    &&& ps.ping == i32_le(b, base + 452)
    &&& ps.pmove_framecount == i32_le(b, base + 456)
    &&& ps.jumppad_frame == i32_le(b, base + 460)
    &&& ps.entity_event_sequence == i32_le(b, base + 464)
}

impl PlayerState {
    /// Decodes the `playerState_t` at `b[base..base + 468]`.
    pub fn read_from(b: &[u8], base: usize) -> (r: PlayerState)
        requires
            base + PLAYER_STATE_SIZE <= b@.len(),
        ensures
            is_player_state_at(r, b@, base as int),
    {
        assert(b@.len() == b.len());  // the length fits in a usize
        PlayerState {
            command_time: read_i32_le(b, base + 0),
            pm_type: read_i32_le(b, base + 4),
            bob_cycle: read_i32_le(b, base + 8),
            pm_flags: read_i32_le(b, base + 12),
            pm_time: read_i32_le(b, base + 16),
            origin: Vec3Bits::read_from(b, base + 20),
            velocity: Vec3Bits::read_from(b, base + 32),
            weapon_time: read_i32_le(b, base + 44),
            gravity: read_i32_le(b, base + 48),
            speed: read_i32_le(b, base + 52),
            delta_angles: read_i32_array3(b, base + 56),
            ground_entity_num: read_i32_le(b, base + 68),
            legs_timer: read_i32_le(b, base + 72),
            legs_anim: read_i32_le(b, base + 76),
            torso_timer: read_i32_le(b, base + 80),
            torso_anim: read_i32_le(b, base + 84),
            movement_dir: read_i32_le(b, base + 88),
            grapple_point: Vec3Bits::read_from(b, base + 92),
            e_flags: read_i32_le(b, base + 104),
            event_sequence: read_i32_le(b, base + 108),
            events: read_i32_array2(b, base + 112),
            event_parms: read_i32_array2(b, base + 120),
            external_event: read_i32_le(b, base + 128),
            external_event_parm: read_i32_le(b, base + 132),
            external_event_time: read_i32_le(b, base + 136),
            client_num: read_i32_le(b, base + 140),
            weapon: read_i32_le(b, base + 144),
            weapon_state: read_i32_le(b, base + 148),
            viewangles: Vec3Bits::read_from(b, base + 152),
            viewheight: read_i32_le(b, base + 164),
            damage_event: read_i32_le(b, base + 168),
            damage_yaw: read_i32_le(b, base + 172),
            damage_pitch: read_i32_le(b, base + 176),
            damage_count: read_i32_le(b, base + 180),
            stats: read_i32_array16(b, base + 184),
            persistant: read_i32_array16(b, base + 248),
            powerups: read_i32_array16(b, base + 312),
            ammo: read_i32_array16(b, base + 376),
            generic1: read_i32_le(b, base + 440),
            loop_sound: read_i32_le(b, base + 444),
            jumppad_ent: read_i32_le(b, base + 448),
            ping: read_i32_le(b, base + 452),
            pmove_framecount: read_i32_le(b, base + 456),
            jumppad_frame: read_i32_le(b, base + 460),
            entity_event_sequence: read_i32_le(b, base + 464),
        }
    }
}

/// Snapshot header that precedes the entity array (516 bytes). Reading just
/// this is enough to decide whether an address holds a real snapshot.
#[derive(Clone, Copy, Debug)]
pub struct SnapshotHeader {
    /// Snapshot flags.
    pub snap_flags: i32,
    /// Round-trip ping in ms at the time of the snapshot.
    pub ping: i32,
    /// Server time the snapshot is valid for (ms).
    pub server_time: i32,
    /// PVS area-visibility bit vector.
    pub areamask: [u8; 32],
    /// Local player state for this frame.
    pub ps: PlayerState,
    /// Count of valid entries in the following entity array.
    pub num_entities: i32,
}

/// `h` is the snapshot header stored at `b[base..base + 516]`.
pub open spec fn is_snapshot_header_at(h: SnapshotHeader, b: Seq<u8>, base: int) -> bool {
    &&& h.snap_flags == i32_le(b, base)
    &&& h.ping == i32_le(b, base + 4)
    &&& h.server_time == i32_le(b, base + 8)
    &&& h.areamask@ == b.subrange(base + 12, base + 44)
    &&& is_player_state_at(h.ps, b, base + 44)
    &&& h.num_entities == i32_le(b, base + 512)
}

impl SnapshotHeader {
    /// Decodes the snapshot header at `b[base..base + 516]`.
    pub fn read_from(b: &[u8], base: usize) -> (r: SnapshotHeader)
        requires
            base + SNAPSHOT_HEADER_SIZE <= b@.len(),
        ensures
            is_snapshot_header_at(r, b@, base as int),
    {
        assert(b@.len() == b.len());  // the length fits in a usize
        SnapshotHeader {
            snap_flags: read_i32_le(b, base),
            ping: read_i32_le(b, base + 4),
            server_time: read_i32_le(b, base + 8),
            areamask: read_u8_array32(b, base + 12),
            ps: PlayerState::read_from(b, base + 44),
            num_entities: read_i32_le(b, base + 512),
        }
    }
}

/// A whole `snapshot_t` (53 772 bytes): header, the 256-slot entity array
/// and two trailing counters.
#[derive(Clone, Debug)]
pub struct Snapshot {
    /// Header (snap_flags, ping, serverTime, areamask, ps, num_entities).
    pub header: SnapshotHeader,
    /// Entity slots. Only the first `header.num_entities` are populated.
    pub entities: Vec<EntityState>,
    /// Number of text-based server commands queued for execution.
    pub num_server_commands: i32,
    /// Sequence id of the first such command.
    pub server_command_sequence: i32,
}

/// `s` is the `snapshot_t` stored at `b[base..base + 53772]`.
pub open spec fn is_snapshot_at(s: Snapshot, b: Seq<u8>, base: int) -> bool {
    &&& is_snapshot_header_at(s.header, b, base)
    &&& s.entities@.len() == MAX_ENTITIES_IN_SNAPSHOT
    &&& forall|k: int|
        0 <= k < MAX_ENTITIES_IN_SNAPSHOT ==> #[trigger] s.entities@[k] == entity_state_at(
            b,
            base + SNAPSHOT_ENTITIES_OFFSET + ENTITY_STATE_SIZE * k,
        )
    &&& s.num_server_commands == i32_le(b, base + 53764)
    &&& s.server_command_sequence == i32_le(b, base + 53768)
}

/// Decodes the 256 entity slots of the `snapshot_t` at `b[base..base + 53772]`.
fn read_snapshot_entities(b: &[u8], base: usize) -> (r: Vec<EntityState>)
    requires
        base + SNAPSHOT_SIZE <= b@.len(),
    ensures
        r@.len() == MAX_ENTITIES_IN_SNAPSHOT,
        forall|k: int|
            0 <= k < MAX_ENTITIES_IN_SNAPSHOT ==> #[trigger] r@[k] == entity_state_at(
                b@,
                base + SNAPSHOT_ENTITIES_OFFSET + ENTITY_STATE_SIZE * k,
            ),
{
        assert(b@.len() == b.len());  // the length fits in a usize
        let mut entities: Vec<EntityState> = Vec::new();
        let mut k: usize = 0;
        while k < MAX_ENTITIES_IN_SNAPSHOT
            invariant
                k <= MAX_ENTITIES_IN_SNAPSHOT,
                base + SNAPSHOT_SIZE <= b@.len(),
                b@.len() <= usize::MAX,
                entities@.len() == k,
                forall|i: int|
                    0 <= i < k ==> #[trigger] entities@[i] == entity_state_at(
                        b@,
                        base + SNAPSHOT_ENTITIES_OFFSET + ENTITY_STATE_SIZE * i,
                    ),
            decreases MAX_ENTITIES_IN_SNAPSHOT - k,
        {
            let off = base + SNAPSHOT_ENTITIES_OFFSET + ENTITY_STATE_SIZE * k;
            entities.push(EntityState::read_from(b, off));
            k += 1;
        }
        entities
}

impl Snapshot {
    /// Decodes the `snapshot_t` at `b[base..base + 53772]`.
    pub fn read_from(b: &[u8], base: usize) -> (r: Snapshot)
        requires
            base + SNAPSHOT_SIZE <= b@.len(),
        ensures
            is_snapshot_at(r, b@, base as int),
    {
        assert(b@.len() == b.len());  // the length fits in a usize
        let header = SnapshotHeader::read_from(b, base);
        let entities = read_snapshot_entities(b, base);
        Snapshot {
            header,
            entities,
            num_server_commands: read_i32_le(b, base + 53764),
            server_command_sequence: read_i32_le(b, base + 53768),
        }
    }
}

} // verus!
