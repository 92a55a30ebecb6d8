//! Deterministic terrain generation. Given a world seed and chunk
//! coordinates, assigns each offset a coarse category from a seeded hash,
//! runs the jutting/unconnected-tile smoothing pass, and resolves transition
//! tiles to produce a concrete chunk.
//!
//! Generation is a pure function of the seed, the chunk coordinates, and the
//! generator's tile configuration: identical inputs always produce an
//! identical chunk, so a chunk is never regenerated differently once it has
//! been persisted.

use vstd::prelude::*;
use vstd::arithmetic::div_mod::{lemma_fundamental_div_mod, lemma_fundamental_div_mod_converse};

use crate::chunk::Chunk;
use crate::coords::ChunkCoords;
use crate::plan::{
    demote_fixpoint, plan_chunk_tiles, plan_contains, plan_set, CategoryTiles, ChunkPlan,
    PlanEntry, TileCategory, TransitionTiles,
};
use crate::tile::{Tile, TileType};

verus! {

/// One scrambling round of the seeded hash behind the category source.
pub open spec fn mix64(z: u64) -> u64 {
    let a = (z ^ (z >> 30)).wrapping_mul(0xbf58476d1ce4e5b9);
    let b = (a ^ (a >> 27)).wrapping_mul(0x94d049bb133111eb);
    b ^ (b >> 31)
}

/// Executable counterpart of [`mix64`].
fn mix64_exec(z: u64) -> (r: u64)
    ensures
        r == mix64(z),
{
    let a = (z ^ (z >> 30)).wrapping_mul(0xbf58476d1ce4e5b9);
    let b = (a ^ (a >> 27)).wrapping_mul(0x94d049bb133111eb);
    b ^ (b >> 31)
}

/// A signed chunk coordinate shifted into the non-negative range so it can
/// feed the hash without sign-dependent behaviour.
pub open spec fn pack_coord(c: i32) -> u64 {
    (c + 0x8000_0000) as u64
}

/// Executable counterpart of [`pack_coord`].
fn pack_coord_exec(c: i32) -> (r: u64)
    ensures
        r == pack_coord(c),
{
    (c as i64 + 0x8000_0000) as u64
}

/// The seeded noise value for one offset of one chunk.
pub open spec fn category_noise(seed: u32, cx: i32, cy: i32, ox: u8, oy: u8) -> u64 {
    let h1 = mix64((seed as u64).wrapping_add(0x9e3779b97f4a7c15));
    let h2 = mix64(h1 ^ pack_coord(cx));
    let h3 = mix64(h2 ^ pack_coord(cy));
    mix64(h3 ^ (((ox as u64) << 8u64) | (oy as u64)))
}

/// The coarse category the seeded category source assigns to one offset of
/// one chunk: mostly grass, with patches of dirt and water.
pub open spec fn base_category(seed: u32, coords: ChunkCoords, ox: u8, oy: u8) -> TileCategory {
    let n = category_noise(seed, coords.x, coords.y, ox, oy) % 8;
    if n == 0 {
        TileCategory::Water
    } else if n <= 2 {
        TileCategory::Dirt
    } else {
        TileCategory::Grass
    }
}

/// Executable counterpart of [`base_category`].
fn base_category_exec(seed: u32, coords: ChunkCoords, ox: u8, oy: u8) -> (r: TileCategory)
    ensures
        r == base_category(seed, coords, ox, oy),
{
    let h1 = mix64_exec((seed as u64).wrapping_add(0x9e3779b97f4a7c15));
    let h2 = mix64_exec(h1 ^ pack_coord_exec(coords.x));
    let h3 = mix64_exec(h2 ^ pack_coord_exec(coords.y));
    let n = mix64_exec(h3 ^ (((ox as u64) << 8u64) | (oy as u64))) % 8;
    if n == 0 {
        TileCategory::Water
    } else if n <= 2 {
        TileCategory::Dirt
    } else {
        TileCategory::Grass
    }
}

/// The tiles a generator places: the transition sets for dirt and water and
/// the plain tile of each category.
#[derive(Clone, Copy, Debug, PartialEq, Eq, Structural)]
pub struct GeneratorConfig {
    pub dirt_transitions: TransitionTiles,
    pub water_transitions: TransitionTiles,
    pub plain_tiles: CategoryTiles,
}

/// The plan the category source assigns to a chunk before smoothing: one
/// entry per offset, columns outermost, rows innermost.
pub open spec fn assigned_plan(seed: u32, coords: ChunkCoords) -> Seq<PlanEntry> {
    Seq::new(
        256,
        |j: int|
            PlanEntry {
                x: (j / 16) as i32,
                y: (j % 16) as i32,
                category: base_category(seed, coords, (j / 16) as u8, (j % 16) as u8),
            },
    )
}

/// The tile grid generation produces for a chunk: the assigned plan,
/// smoothed, then resolved to tiles.
pub open spec fn generated_chunk_tiles(
    seed: u32,
    coords: ChunkCoords,
    config: GeneratorConfig,
) -> Seq<Tile> {
    plan_chunk_tiles(
        demote_fixpoint(assigned_plan(seed, coords)),
        config.dirt_transitions,
        config.water_transitions,
        config.plain_tiles,
    )
}

/// Every prefix of the assigned plan leaves positions at or past its length
/// unassigned, because entry `j` always carries position `(j / 16, j % 16)`.
proof fn lemma_assigned_prefix_fresh(seed: u32, coords: ChunkCoords, j: int)
    requires
        0 <= j < 256,
    ensures
        !plan_contains(assigned_plan(seed, coords).take(j), j / 16, j % 16),
        crate::plan::plan_wf(assigned_plan(seed, coords).take(j)),
{
    let s = assigned_plan(seed, coords).take(j);
    assert forall|i: int| 0 <= i < s.len() implies !(s[i].x == j / 16 && s[i].y == j % 16) by {
        if s[i].x == j / 16 && s[i].y == j % 16 {
            lemma_fundamental_div_mod(i, 16);
            lemma_fundamental_div_mod(j, 16);
            assert(i == 16 * (i / 16) + i % 16);
            assert(i == j);
        }
    };
    assert forall|a: int, b: int|
        0 <= a < s.len() && 0 <= b < s.len() && a != b implies !(s[a].x == s[b].x && s[a].y
        == s[b].y) by {
        if s[a].x == s[b].x && s[a].y == s[b].y {
            lemma_fundamental_div_mod(a, 16);
            lemma_fundamental_div_mod(b, 16);
            assert(a == b);
        }
    };
}

/// Deterministically generate the chunk at the given coordinates from the
/// world seed. The result is a pure function of the seed, the coordinates
/// and the configuration, so repeated generation of the same chunk is always
/// bit-identical.
pub fn generate_chunk(seed: u32, coords: ChunkCoords, config: &GeneratorConfig) -> (r: Chunk)
    ensures
        r.wf(),
        r@ == generated_chunk_tiles(seed, coords, *config),
{
    let ghost assigned = assigned_plan(seed, coords);
    let mut plan = ChunkPlan::default();
    let mut offset_x: u8 = 0;
    while offset_x < 16
        invariant
            plan.wf(),
            offset_x <= 16,
            assigned == assigned_plan(seed, coords),
            plan@ == assigned.take(offset_x as int * 16),
        decreases 16 - offset_x,
    {
        let mut offset_y: u8 = 0;
        while offset_y < 16
            invariant
                plan.wf(),
                offset_x < 16,
                offset_y <= 16,
                assigned == assigned_plan(seed, coords),
                plan@ == assigned.take(offset_x as int * 16 + offset_y as int),
            decreases 16 - offset_y,
        {
            let ghost j = offset_x as int * 16 + offset_y as int;
            let category = base_category_exec(seed, coords, offset_x, offset_y);
            proof {
                lemma_fundamental_div_mod_converse(j, 16, offset_x as int, offset_y as int);
                lemma_assigned_prefix_fresh(seed, coords, j);
                assert(assigned[j] == PlanEntry {
                    x: offset_x as i32,
                    y: offset_y as i32,
                    category,
                });
            }
            plan.set_category_at(offset_x as i32, offset_y as i32, category);
            proof {
                assert(plan@ == plan_set(
                    assigned.take(j),
                    offset_x as i32,
                    offset_y as i32,
                    category,
                ));
                assert(plan@ =~= assigned.take(j + 1));
            }
            offset_y += 1;
        }
        offset_x += 1;
    }
    proof {
        assert(plan@ =~= assigned);
    }
    plan.remove_all_juttting_and_unconnected_tiles();
    plan.to_chunk(&config.dirt_transitions, &config.water_transitions, &config.plain_tiles)
}

/// The surface generator's tile configuration: grass is plain ground, dirt
/// patches are dirt tiles with dirt shoreline transitions, and water is
/// impassable wall with wall transitions.
pub fn surface_generator_config() -> (r: GeneratorConfig)
    ensures
        r == surface_config(),
{
    let ground = Tile { tile_type: TileType::Ground, seen: false };
    let dirt = Tile { tile_type: TileType::Dirt, seen: false };
    let wall = Tile { tile_type: TileType::Wall, seen: false };
    GeneratorConfig {
        dirt_transitions: uniform_transitions(dirt),
        water_transitions: uniform_transitions(wall),
        plain_tiles: CategoryTiles { grass: ground, dirt, water: wall },
    }
}

/// The surface generator's tile configuration.
pub open spec fn surface_config() -> GeneratorConfig {
    let ground = Tile { tile_type: TileType::Ground, seen: false };
    let dirt = Tile { tile_type: TileType::Dirt, seen: false };
    let wall = Tile { tile_type: TileType::Wall, seen: false };
    GeneratorConfig {
        dirt_transitions: uniform_transition_tiles(dirt),
        water_transitions: uniform_transition_tiles(wall),
        plain_tiles: CategoryTiles { grass: ground, dirt, water: wall },
    }
}

/// A transition set that uses the same tile for every boundary shape.
pub open spec fn uniform_transition_tiles(t: Tile) -> TransitionTiles {
    TransitionTiles {
        top: t,
        bottom: t,
        left: t,
        right: t,
        top_left: t,
        top_right: t,
        bottom_left: t,
        bottom_right: t,
        corner_top_left: t,
        corner_top_right: t,
        corner_bottom_left: t,
        corner_bottom_right: t,
    }
}

/// Executable counterpart of [`uniform_transition_tiles`].
pub fn uniform_transitions(t: Tile) -> (r: TransitionTiles)
    ensures
        r == uniform_transition_tiles(t),
{
    TransitionTiles {
        top: t,
        bottom: t,
        left: t,
        right: t,
        top_left: t,
        top_right: t,
        bottom_left: t,
        bottom_right: t,
        corner_top_left: t,
        corner_top_right: t,
        corner_bottom_left: t,
        corner_bottom_right: t,
    }
}

} // verus!
