//! ChunkPlan tests: the jutting/unconnected-tile smoothing pass and the
//! transition-tile resolution.

use gemgame::plan::{ChunkPlan, TileCategory, TransitionTiles};
use gemgame::tile::{PlantState, Tile, TileType};

fn test_chunk_plan(
    area_width: i32,
    area_height: i32,
    dirt_positions_before: Vec<(i32, i32)>,
    dirt_positions_after: Vec<(i32, i32)>,
) {
    let mut chunk = ChunkPlan::default();

    for x in 0..area_width {
        for y in 0..area_height {
            let category = if dirt_positions_before.contains(&(x, y)) {
                TileCategory::Dirt
            } else {
                TileCategory::Grass
            };
            chunk.set_category_at(x, y, category);
        }
    }

    chunk.remove_all_juttting_and_unconnected_tiles();

    for x in 0..area_width {
        for y in 0..area_height {
            assert_eq!(
                chunk.get_category_at(x, y),
                if dirt_positions_after.contains(&(x, y)) {
                    TileCategory::Dirt
                } else {
                    TileCategory::Grass
                }
            );
        }
    }
}

#[test]
fn remove_jutting_tiles() {
    // .....      .....
    // ..##.  ->  ..##.
    // .###.      ..##.
    // .....      .....

    test_chunk_plan(
        5,
        4,
        vec![(2, 1), (3, 1), (1, 2), (2, 2), (3, 2)],
        vec![(2, 1), (3, 1), (2, 2), (3, 2)],
    );

    // ......      ......
    // .####.  ->  ...##.
    // ...##.      ...##.
    // ......      ......

    test_chunk_plan(
        6,
        4,
        vec![(1, 1), (2, 1), (3, 1), (4, 1), (3, 2), (4, 2)],
        vec![(3, 1), (4, 1), (3, 2), (4, 2)],
    );

    // .....
    // ..##.
    // .###.  ->  no change
    // .###.
    // ..##.
    // .....

    let dirt_positions =
        vec![(2, 1), (3, 1), (1, 2), (2, 2), (3, 2), (1, 3), (2, 3), (3, 3), (2, 4), (3, 4)];
    test_chunk_plan(5, 6, dirt_positions.clone(), dirt_positions);
}

#[test]
fn remove_unconnected_tiles() {
    // Not allowed:

    // ...
    // .#.
    // ...

    test_chunk_plan(3, 3, vec![(1, 1)], vec![]);

    // ....
    // .##.
    // ....

    test_chunk_plan(4, 3, vec![(1, 1), (2, 1)], vec![]);

    // ....
    // .##.
    // .#..
    // ....

    test_chunk_plan(4, 4, vec![(1, 1), (2, 1), (1, 2)], vec![]);

    // Allowed:

    // ....
    // .##.
    // .##.
    // ....

    let dirt_positions = vec![(1, 1), (2, 1), (1, 2), (2, 2)];
    test_chunk_plan(4, 4, dirt_positions.clone(), dirt_positions);
}

fn marker(state: PlantState) -> Tile {
    Tile { tile_type: TileType::Flower(state), seen: false }
}

fn marked_transitions() -> TransitionTiles {
    TransitionTiles {
        top: marker(PlantState::Ripe),
        bottom: marker(PlantState::Harvested),
        left: marker(PlantState::Dead),
        right: Tile { tile_type: TileType::Tree(PlantState::Ripe), seen: false },
        top_left: Tile { tile_type: TileType::Tree(PlantState::Harvested), seen: false },
        top_right: Tile { tile_type: TileType::Tree(PlantState::Dead), seen: false },
        bottom_left: Tile { tile_type: TileType::Bush(PlantState::Ripe), seen: false },
        bottom_right: Tile { tile_type: TileType::Bush(PlantState::Harvested), seen: false },
        corner_top_left: Tile { tile_type: TileType::Bush(PlantState::Dead), seen: false },
        corner_top_right: Tile { tile_type: TileType::Wall, seen: true },
        corner_bottom_left: Tile { tile_type: TileType::Dirt, seen: true },
        corner_bottom_right: Tile { tile_type: TileType::Ground, seen: true },
    }
}

#[test]
fn straight_edge_transition_selected() {
    // A 2x2 dirt block: each dirt tile has exactly two differing
    // orthogonal neighbours forming a right angle, selecting corner-cut
    // tiles.
    let mut plan = ChunkPlan::default();
    for (x, y) in [(1, 1), (2, 1), (1, 2), (2, 2)] {
        plan.set_category_at(x, y, TileCategory::Dirt);
    }
    let dirt = marked_transitions();
    let water = marked_transitions();

    // (1, 2): above and left differ, right does not: top-left corner cut.
    assert_eq!(plan.maybe_transition_tile(1, 2, &dirt, &water), Some(dirt.top_left));
    // (2, 2): above and right differ, left does not: top-right corner cut.
    assert_eq!(plan.maybe_transition_tile(2, 2, &dirt, &water), Some(dirt.top_right));
    // (1, 1): below and left differ: bottom-left corner cut.
    assert_eq!(plan.maybe_transition_tile(1, 1, &dirt, &water), Some(dirt.bottom_left));
    // (2, 1): below and right differ: bottom-right corner cut.
    assert_eq!(plan.maybe_transition_tile(2, 1, &dirt, &water), Some(dirt.bottom_right));
    // Grass positions never receive a transition tile.
    assert_eq!(plan.maybe_transition_tile(0, 0, &dirt, &water), None);
}

#[test]
fn single_side_and_interior_transitions() {
    // A 3x3 dirt block: the middle of each edge has one differing
    // orthogonal neighbour (a straight edge tile), and the centre has
    // none at all (no transition).
    let mut plan = ChunkPlan::default();
    for x in 1..=3 {
        for y in 1..=3 {
            plan.set_category_at(x, y, TileCategory::Dirt);
        }
    }
    let dirt = marked_transitions();
    let water = marked_transitions();

    // (2, 3): only the neighbour above differs: straight top edge.
    assert_eq!(plan.maybe_transition_tile(2, 3, &dirt, &water), Some(dirt.top));
    // (2, 1): only the neighbour below differs: straight bottom edge.
    assert_eq!(plan.maybe_transition_tile(2, 1, &dirt, &water), Some(dirt.bottom));
    // (1, 2): only the left neighbour differs: straight left edge.
    assert_eq!(plan.maybe_transition_tile(1, 2, &dirt, &water), Some(dirt.left));
    // (3, 2): only the right neighbour differs: straight right edge.
    assert_eq!(plan.maybe_transition_tile(3, 2, &dirt, &water), Some(dirt.right));
    // (2, 2): no orthogonal neighbour differs, and all four diagonals are
    // dirt too: no transition.
    assert_eq!(plan.maybe_transition_tile(2, 2, &dirt, &water), None);
}

#[test]
fn diagonal_corner_transition_selected() {
    // A large dirt area with one grass cell diagonally adjacent to the
    // probed position: no orthogonal neighbour differs, so the rounded
    // corner tile for that diagonal is selected.
    let mut plan = ChunkPlan::default();
    for x in 0..5 {
        for y in 0..5 {
            plan.set_category_at(x, y, TileCategory::Dirt);
        }
    }
    plan.set_category_at(1, 3, TileCategory::Grass);
    let dirt = marked_transitions();
    let water = marked_transitions();

    // Probing (2, 2): its (x - 1, y + 1) diagonal is grass, everything
    // orthogonal is dirt: rounded top-left corner.
    assert_eq!(plan.maybe_transition_tile(2, 2, &dirt, &water), Some(dirt.corner_top_left));
}
