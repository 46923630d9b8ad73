use soltia::bitmap_font::GlyphOp;
use soltia::base_canvas::BaseCanvasState;
use soltia::battler;
use soltia::entity::{EntityArena, EntityId, EntityKind, EntityNode};
use soltia::entity_list::{self, EntityListState};
use soltia::game_map::{self, GameMapClassState};

fn walk(list: &EntityListState, arena: &EntityArena) -> Vec<EntityId> {
    let mut out = Vec::new();
    let mut cur = list.head;
    while let Some(id) = cur {
        out.push(id);
        cur = arena.node(id).next;
    }
    out
}

fn walk_back(list: &EntityListState, arena: &EntityArena) -> Vec<EntityId> {
    let mut out = Vec::new();
    let mut cur = list.tail;
    while let Some(id) = cur {
        out.push(id);
        cur = arena.node(id).prev;
    }
    out.reverse();
    out
}

#[test]
fn a_fresh_node_is_bare() {
    let n = EntityNode::new();
    assert_eq!(n.kind(), EntityKind::Bare);
    assert_eq!(n.layer, 1);
    assert!(n.next.is_none() && n.prev.is_none() && !n.removed);
}

#[test]
fn add_front_and_back_link_both_ways() {
    let mut arena = EntityArena::new();
    let a = arena.spawn(8, 10);
    let b = arena.spawn(8, 20);
    let c = arena.spawn(8, 30);
    let mut list = EntityListState::new();
    entity_list::add_back(&mut list, &mut arena, b);
    entity_list::add_back(&mut list, &mut arena, c);
    entity_list::add_front(&mut list, &mut arena, a);
    assert_eq!(walk(&list, &arena), vec![a, b, c]);
    assert_eq!(walk_back(&list, &arena), vec![a, b, c]);
    assert_eq!(list.count, 3);
}

#[test]
fn remove_unlinks_and_reports_absence() {
    let mut arena = EntityArena::new();
    let a = arena.spawn(8, 10);
    let b = arena.spawn(8, 20);
    let c = arena.spawn(8, 30);
    let mut list = EntityListState::new();
    for id in [a, b, c] {
        entity_list::add_back(&mut list, &mut arena, id);
    }
    assert_eq!(entity_list::remove(&mut list, &mut arena, b), Some(b));
    assert_eq!(walk(&list, &arena), vec![a, c]);
    assert_eq!(walk_back(&list, &arena), vec![a, c]);
    assert_eq!(entity_list::remove(&mut list, &mut arena, b), None);
    assert_eq!(entity_list::remove(&mut list, &mut arena, a), Some(a));
    assert_eq!(entity_list::remove(&mut list, &mut arena, c), Some(c));
    assert!(list.head.is_none() && list.tail.is_none());
}

#[test]
fn reorder_moves_a_node_toward_the_head() {
    let mut arena = EntityArena::new();
    let ids: Vec<EntityId> = (0..4).map(|k| arena.spawn(0, (k * 10) as i16)).collect();
    let mut list = EntityListState::new();
    for &id in &ids {
        entity_list::add_back(&mut list, &mut arena, id);
    }
    let mut n = *arena.node(ids[3]);
    n.pixel_y = 5;
    arena.set_node(ids[3], n);
    entity_list::reorder_by_depth(&mut list, &mut arena, ids[3]);
    assert_eq!(walk(&list, &arena), vec![ids[0], ids[3], ids[1], ids[2]]);
    assert_eq!(walk_back(&list, &arena), vec![ids[0], ids[3], ids[1], ids[2]]);
}

#[test]
fn reorder_moves_a_node_toward_the_tail() {
    let mut arena = EntityArena::new();
    let ids: Vec<EntityId> = (0..4).map(|k| arena.spawn(0, (k * 10) as i16)).collect();
    let mut list = EntityListState::new();
    for &id in &ids {
        entity_list::add_back(&mut list, &mut arena, id);
    }
    let mut n = *arena.node(ids[0]);
    n.pixel_y = 25;
    arena.set_node(ids[0], n);
    entity_list::reorder_by_depth(&mut list, &mut arena, ids[0]);
    assert_eq!(walk(&list, &arena), vec![ids[1], ids[2], ids[0], ids[3]]);
    assert_eq!(walk_back(&list, &arena), vec![ids[1], ids[2], ids[0], ids[3]]);
}

#[test]
fn reorder_leaves_a_sorted_list_alone() {
    let mut arena = EntityArena::new();
    let ids: Vec<EntityId> = (0..3).map(|k| arena.spawn(0, (k * 10) as i16)).collect();
    let mut list = EntityListState::new();
    for &id in &ids {
        entity_list::add_back(&mut list, &mut arena, id);
    }
    entity_list::reorder_by_depth(&mut list, &mut arena, ids[1]);
    assert_eq!(walk(&list, &arena), ids);
}

#[test]
fn boss_maps_and_a_new_map() {
    assert!(game_map::is_boss_map(11));
    assert!(game_map::is_boss_map(82));
    assert!(!game_map::is_boss_map(12));
    let mut class_state = GameMapClassState::new();
    let canvas = BaseCanvasState::new();
    let m = game_map::new_game_map(&mut class_state, &canvas, 13);
    assert!(m.boss_map && m.locked_camera);
    assert_eq!(m.spawn_tick, 16);
    assert!(m.entities.head.is_none());
}

#[test]
fn add_entity_keeps_the_map_list_depth_sorted() {
    let mut class_state = GameMapClassState::new();
    let canvas = BaseCanvasState::new();
    let mut m = game_map::new_game_map(&mut class_state, &canvas, 1);
    let mut arena = EntityArena::new();
    let ys = [40i16, 10, 30, 20, 50];
    let ids: Vec<EntityId> = ys.iter().map(|&y| arena.spawn(4, y)).collect();
    for &id in &ids {
        game_map::add_entity(&mut m, &mut arena, id);
    }
    let order = walk(&m.entities, &arena);
    let depths: Vec<i32> = order
        .iter()
        .map(|&id| arena.node(id).pixel_y as i32 + arena.node(id).half_h as i32)
        .collect();
    assert_eq!(depths, vec![14, 24, 34, 44, 54]);
    assert_eq!(order.len(), 5);
}

fn map_with_grid(w: i8, h: i8) -> game_map::GameMapState {
    let mut class_state = GameMapClassState::new();
    let canvas = BaseCanvasState::new();
    let mut m = game_map::new_game_map(&mut class_state, &canvas, 1);
    let mut data: Vec<i8> = vec![3, w, h];
    data.extend(std::iter::repeat(0i8).take((w as usize) * (h as usize)));
    let _ = game_map::load(&mut m, &mut class_state, &data);
    m
}

fn place(arena: &mut EntityArena, x: i8, y: i8, layer: i8) -> EntityId {
    let id = arena.spawn(8, 0);
    let mut n = *arena.node(id);
    n.tile_x = x;
    n.tile_y = y;
    n.layer = layer;
    arena.set_node(id, n);
    id
}

#[test]
fn occupancy_neighbors_and_scans() {
    let mut m = map_with_grid(6, 5);
    assert_eq!(m.width_tiles, 6);
    let mut arena = EntityArena::new();
    let hero = place(&mut arena, 2, 2, 1);
    let wide = place(&mut arena, 2, 0, 2);
    let right = place(&mut arena, 4, 2, 1);
    for id in [hero, wide, right] {
        battler::set_occupancy(&mut m, &arena, id);
    }
    assert_eq!(battler::neighbor(&m, &arena, hero, 1, 2), Some(wide));
    assert_eq!(battler::neighbor(&m, &arena, hero, 4, 2), Some(right));
    assert_eq!(battler::neighbor(&m, &arena, hero, 2, 1), None);
    assert_eq!(battler::neighbor(&m, &arena, hero, 1, 3), None);
    assert_eq!(battler::neighbor(&m, &arena, hero, 4, 4), None);
    assert_eq!(battler::neighbor(&m, &arena, hero, 7, 1), None);
    let occ = m.occupancy.as_ref().unwrap();
    assert_eq!(occ[0][2], Some(wide));
    assert_eq!(occ[0][3], Some(wide));
    // the wide entity looks down (dir 2) across its two columns
    let below = place(&mut arena, 3, 1, 1);
    battler::set_occupancy(&mut m, &arena, below);
    assert_eq!(battler::entity_in_dir(&m, &arena, wide, 2, None), Some(below));
    assert_eq!(battler::entity_in_dir(&m, &arena, wide, 2, Some(hero)), None);
    assert_eq!(battler::entity_in_dir(&m, &arena, wide, 2, Some(below)), Some(below));
    assert_eq!(battler::entity_in_dir(&m, &arena, hero, 4, None), None);
}

#[test]
fn targets_within_the_search_range() {
    let mut arena = EntityArena::new();
    let me = place(&mut arena, 1, 1, 1);
    let hero = place(&mut arena, 6, 3, 1);
    assert_eq!(soltia::enemy::tile_dist_x(&arena, me, hero), 5);
    assert_eq!(soltia::enemy::tile_dist_y(&arena, hero, me), 2);
}

#[test]
fn draw_tiles_covers_the_visible_window() {
    let mut class_state = GameMapClassState::new();
    let canvas = BaseCanvasState::new();
    let mut m = game_map::new_game_map(&mut class_state, &canvas, 1);
    // 3 x 2 tiles numbered 10..15
    let data: Vec<i8> = vec![3, 3, 2, 10, 11, 12, 13, 14, 15];
    let _ = game_map::load(&mut m, &mut class_state, &data);
    let m = &m;
    // a 20 x 20 view with the map origin at (-8, -8): columns 0..1, rows 0..1
    let ops = game_map::draw_tiles(m, -8, -8, 20, 20);
    assert_eq!(
        ops,
        vec![
            GlyphOp::SetClip(0, 0, 20, 20),
            GlyphOp::DrawTile(10, -8, -8),
            GlyphOp::DrawTile(11, 8, -8),
            GlyphOp::DrawTile(13, -8, 8),
            GlyphOp::DrawTile(14, 8, 8),
        ]
    );
    // scrolled right by a tile and a half: columns 1..2, clamped to the map
    let ops = game_map::draw_tiles(m, -24, 0, 40, 10);
    assert_eq!(
        ops,
        vec![GlyphOp::SetClip(0, 0, 40, 10), GlyphOp::DrawTile(11, -8, 0), GlyphOp::DrawTile(12, 8, 0)]
    );
}

#[test]
fn draw_entities_paints_the_heroes_front_to_back() {
    let mut m = map_with_grid(4, 4);
    let mut arena = EntityArena::new();
    let far = arena.spawn(8, 40);
    let near = arena.spawn(8, 10);
    let prop = arena.spawn(8, 20);
    for (id, kind) in [(far, EntityKind::Hero), (near, EntityKind::Hero), (prop, EntityKind::MapObject)] {
        let mut n = *arena.node(id);
        n.kind = kind;
        arena.set_node(id, n);
        game_map::add_entity(&mut m, &mut arena, id);
    }
    assert_eq!(game_map::draw_entities(&m, &arena), vec![near, far]);
    assert!(game_map::draw_entities(&map_with_grid(2, 2), &arena).is_empty());
}
