//! Game-engine core of "Heroes Lore: Wind of Soltia": checksums, the byte and
//! random-number helpers, launch configuration, the depth-sorted entity list and
//! the record decoders, each with its contract proved by Verus.

pub mod jvm;
pub mod adler32;
pub mod crc32;
pub mod byte_util;
pub mod text;
pub mod debug;
pub mod app_config;
pub mod entity;
pub mod entity_list;
pub mod game_loop;
pub mod base_canvas;
pub mod game_map;
pub mod battler;
pub mod enemy_type;
pub mod floater;
pub mod font_manager;
pub mod equipment;
pub mod armor;
pub mod game_state;
pub mod directions;
pub mod enemy;
pub mod boss;
pub mod geb_hand_left;
pub mod bitmap_font;
pub mod asset_cache;
pub mod game_midlet;
pub mod game_screen;
pub mod effect;
