# soltia

The game-engine core of the action RPG "Heroes Lore: Wind of Soltia" as a
Verus library: each function carries a `requires`/`ensures` contract that
Verus proves.

The library holds the engine's logic and leaves the device to its host:

- integer semantics of the JVM (`jvm`), checksums (`adler32`, `crc32`) and
  the byte and random-number helpers (`byte_util`), UTF-16 text (`text`);
- launch configuration (`app_config`, `debug`), the frame loop and state
  requests (`game_loop`, `game_state`, `game_midlet`), canvas geometry and
  the loading screen (`base_canvas`, `game_screen`);
- the entity arena and its depth-sorted draw list (`entity`, `entity_list`),
  maps, occupancy and tiles (`game_map`);
- combat: combatants, enemies and their AI, bosses, floaters and effects
  (`battler`, `enemy_type`, `enemy`, `boss`, `geb_hand_left`, `floater`,
  `effect`, `directions`);
- items (`equipment`, `armor`, `asset_cache`);
- bitmap fonts and text layout (`bitmap_font`, `font_manager`).

Drawing is computed, not performed: the paint routines return lists of
drawing steps (`bitmap_font::GlyphOp`, `game_screen::SpriteBlit`) that the
host replays on its graphics context.

`tests/` runs the library on concrete values.
