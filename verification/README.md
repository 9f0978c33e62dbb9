# photon_engine

The verified core of the Photon engine, a small first-person map engine.

- `src/` is the library, written in Verus: the `.mpht` map file format
  (writer, reader and the round-trip law), the maps directory listing,
  the console command language and its replies, the keyboard shortcut and
  menu state machine, input key tracking, config comment stripping and
  defaults, UI callback registry, and the integer side of meshes, textures,
  lights and footstep sounds. Vectors and colours are held as the bit
  patterns of their `f32` components.
- `app/` is a console front end in ordinary Rust: it reads and writes
  `config.json` and the map files, builds the built-in maps (floating
  point), holds the physics boxes, and runs console commands from
  standard input through the library.
- `tests/` exercises the library on concrete values.
