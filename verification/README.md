# retrolib

Reading and writing the resource formats of Retro Studios' Switch games: packages
(PACK), textures (TXTR), materials, models (CMDL/SMDL/WMDL), collision trees, light
probe bundles, rooms and videos, with the block decoders (BC1–BC7, ASTC through
`astc-decode`) and the buffer decompression they need.

The library in `src/` is written in Verus: every function states its result in
`requires`/`ensures` over spec functions, and Verus proves it. Calls into outside
crates (uuid, flate2, bcdec_rs, astc-decode, tegra_swizzle) go through small trusted
wrappers whose contracts say what the crates' sources show. Floats are held as their
bits.

`app/` is the command-line tool around it (`pak`, `txtr`, `cmdl`, `collision`,
`fmv0`): file I/O, argument handling, and what works on floats (glTF export, OBJ
export, half-float widening).

Layout of `src/`:

- `util/`: byte reading and writing, LZSS and buffer decompression, BC and BPTC
  block decoders, ASTC header, DDS format numbers.
- `format/`: form and chunk framing (`rfrm`, `chunk`, `walk`, `foot`), packages
  (`pack`, `pack_write`, `asset_file`), textures (`txtr`, `texture_data`,
  `texture_image`), models (`cmdl`, `model`, `vertex_layout`, `mesh_draw`), model
  containers (`mcon`), materials (`mtrl`),
  light probes (`ltpb`), rooms (`room`, `room_data`, `room_slice`), collision
  (`clsn`) and videos (`fmv0`).
