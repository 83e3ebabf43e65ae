# voxelruler

The logic of the VoxelRuler Minecraft launcher as a library verified with
Verus, and a small command-line program around it.

- `src/` — the library. Every function carries a `requires`/`ensures`
  contract over spec functions and is proved by Verus: version metadata
  (rules, argument templates, classpath and the full launch command), what an
  install downloads and where, mod loader version lists and profiles, the
  instance list and its orderings, NBT reading for worlds and servers,
  folder listings and log handling, deep links, Java runtime selection and
  the Microsoft sign-in redirect. Calls into outside crates (regex, url,
  sha1, flate2, zip, directories) and a few std functions stand behind small
  trusted functions whose contracts name what they return.
- `app/` — the program: reading and writing files, HTTP downloads, running
  Java and installers, the deep link socket, the Microsoft sign-in and the
  account's profile, skin and capes, serde forms of the stored and
  downloaded documents.
- `tests/` — tests of the library on concrete values.
