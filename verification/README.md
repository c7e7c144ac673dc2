# dexlauncher

A launcher for Pokémon fan games (Pokémon Infinite Fusion): it installs a game
with `git`, checks its files, updates it in place with a backup to fall back
on, launches it, and adds it to Steam with generated artwork.

The library in `src/` is verified with Verus. The contracts state what each
public function returns; where a result comes from an outside crate, it is
stated over a name for that crate's answer (such as the JPEG the image crate
writes for a crop of the banner), and where it comes from the machine, the
clock or the environment (the process list, the data directory, elapsed time),
the contract says what holds whatever the answer. The properties that span
several calls are proved as lemmas next to the code they are about.

- `src/engine/` — the launcher's logic: the installation and update runs
  (`installer`, `updater`), the `git` plans and progress parsing (`github`),
  GitHub addresses (`github_api`), download decisions (`download`), archive
  entries (`extractor`), integrity reports (`integrity`), Steam shortcut files
  (`steam`), Steam artwork and its centre crop (`artwork`), launching
  (`launcher`), the launcher's own updates (`launcher_updater`) and the
  registry of cancellable operations (`operation_manager`).
- `src/utils/` — paths, disk figures, progress and its formatting; `scale`
  and `single` compute, with integers only, exactly what `f64` formatting and
  `f32` arithmetic give.
- `src/db/` — the records kept in the database.
- `tests/` — tests of the library, run with the real outside crates.
- `app/` — the Tauri application around the library: commands, the SQLite
  database, processes, files, downloads and events.
