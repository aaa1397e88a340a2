# Aureus Launcher

The logic of a desktop launcher for Minecraft Java, verified with Verus: how
versions are read and installed, how the game is started, how instances,
their content, backups and exports are managed, and how a Microsoft account
signs in.

## Layout

- `src/` — the verified library.
  - `text.rs`: the text operations the launcher relies on (`str::lines`,
    `str::trim`, `str::replace`, splitting, decimal notation), as spec
    functions with executable counterparts.
  - `paths.rs`: the launcher's file layout and `/`-separated path joining.
  - `digests.rs`: SHA-1 and SHA-256 digests in lowercase hexadecimal, and
    unpadded base64url.
  - `json.rs`: the JSON text that `serde_json` writes for the launcher
    (escaped strings, compact arrays, pretty-printed objects), and the call
    that writes configuration objects.
  - `version_manager.rs`: version documents (platform rules, launch
    arguments, class path, native libraries), official downloads, Java
    runtimes, Fabric loaders and the resolution of Modrinth projects.
  - `launch.rs`: the placeholders of version arguments, both command lines
    that start the game, and the edits of the game's settings file.
  - `launcher.rs`: game instances, the selected version and instance, update
    checks, diagnostics and installation outcomes.
  - `professional.rs`: managed instances, content toggling, safe mode,
    backups, exports, hardware and benchmark advice, crash analysis.
  - `auth.rs`: saved accounts, session lifetimes and the Microsoft sign-in
    (PKCE, authorization URL, redirect callback, service answers).
- `tests/` — tests of the library on concrete values.
- `app/` — the Tauri application around the library: files, network,
  processes, the keyring and the user interface commands.
