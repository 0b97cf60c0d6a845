# bedwatch_updater

The verified core of PartyMAN Update Manager, a macOS menu-bar app that checks
Homebrew casks and formulae, the App Store, macOS system updates, npm, pip and
Ruby gems for pending updates, installs them, and runs its checks on a schedule
through a launchd agent.

Everything the app decides is in `src/`, written in Verus with contracts:

- `check_output`: reading what a check printed, item by item or by its summary
  numbers, and the menu-bar total.
- `schedule`: when the schedule fires, what a run records, the notification it
  posts, and the launchd agent's plist.
- `scripts`, `upgrade`: the shell scripts for checks, upgrades and adopting
  untracked apps, and splitting a batch's output into history records.
- `history`: the update log's retention (180 days, 50 MiB) and reading it back.
- `release`: version comparison, update and release-notes lookups, and which
  pages the app may open.
- `cask_search`: finding the Homebrew cask for an app.
- `tray`: the badge and tooltip text.
- `text`, `section_map`, `json`, `clock`: string primitives, the section map,
  and the trusted boundary to `serde_json`, `chrono` and the system clock.

`app/` is the Tauri application around it: windows, the tray icon's drawing,
spawning shells, files and `launchctl`. `tests/` exercises the library.
