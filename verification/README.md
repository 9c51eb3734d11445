# winland

The decisions of a tiling window manager for Windows, as a verified library.

- `src/` is the library. It lays windows out, keeps workspaces and monitors, applies window rules,
  reads the settings, plans what commands and events call for, and writes what is told to the user.
  Every function states in its contract what it returns, and Verus proves it. Nothing is claimed of
  what the system's clock says.
- `tests/` runs the library on concrete desktops.
- `app/` holds the programs around the library: the daemon, the command-line tool and the shell entry
  point. They talk to Windows, read files and pipes, and do what the library says.

| Part | Modules |
| --- | --- |
| Geometry and layouts | `geometry`, `layout`, `stack`, `smart_split`, `dwindle`, `tile`, `tiling`, `engine`, `monitor_layout` |
| Windows, monitors and workspaces | `window`, `rules`, `monitors`, `workspace`, `detection`, `game_mode`, `placement`, `size` |
| Settings and hotkeys | `config`, `runtime_config`, `commands`, `chord`, `hotkey`, `hotkey_settings`, `validation`, `mouse_drag` |
| The daemon | `daemon_*`, `events`, `split_memory`, `border` |
| Messages and texts | `ipc`, `report`, `cli`, `table`, `widget`, `plugin`, `shell`, `shell_report` |
| Laws over several functions | `dwindle_laws`, `dwindle_geometry`, `partition_laws`, `layout_laws`, `daemon_laws`, `daemon_tiling_laws`, `daemon_focus_laws`, `daemon_event_laws`, `daemon_order_laws` |
