# Space Manager

A Hyprland helper that keeps several instances of an application (typically
browser profiles) as ordered "spaces": one is visible, the others are parked
in `special:spaces`, and a layer-shell bar shows and switches between them.

The logic is a Verus-verified library (`src/`):

- `manager` — the ordered spaces and the current index, every operation
  stated over `SpacesView`, with the laws relating them;
- `daemon::commands` — what each IPC command does to the spaces and which
  outside work follows (`command_step`, `switch_step`);
- `daemon::events`, `daemon::visibility`, `daemon::recovery`,
  `daemon::rematch` — window open/close, the single-visible rule, re-binding
  windows to live clients after a reconnect, drift detection, backoff;
- `process` — pending spawns and matching a new window to its spawn;
- `geometry` — edge-zone test, overlay width, monitor choice and the
  layer-shell anchor and margins;
- `overlay` — the bar's buttons, the text indicator, command templates;
- `ipc`, `cli`, `input`, `hypr_settings`, `text`, `types`.

`app/` is the program around it: the tokio daemon (Hyprland calls, the IPC
socket, evdev, files under `~/.space-manager/`), the GTK overlay, and the
`spacectl` client (the same binary run under that name).
