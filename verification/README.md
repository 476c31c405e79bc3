# codex_quota_ball

A floating, always-on-top indicator of the remaining Codex quota for GNOME on
X11: a draggable ball with a coloured ring that expands into a card with the
weekly limit, its reset time and a calendar heatmap of daily token use.

The logic is a Verus library under `src/`, verified against its contracts:

- `quota` — reading `account/rateLimits/read` replies, remaining percentages,
  ring colours, the weekly window and reset-time labels.
- `usage` — reading `account/usage/read` replies, the 26-week heatmap, the
  logarithmic intensity levels, month labels and grouped token counts.
- `daily` — the per-day token map (`BTreeMap`) and its listing in date order.
- `calendar` — dates as day numbers, with `chrono` behind small trusted
  wrappers.
- `codex` — the app-server command, reply classification and error texts.
- `json` — the JSON values the parsers read.
- `config`, `ui`, `morph`, `x11` — window positions, clamping to monitors and
  work areas, the placement of the card around the ball, and the policy that
  keeps the X11 input shape up to date.
- `worker` — the decisions of the refresh loop (when to connect, read,
  report, wait or stop) and how refresh outcomes update what the window
  shows.
- `text` — decimal digits and small string helpers.

`app/` is the program around it: the egui window, the Codex child process,
the refresh thread, the configuration file and the X11 calls.
