# devlog

A terminal tool that tracks development time per project: it starts and stops
sessions, records the commits made during them, prints a weekly report and a
stand-up message, saves and restores a work context, and shows a dashboard.

The library in `src/` is written in Verus: its functions carry contracts that
Verus proves. The few calls into `chrono` and `std` that it cannot read go
through small trusted wrappers. Their contracts state what the outside source
shows of each call; where a result depends on the machine's time zone, they state
only what holds in every zone.

- `text`: lines, trimming, splitting at a separator, decimal numbers and padding.
- `clock`: instants as `chrono` reports them, elapsed time between two of them,
  and the calls into `chrono` that parse, shift, write and localise instants.
- `model`: commits, sessions and saved contexts.
- `style`: terminal colours and how durations are written.
- `tracker`: starting and stopping sessions, and the `start`, `stop` and
  `status` messages.
- `report`: which sessions count toward the week, the totals per project, their
  order, and the weekly report.
- `standup`, `snapshot`, `dashboard`, `history_log`: what the `standup`,
  `save`/`restore`, `dashboard`, `log` and `edit` commands show.
- `editing`: renaming a project across the history and correcting a session's end.
- `git`: reading the output of `git` and the shell history.

`app/main.rs` is the command itself: arguments, files, `git`, the terminal and
the clock.
