# chirp

A minimalist task manager for the terminal: vim keys, natural-language task
entry (`buy milk tomorrow 5pm p1 ping 30m daily`), lists, fuzzy search, notes
and ping reminders that a background daemon keeps sending.

The logic lives in `src/` and is verified with Verus: the entry grammar and
its parser, the task store and its queries, the application state and what
every key and mouse action does to it, the ping reminders, the command line,
imports, the daemon's decisions and texts, and what the screen shows.
`src/laws.rs` states properties that span several operations.

`app/` is the program around it: the SQLite file, the terminal (ratatui and
crossterm), desktop notifications, PID files and the login services.

```
chirp [--list <name>]    open the interface, optionally on a list
chirp add "task text"    add a task (supports --list)
chirp list [--json]      lists with task counts
chirp done [--json]      tasks completed today
chirp export             all tasks as JSON
chirp daemon [cmd]       start|stop|restart|install|uninstall|status
chirp --import <file>    import from JSON or CSV
```
