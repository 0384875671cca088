# tmux_agent_hook

The hooks that keep a tmux pane's options in step with the coding agent that
runs in it, verified with Verus.

- `src/pane.rs`: a pane during one hook, as the options it had and the writes
  issued since.
- `src/roster.rs`: the comma-separated roster of live children.
- `src/subagent.rs`: the handlers of a child's start and stop.
- `src/teardown.rs`: teardowns that wait for the last child.
- `src/protocol.rs`: what the handlers promise together, over any run of events.
- `src/lock.rs`: the pane's lock file and the bounded wait for it.
- `app/`: opening and locking the file, and the handlers over a host that talks
  to tmux and to the desktop.
