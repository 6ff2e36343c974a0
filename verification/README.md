# barter_node

The rules of a mutual-backup node, written and proved in Verus. Nodes keep each
other's encrypted revisions, sample what others hold for them, and fetch their
own revisions back when local state is lost.

- `src/` is the library. Everything in it is verified. It holds no I/O: work that
  talks to peers or to storage is a state machine that names the next action and
  takes the outcome. `src/outside.rs` holds every call into another crate, with
  what is relied on of it.
- `app/` runs those state machines against ports for storage, keys, the clock and
  the peer transport.
- `tests/` runs the library on concrete values.

Properties that relate several functions are public proof functions whose names
start with `law_`. Each stands in the module it speaks of.
