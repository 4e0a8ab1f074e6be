# disktui

A terminal disk manager for Linux: partitions, filesystems, LUKS, RAID,
SMART, benchmarks, disk images and network shares in `/etc/fstab`, on top of
UDisks2.

The decisions of the program live in a library whose functions carry
contracts proved with Verus:

- `src/fstab.rs` — reading and editing `/etc/fstab` (escaping, parsing,
  inserting, replacing and deleting a share, the root script that installs
  the new file). `src/fstab_laws.rs` proves what the edits keep.
- `src/model.rs`, `select.rs`, `actions.rs`, `tree.rs` — the disk model,
  lookups, the device tree, the partition map and which actions a selection
  offers and why an action is dimmed. `src/disk_laws.rs` holds the laws.
- `src/session.rs`, `keys.rs`, `flow.rs`, `dialogs.rs`, `form.rs`,
  `submit.rs` — the interface as a state machine: keys and service messages
  in, the next state and the requested effect out. `src/session_laws.rs`
  proves that destructive work always passes the typed confirmation.
- `src/objects.rs` — the UDisks object tree, given as plain values, read into
  the model.
- `src/calls.rs`, `replies.rs`, `smart.rs`, `view.rs`, `details.rs` — which
  D-Bus call an operation makes and what it carries, what a finished
  operation or root job reports, the theme list's keys, the SMART table,
  the partition map and the details panel.

`app/` is the front end around it: the terminal, the event loop, D-Bus calls,
sudo, drawing, colour themes and the byte-size formatting that uses floating
point.
