# Wira Desk

A Windows tray daemon for same-application window cycling (`Win + \``) and
one-key window arrangement (halves, maximize, an overlapping stack).

## Layout

- `src/` is the verified library: the daemon's decisions, each with a
  contract checked by Verus. Where a decision rests on the answers of the
  window system (which windows exist, which one accepted focus), the seam
  that gives them is passed in an `observed::Observed`, which records every
  call made through it and its answer as ghost state; the contract states
  which calls were made, in which order, and what the decision made of
  their answers:
  - `hook` decides each key event of the low-level keyboard hook (modifier
    tracking, exact chord matching, the anti-repeat throttle, the
    virtual-machine passthrough latch, the settings capture lease, hook
    health), and `ring` is the fixed-capacity FIFO that carries accepted
    commands to the worker.
  - `cycling`, `context` and `worker` choose the window a cycle activates:
    eligibility, least-recently-used order, and the monitor and
    virtual-desktop gate that fails closed.
  - `arrangement` plans placements (halves, percentages, thirds, the stack,
    monitor moves) and the border compensation and monitor clamp applied
    when they are carried out.
  - `switcher` lays out the card grid of the visual switcher and moves its
    selection.
  - `tray`, `menu`, `icon`, `log`, `updatecheck`, `config`, `autostart`,
    `acl` and `legacy` hold the tray state machine, the menu, the icon
    glyphs, the warning log's rules, the update notice rule, reload policy,
    the logon task definition and arguments, and the permission check that
    guards it.
- `app/` is the program around it: the window, the hook thread, the worker's
  system calls, and the task scheduler. It runs on the shipped default
  shortcuts and layout settings: reading `config.toml` is left to the
  configuration crate, and the library's reload and validation steps
  (`config::reload`, `config::validate_chords`, `config::finish_reload`,
  `hook::resolve_startup_chord`) are not yet wired into it.
- `tests/` exercises the library on concrete values.
