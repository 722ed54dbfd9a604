# maxwell

A workbench for two-dimensional FDTD simulations of electromagnetic fields:
projects are described in TOML files (modelled area, cell size, run time,
boundaries, dielectric rectangles, probes and sources), edited with small
dialogs, and simulated in TE or TM polarisation.

## Layout

- `src/` — the verified library (Verus):
  - `config.rs` — the sections of a configuration file;
  - `objects.rs` — project objects and project settings built from a
    configuration;
  - `toml_text.rs` — the text of a configuration file written for a project;
  - `document.rs` — adding one object entry to an existing file, section by
    section, line by line;
  - `text.rs` — white space, trimming, line splitting and joining;
  - `dialog.rs` — field checks and the records exchanged with the dialogs;
  - `scene.rs` — numbered object lists, selection, click priority, deletion;
  - `simulation.rs` — start/stop/resume control and the per-step decision;
  - `grid.rs` — grid geometry, cell indexing and the time-step counter;
  - `temp_config.rs` — the session's configuration path and its temporary
    file names.
- `app/` — the terminal program around the library: file and environment
  access, TOML parsing, the dialogs, and the floating-point field solvers.
- `tests/` — tests of the library.
