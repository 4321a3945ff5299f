# vade

A command-line tool that prepares deployments of applications to a Linux server: from a
`vade.toml` file it renders systemd units, a Caddyfile and a pyinfra deploy (`execute.py`) into an
output directory, which `pyinfra` then runs against the server.

## Layout

- `src/` is the library, verified with Verus: app names, `--set` overrides, reading `vade.toml`
  into the configuration model and validating it, template loading, the variables that
  templates see, error reports, and the commands (`create`, `deploy`, `server-setup`, and the
  `destroy` deploy that the command line does not offer) as functions from their inputs to the
  files they write: each file holds what its template renders to. The template engine
  (minijinja), the TOML parser (toml-span) and the JSON parser (serde_json) are called through
  small trusted wrappers in `src/engine.rs`, `src/config/reading.rs`, `src/json.rs` and
  `src/util.rs`.
- `app/` is the program around it: command-line parsing (clap), reading and writing files, and
  printing reports (miette).
- `tests/` exercises the library.

The built-in templates and the port-assignment script are read at run time from the
`resources` directory next to the executable, or from `$VADE_RESOURCES_DIR`, laid out as
`caddyfile-templates/`, `systemd-unit-templates/`, `pyinfra-templates/` and `scripts/`.
