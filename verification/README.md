# vm_core

The core of `vm`, a light version manager: user-defined categories (such as
`nodejs` or `java`), the installed versions of each, and which one is
active. Switching a version rebuilds one link per category (`~/.vm/<category>`),
which sits on the user's `PATH` together with `bin` under it.

Layout:

- `src/` — the library, verified with Verus.
  - `model.rs`: the configuration and its errors, with their views.
  - `switch.rs`: the operations on the configuration, each stated as a
    function on the view; resolving a version's `bin` directory.
  - `laws.rs`: what holds of the operations taken together.
  - `strmap.rs`: maps keyed by names, kept in name order.
  - `keys.rs`: the order of names (that of their UTF-8 bytes).
  - `text.rs`: trimming, splitting, joining, ASCII case-insensitive comparison.
  - `env.rs`: editing a `;`-separated `PATH` value.
  - `paths.rs`: where the configuration file and the links lie.
  - `snippet.rs`: the `PATH` lines for a shell profile (`vm env`, `vm init`).
  - `link.rs`: the steps that put links and `PATH` entries in place or take
    them away, as state machines whose operations the caller carries out.
- `app/` — the `vm` command line: reading and writing `config.toml`, the
  file system, the Windows registry.
- `tests/` — tests of the library.
