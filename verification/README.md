# RouteLane

RouteLane routes selected domains, IP addresses and CIDR ranges through a
chosen network interface while the rest of the traffic keeps the default
route. It uses routing table `100` and `ip rule` priorities `10000`–`10999`;
privileged changes go through a small helper run by `pkexec`.

## Layout

- `src/` — the library, verified with Verus:
  - `models.rs` — rule targets (reading user input as an IP/CIDR or a
    domain), rules, messages, the helper's operations;
  - `ipaddr.rs`, `text.rs` — the textual IP grammar and the string
    building blocks the parsers use;
  - `manager.rs` — the routing state (off/on, rules, ids and priorities)
    and the batches of helper operations that each change plans;
  - `helper.rs` — the helper's white-list checks and the one action each
    accepted operation becomes;
  - `executor.rs` — finding the helper, reading `ip --json` output and the
    helper's answer, route probes;
  - `engine.rs`, `resolver.rs`, `config.rs` — the engine's decisions,
    resolved addresses, saved settings;
  - `i18n.rs`, `window.rs`, `tray.rs` — texts and what the window and the
    tray show;
  - `dns_router.rs` — the experimental dnsmasq/ipset backend;
  - `laws.rs` — properties that span several functions.
- `app/` — the program around the library: the GTK window, the Tokio
  engine loop, running `ip`, `pkexec` and the resolver, the JSON forms of
  the types, and the privileged helper (started as `routelane-helper`).
- `tests/` — tests of the library.
