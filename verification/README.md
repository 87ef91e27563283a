# OxideNMS core

The verified core of OxideNMS, a desktop tool for Cisco network operations.
`src/` is a Verus library: every function states what it computes in its
`requires`/`ensures` contract and Verus proves it.

- `network/` — IPv4 addresses and subnets, the configuration hardening
  audit and its score, fleet compliance, configuration diffs, discovery
  sweep ranges.
- `report.rs` — Markdown and CSV reports of audits and fleets.
- `crypto.rs`, `hex.rs` — the credential vault record (PBKDF2 + AES-GCM)
  and its hexadecimal text; a record opens under its master password to
  the sealed text.
- `update.rs` — the forced-update decision from the release manifest.
- `i18n/` — interface texts; `settings.rs`, `db.rs`, `cli.rs` — settings,
  database records and vault decisions, command-line output.
- `shell.rs` — which screen the version check allows (a mandatory update
  locks the application) and what a tool's event does to the shell.
- `tools/` — the logic of the interactive tools: VLAN planner, config
  parser, syslog receiver, CSV exports, templates, finding texts, the
  scheduled backup and bulk deployment decisions, the device inventory,
  discovery, compliance table, SNMP map and firmware log.

Calls into outside crates (`semver`, `similar`, `aes-gcm`, `pbkdf2`,
`rand`, `minijinja`) and into `std` where `vstd` has no specification go
through small trusted wrappers whose contracts describe what those crates
document.

`app/` is the command-line program around the library (the subnet
calculator and one command per desktop tool): argument parsing,
files, network, database and SSH access, and the background loops
(scheduled backups, bulk deployment, SNMP polling, the syslog listener)
that perform what the library decides.
