# plugkill

The rules of a hardware kill switch, proved with Verus.

A daemon watches the physical state of a machine and powers it off when something
changes that nobody authorized. This crate holds what the daemon's clients, its
windows and its relay decide; the programs around it do the reading and sending.

## Layout

`src/` is the library. Every function states what it returns, and Verus checks it. Of
one result, a random nonce, there is nothing to state.

| Module | What it decides |
|--------|-----------------|
| `usb`, `thunderbolt`, `sdcard`, `pci`, `display`, `edid` | what a bus lists, and what changed on it |
| `power`, `network`, `lid`, `sysfs`, `platform_freebsd` | what the machine's state files and sysctls mean |
| `allowances` | which devices are allowed for now, and until when |
| `state` | the mode the daemon runs in |
| `authz` | what an answer from polkit or logind means |
| `ipc`, `json`, `decode`, `render` | the control socket's requests and replies, and how they read |
| `config` | the configuration: its defaults, its ranges and rules, its file, its Nix form |
| `document` | TOML documents |
| `relay` | a mesh of machines that kill together: keys, packets, sending, listening |
| `gui` | the tray, the dashboard and the settings window, as data |
| `text`, `number`, `order` | strings, numerals, and the order of keys |

`app/` is the program: sockets, D-Bus, files, windows. `tests/` runs the library.

## What is trusted

Calls into other crates stand behind small wrappers whose contracts are believed, not
proved: `serde_json` and `toml` for the two formats, `ed25519-dalek`, `base64` and
`rand` for the relay. Each wrapper says what it claims of the call. Laws about the
library as a whole are public proof functions beside what they speak of.
