# wireguard_manager

Management of WireGuard networks — a subnet split into a server range and a client
range, servers and clients with their keys and addresses, pre-shared keys between every
server and every other device, and the `.conf` files that follow from them — with a
command line and a terminal interface.

The library under `src/` is verified with Verus:

- `text`, `names`, `ipv4`: strings, name-ordered maps, IPv4 text and network arithmetic
  (subnets are parsed through `ipnet`);
- `keys`: Curve25519 key pairs and pre-shared keys (`x25519-dalek`, `base64`, `rand`);
- `manager`: the network data model, every operation on it with its exact effect, the
  rendering of configuration files, and laws that the operations keep (pre-shared keys
  stay consistent, addresses stay distinct, initialization reads back as asked);
- `tui`: the interface's state machine — what each key does in each mode — and the text
  that the panels and dialogs show;
- `cli`: the commands and the lines that each prints.

`app/` holds the program around it: argument parsing (`clap`), the JSON data file
(`serde_json`), file writes, and the terminal (`crossterm`, `ratatui`). Key handling
returns the file work it needs as a request, which `app/` performs and reports back.

`tests/` exercises the library through its public interface.
