# satrs

Components to build on-board software for remote systems like rovers or satellites, with
their behaviour stated in contracts and proved by Verus.

## Layout

- `src/` is the verified library:
  - `pool`: static memory pool with fixed-size subpools and their addressing;
  - `res_code`, `events`, `mode`, `params`, `bytes`: result codes, event IDs, modes, integer
    parameters, their byte encodings and the errors of byte conversions;
  - `encoding`: COBS framing and the parsing of tightly packed CCSDS space packets;
  - `ccsds::scheduler`: the time-tagged telecommand scheduler;
  - `mode_tree`, `legacy::subsystem`, `dev_mgmt`: mode tables, sequence execution and the
    commanding helpers of subsystems, assemblies and device managers;
  - `cfdp`: routing of received PDUs, fault handling and the filestore abstraction;
  - `hal`: the parsing, framing and decisions of the TCP and UDP TMTC servers;
  - `fdir`, `hk`, `health`, `power`, `executable`, `action`, `queue`, `request`, `tmtc`,
    `time`, `minisim`: smaller components and the data types they exchange.
- `tests/` runs the library on concrete values.
- `app/` holds what runs around the library: task threads, the native filestore, the socket
  loops of the servers, the floating point parameters and the JSON encoding of simulator
  messages.

Calls into `cobs`, `spacepackets`, `hashbrown` and the standard library that the library's
logic makes go through small trusted functions whose contracts state what those crates
promise; everything else is proved.
