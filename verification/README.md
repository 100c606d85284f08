# trycp_server

The decision logic of a TryCP server (the test-conductor server that
tryorama drives over JSON-RPC), verified with Verus.

- `src/port_range.rs`: parsing of `lo-hi` port ranges, with the exact
  error texts, and the round trip of a written range.
- `src/server.rs`: the server state: port allocation, reset, the paths of a
  player's files, registration of peer servers.
- `src/server_list.rs`: the registry of peer servers, one entry per URL.
- `src/request.rs`: handing out registered servers, as a state machine
  whose network checks are performed by the caller.
- `src/rpc.rs`: JSON-RPC errors and the texts of the answers.
- `src/paths.rs`, `src/text.rs`: path joining, DNA cache paths, decimal
  numerals, whitespace trimming.
- `src/outside.rs`: the calls into `url`, `url2` and UTF-8 decoding, whose
  contracts are trusted.
- `app/main.rs`: the program: command line, processes, files, network.
