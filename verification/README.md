# chorus

A small replicated SQL database server: what is stored and sent, how a group of
nodes agrees, how a node is configured and started, and how PostgreSQL clients
talk to it.

`src/` is the library. Its functions state in `requires` and `ensures` what they
do, and Verus proves it; only reading the clock promises nothing. Laws
that span functions stand as public proof functions beside them.

| Part | Modules |
| --- | --- |
| Values and encodings | `bytes`, `text`, `json`, `wire`, `datum`, `row`, `key`, `calendar`, `sorting`, `names`, `node_map` |
| Commands and the log | `ids`, `mutation`, `command`, `raft_log`, `replay`, `limits`, `error` |
| Agreement | `cluster`, `proposal`, `replication`, `appending`, `network`, `reading`, `members`, `membership`, `rpc`, `transport`, `runtime`, `runtime_machine`, `forwarding` |
| Snapshots | `snapshot`, `snapshot_stream`, `snapshot_laws`, `stream_laws` |
| Configuration | `config`, `config_error`, `address`, `endpoint`, `files`, `peers`, `pem`, `manifest`, `manifest_laws`, `signed_load`, `identity`, `opening`, `status`, `backup` |
| The node | `node_args`, `node_plan`, `node_run`, `node_identity` |
| The PostgreSQL gateway | `pg_*` |

`app/` is the program around it: arguments, files, sockets, and the documents
that serde reads and writes. What the library takes from other crates (hashes,
signatures, compression, PEM, random bytes, the checks of the Raft runtime's
settings) goes through a few trusted functions, each of which says what is
believed of the call.

`tests/` runs the library on concrete values.
