# fabric_shim

A chaincode shim for Hyperledger Fabric: chaincode as a service, for Fabric 3.x
peers, with its protocol verified by Verus.

The chaincode runs as a gRPC server. The peer dials in and drives the protocol over
a stream of messages in both directions: a handshake, then any number of
transactions at once, each of which asks the peer for what it needs of the ledger.

## Layout

`src/` is the library. It holds the protocol without the sockets; its functions have
contracts, which Verus proves.

| Modules | What they hold |
|---|---|
| `varint`, `wire`, `layout`, `codec`, `fields`, `codec_laws`, `bytes_map`, `proto`, `message_type` | The messages and their wire format |
| `error`, `response` | Failures and outcomes |
| `stub`, `ledger`, `composite_key`, `byte_order`, `iterators` | What a transaction knows, what it asks of the ledger and what the replies mean |
| `pending`, `handler` | The handshake, the routing of replies, the life of a transaction |
| `json`, `text_map`, `metadata` | The metadata of a chaincode |
| `contract`, `numbers`, `dispatch`, `case`, `declaration`, `plan`, `data_type`, `data_table` | Contracts: from their declaration to the dispatch of calls |
| `server`, `bench` | The configuration of a server, the bookkeeping of a benchmark |
| `text` | Text as sequences of characters |

What is taken on trust are the functions of `prost`, `heck` and the standard library
that the library calls, each behind one item whose comment says what is claimed.

`app/` is what surrounds the library: the server over `tonic` and `tokio`, the
awaited forms of the stub and the iterators, metadata as JSON, the syntax of
contracts and data types, and the benchmark program (`app/gateway_bench.rs`, a root
of its own). The library hands it messages to send and takes those that came in.

`tests/` drives the library with an in-process mock peer, and holds its wire format
against `prost` and its numbers against the standard library.
