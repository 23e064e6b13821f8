# kserve_catboost

Request handling for a KServe v2 inference server with a CatBoost backend, written in Verus.

The library under `src/` decides; it performs no I/O. Each of its functions has a contract, and
Verus proves that the code meets it and does not panic. Laws that relate several functions stand
beside them as public proof functions, named `law_...`.

Three small functions that call outside code are believed, not proved: `text::string_from_utf8`
(`String::from_utf8`), `json::integer_as_f64` (`serde_json::Number`) and `ids::random_uuid`
(`uuid::Uuid::new_v4`). Drawing an identifier panics where the system has no random bytes to
give.

- `float`: binary32 and binary64 numbers as bits, and the conversions between them
- `text`, `frames`, `decimal`: UTF-8, length-prefixed strings, numbers in decimal
- `json`: JSON values and the flattening of nested arrays
- `inference`: tensors to rows (`parse`), and dynamic batching (`batcher`)
- `model`: the registry of the batching server, with versions, load and unload
- `server`: the HTTP and gRPC front ends of the batching server
- `registry`, `tensor`, `select`, `metadata`, `types`, `http`, `grpc`: the front ends that keep
  numeric features in one flat buffer, with a model that can be replaced while requests run
- `proto`: the gRPC messages, as far as their contents are looked at
- `ids`, `status`, `messages`, `config`: identifiers, status codes, error texts, settings
- `bench`: the batches, the stand-in model and the statistics of the batcher benchmark

Floating-point numbers travel as their bits, so that equality is equality of bits and every
conversion is integer arithmetic with an exact contract.

`app/` is ordinary Rust around the library: command line, sockets, tasks and queues, JSON and
protobuf encoding, and the CatBoost binding. Its root is `app/main.rs`.

`tests/` runs the library, with the outside crates linked.
