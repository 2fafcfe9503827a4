# rathole

A reverse proxy for services behind NATs. A client keeps a control channel to a
server for every service; when a visitor connects to the server, the server asks
for a data channel and forwards the visitor's bytes through it, compressed if the
service is configured so.

`src/` is the logic, verified with Verus: everything is computed from plain values.

- `protocol`, `wire`, `buffers`: messages, their binary form, and reading them from
  the bytes received so far
- `reuse`: the frames by which one data channel serves many visitors
- `compression`: batches for the zstd encoder, and training of dictionaries
- `config`: what a configuration may say, and the defaults it leaves open
- `server`: handshakes, the pool of data channels and visitors, sampling and
  dictionary generations, the registry of services, counters and their HTTP answers
- `client`: pushed dictionaries, control and data channels, UDP ports
- `transport`, `helper`: addresses, WebSocket paths, certificates and keys; an archive
  is checked before it is read
- `text`, `table`, `constants`: what the others share

The functions whose names begin with `law_` state what holds of the library as a
whole, for example that every message that was written is read back, that what was
flushed decompresses to what was written, that a shutdown completes the compressed
stream, and that both ends of a data channel use
the same dictionary.

Calls into other crates stand behind small functions marked
`#[verifier::external_body]`; the comment above each says what is relied on.

`app/` is the network side: sockets, tasks, timers and configuration files. `tests/`
holds the tests of the library.
