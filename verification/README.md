# flint_proto

The shared protocol library of the FlintMesh wildfire sensor network, written
in Verus: packet types, flood-routing rules, the seen-packet cache, the on-air
envelope encoding, and the bridge record protocol that carries every LoRa
reception to the host over USB. Every function in `src/` carries a contract
that Verus proves.

## Layout

| Path | Contents |
|---|---|
| `src/mesh.rs` | `WeatherPacket`, `FlintPayload`, `MeshEnvelope`, relay copies |
| `src/seen.rs` | `SeenCache`, up to 64 recent packet IDs; a full cache drops its oldest half |
| `src/relay.rs` | the disposition of a received envelope (relayed / local / duplicate) |
| `src/wire.rs` | envelope encoding and decoding through `postcard` |
| `src/crc.rs` | CRC-16/CCITT-FALSE and its single-byte error detection |
| `src/bridge.rs` | bridge records: framing, encoding, streaming parser, round-trip laws |
| `src/bridge_node.rs` | one turn of the bridge's receive loop; output modes |
| `src/gateway.rs` | draining a host buffer into records |
| `src/describe.rs` | the one-line text of a record |
| `src/oled.rs` | the bridge's status screen |
| `src/node.rs` | the sensor node's broadcast |
| `src/text.rs`, `src/dashboard.rs` | counters, hex dumps, clock text, dashboard settings |
| `src/bounded.rs` | the `heapless` vectors the cache and records keep their bytes in |
| `app/main.rs` | the host gateway: reads the serial port and prints records |
| `tests/` | scenario tests |

Items of outside crates (`heapless`, `postcard`, `core`/`std` text and clock
functions) are reached through small trusted wrappers whose contracts state
what those crates do; everything built on them is verified.
