# ue_renderer

The contract between an authoritative simulation and a renderer that displays it, as a
verified library: the messages that cross the boundary, their byte layout, the
interpolation the renderer displays, an example authority and the handle-based bridge.

## Layout

| Where | What |
|---|---|
| `src/float.rs` | Floating-point numbers as bit patterns, and the operations of a floating-point unit |
| `src/endian.rs`, `src/number.rs`, `src/sequence.rs`, `src/codec.rs`, `src/reader.rs` | The wire format: little-endian numbers, counted sequences, UTF-8 strings |
| `src/math.rs`, `src/entity.rs`, `src/streaming.rs` | Vectors, rotations, transforms, entities, events, streaming directives |
| `src/input.rs`, `src/snapshot.rs`, `src/frame.rs` | The two framed messages |
| `src/interpolation.rs` | What is displayed between two snapshots |
| `src/authority.rs` | The example simulation |
| `src/bridge.rs` | The bridge: tick, pull the latest snapshot, push an input |
| `app/` | The C ABI, and the machine's floating-point unit |

## Floating point

The library holds floats as their IEEE 754 bits. Comparing, negating and clamping are
decided by the bits and verified. Arithmetic goes through the trait `FloatOps`, of whose
answers nothing is taken for granted: a contract says which operations were applied to
which operands, in which order. Determinism is proved for every unit whose operations
each have one answer.

## Wire format

Little-endian. Sequences are a `u32` count and then the elements; strings are a `u32`
length and then UTF-8 bytes. A message is `magic[4] | version:u16 | flags:u16 | body`, with
magic `UERS` for a snapshot and `UEPI` for an input. A body that is read is written again as
the same bytes. A value whose sequences and texts are each at most 8,000,000 long is read back
from what is written, whatever follows it, and its frame cut anywhere is an unexpected end
of the buffer.
