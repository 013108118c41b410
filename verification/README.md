# defiant

Protocol Buffers encoding and decoding in which decoded strings, bytes and
repeated fields live in an arena, written in Verus with its behaviour stated
in contracts and proved.

- `varint`, `wire_type`, `encoding`, `length_delimiter`: varints, field keys,
  skipping unknown fields, length-delimited framing, the decode context.
- `scalar` and `encoding::{int32, ..., sfixed64, bool}`: the codecs of the
  scalar field types; `scalar_laws` proves that decoding gives back what
  encoding wrote.
- `encoding::{string, bytes, message, group, arena_map}`: the codecs of
  strings, bytes, nested messages, groups and map fields; `MapValue` is the
  equality by which a map entry leaves out default keys and values.
- `message`: the `Encode` and `Decode` traits that messages implement.
- `arena`: the arena (over `bumpalo`) and `ArenaMap`, a sorted slice looked
  up by binary search; `MapKey` orders keys as sequences of integers
  (strings by their UTF-8 bytes, as `str` orders).
- `enumeration`, `debug`: enumeration values, the items `Enumeration` can
  be derived for, and the `Debug` text of messages.
- `message_fields`, `map_field`, `field_type`: the decisions that code
  generation takes about a message's fields: tags, encoding order, duplicate
  tags, map attributes and the codecs a map field is given, and which
  field types borrow from the arena; `field_plan`: the codec statements of
  each other kind of field.
- `descriptor`: descriptor accessors with protobuf defaults.
- `conformance`: what the conformance runner answers to a request;
  `app/main.rs` runs it over stdin and stdout.
