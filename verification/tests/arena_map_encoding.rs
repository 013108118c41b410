use defiant::arena::{Arena, ArenaMap};
use defiant::encoding::arena_map::{
    encode_message, encode_with_defaults, encoded_len_message, encoded_len_with_defaults,
    merge_with_defaults,
};
use defiant::encoding::{int32, string, DecodeContext};
use defiant::error::DecodeError;
use defiant::wire_type::WireType;

fn key_encode(tag: u32, k: &&str, buf: &mut Vec<u8>) {
    string::encode(tag, k, buf)
}

fn key_len(tag: u32, k: &&str) -> usize {
    string::encoded_len(tag, k)
}

fn key_merge<'a>(
    wt: WireType,
    k: &mut &'a str,
    b: &mut &[u8],
    a: &'a Arena,
    c: DecodeContext,
) -> Result<(), DecodeError> {
    *k = string::merge_arena(wt, b, a, c)?;
    Ok(())
}

fn val_merge(wt: WireType, v: &mut i32, b: &mut &[u8], _a: &Arena, c: DecodeContext) -> Result<(), DecodeError> {
    int32::merge(wt, v, b, c)
}

#[test]
fn entries_omit_default_keys_and_values() {
    let values: [(&str, i32); 3] = [("", 5), ("a", 0), ("b", 2)];
    let mut buf = Vec::new();
    encode_with_defaults(key_encode, key_len, int32::encode, int32::encoded_len, &"", &0, 1, &values, &mut buf);
    assert_eq!(
        buf,
        vec![
            0x0a, 0x02, 0x10, 0x05, // {value: 5}
            0x0a, 0x03, 0x0a, 0x01, b'a', // {key: "a"}
            0x0a, 0x05, 0x0a, 0x01, b'b', 0x10, 0x02, // {key: "b", value: 2}
        ]
    );
    assert_eq!(
        encoded_len_with_defaults(key_len, int32::encoded_len, &"", &0, 1, &values),
        buf.len()
    );
}

#[test]
fn entries_roundtrip_through_merge() {
    let arena = Arena::new();
    let values: [(&str, i32); 2] = [("x", 7), ("yy", -1)];
    let mut buf = Vec::new();
    encode_with_defaults(key_encode, key_len, int32::encode, int32::encoded_len, &"", &0, 3, &values, &mut buf);

    let km = key_merge;
    let vm = val_merge;
    let mut out: Vec<(&str, i32)> = Vec::new();
    let mut slice: &[u8] = &buf;
    while !slice.is_empty() {
        slice = &slice[1..];
        merge_with_defaults(km, vm, "", 0, &mut out, &mut slice, &arena, DecodeContext::new()).unwrap();
    }
    assert_eq!(out, values);
    let map = ArenaMap::new(arena.alloc_slice_copy(&out));
    assert_eq!(map.get(&"yy"), Some(&-1));
}

#[test]
fn merge_with_defaults_fills_missing_fields() {
    let arena = Arena::new();
    let km = key_merge;
    let vm = val_merge;
    let mut out: Vec<(&str, i32)> = Vec::new();
    let empty_entry: &[u8] = &[0x00];
    let mut slice = empty_entry;
    merge_with_defaults(km, vm, "d", 9, &mut out, &mut slice, &arena, DecodeContext::new()).unwrap();
    assert_eq!(out, vec![("d", 9)]);
    let short: &[u8] = &[0x04, 0x08];
    let mut slice = short;
    assert_eq!(
        merge_with_defaults(km, vm, "d", 9, &mut out, &mut slice, &arena, DecodeContext::new()),
        Err(DecodeError::BufferUnderflow)
    );
}

#[test]
fn message_values_are_always_written() {
    let values: [(i32, i32); 2] = [(0, 0), (4, 1)];
    let mut buf = Vec::new();
    encode_message(int32::encode, int32::encoded_len, int32::encode, int32::encoded_len, &0, 2, &values, &mut buf);
    assert_eq!(encoded_len_message(int32::encoded_len, int32::encoded_len, &0, 2, &values), buf.len());
    assert_eq!(&buf[..4], &[0x12, 0x02, 0x10, 0x00]);
}

fn int_key_merge(wt: WireType, k: &mut i32, b: &mut &[u8], _a: &Arena, c: DecodeContext) -> Result<(), DecodeError> {
    int32::merge(wt, k, b, c)
}

#[test]
fn merge_with_defaults_reads_fields_by_number() {
    let arena = Arena::new();
    let entry: &[u8] = &[0x06, 0x18, 0x05, 0x08, 0x07, 0x10, 0x02];
    let mut slice = entry;
    let mut out: Vec<(i32, i32)> = Vec::new();
    merge_with_defaults(int_key_merge, val_merge, 0, 0, &mut out, &mut slice, &arena, DecodeContext::new())
        .unwrap();
    assert_eq!(out, vec![(7, 2)]);
    assert!(slice.is_empty());
}

#[test]
fn merge_with_defaults_reports_failing_fields() {
    let arena = Arena::new();
    // Field 1 with the length-delimited wire type, which int32 refuses.
    let entry: &[u8] = &[0x02, 0x0A, 0x00];
    let mut slice = entry;
    let mut out: Vec<(i32, i32)> = Vec::new();
    assert_eq!(
        merge_with_defaults(int_key_merge, val_merge, 0, 0, &mut out, &mut slice, &arena, DecodeContext::new()),
        Err(DecodeError::WireTypeMismatch { expected: WireType::Varint, actual: WireType::LengthDelimited })
    );
    assert!(out.is_empty());
    // A field that runs past the entry.
    let entry: &[u8] = &[0x01, 0x08, 0x07];
    let mut slice = entry;
    assert_eq!(
        merge_with_defaults(int_key_merge, val_merge, 0, 0, &mut out, &mut slice, &arena, DecodeContext::new()),
        Err(DecodeError::DelimitedLengthExceeded)
    );
    assert!(out.is_empty());
}

#[test]
fn int32_codec_functions_encode_map_entries() {
    let values: [(i32, i32); 2] = [(1, 0), (0, 5)];
    let mut buf = Vec::new();
    encode_with_defaults(int32::encode, int32::encoded_len, int32::encode, int32::encoded_len, &0, &0, 3, &values, &mut buf);
    assert_eq!(buf, vec![0x1A, 0x02, 0x08, 0x01, 0x1A, 0x02, 0x10, 0x05]);
    assert_eq!(encoded_len_with_defaults(int32::encoded_len, int32::encoded_len, &0, &0, 3, &values), buf.len());

    let values: [(i32, i32); 1] = [(0, 0)];
    let mut buf = Vec::new();
    encode_message(int32::encode, int32::encoded_len, int32::encode, int32::encoded_len, &0, 1, &values, &mut buf);
    assert_eq!(buf, vec![0x0A, 0x02, 0x10, 0x00]);
}

#[test]
fn string_and_bytes_entries_leave_out_defaults() {
    let values: [(&str, &[u8]); 2] = [("k", &b""[..]), ("", &b"\x01"[..])];
    let mut buf = Vec::new();
    encode_with_defaults(
        key_encode,
        key_len,
        |tag, v: &&[u8], buf: &mut Vec<u8>| defiant::encoding::bytes::encode(tag, *v, buf),
        |tag, v: &&[u8]| defiant::encoding::bytes::encoded_len(tag, *v),
        &"",
        &&b""[..],
        1,
        &values,
        &mut buf,
    );
    assert_eq!(buf, vec![0x0A, 0x03, 0x0A, 0x01, b'k', 0x0A, 0x03, 0x12, 0x01, 0x01]);
}
