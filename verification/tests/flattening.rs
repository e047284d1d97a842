use array_stream::reader::flatten_bytes;
use array_stream::scan::FlattenError;

fn read_bytes(src: &[u8]) -> Result<Vec<u8>, FlattenError> {
    flatten_bytes(src.to_vec())
}

#[test]
fn missing_outer_array() {
    assert!(read_bytes(b"garbage").is_err());
    assert!(read_bytes(br#" "string_value" "#).is_err());
    assert!(read_bytes(b"{} ").is_err());
    assert!(read_bytes(b"").is_ok());
    assert!(read_bytes(b"  \n   ").is_ok());
}

#[test]
fn empty_arrays() {
    assert_eq!(read_bytes(b"[]").unwrap(), b" ");
    assert_eq!(read_bytes(b"[][]").unwrap(), b"  ");
    assert_eq!(read_bytes(b" [\t] \n []").unwrap(), b"\t  ");
}

#[test]
fn arrays_with_items() {
    assert_eq!(read_bytes(br#"[{}, "hello"]"#).unwrap(), br#"{} "hello" "#);
    assert_eq!(read_bytes(b"[[[]]]").unwrap(), b"[[]] ");
    assert_eq!(read_bytes(b"[true, null]\n[false]").unwrap(), b"true null false ");
}

#[test]
fn string_escapes() {
    assert_eq!(read_bytes(br#"["\n\"\\{{{"]"#).unwrap(), br#""\n\"\\{{{" "#);
}

#[test]
fn whitespace_only_is_a_clean_end() {
    assert_eq!(read_bytes(b"").unwrap(), b"");
    assert_eq!(read_bytes(b"  \t\r\n   ").unwrap(), b"");
}

#[test]
fn bare_values_are_malformed() {
    assert!(matches!(read_bytes(b"garbage"), Err(FlattenError::MalformedInput)));
    assert!(matches!(read_bytes(br#""string""#), Err(FlattenError::MalformedInput)));
}

#[test]
fn lone_object_is_malformed() {
    assert!(matches!(read_bytes(b"{}"), Err(FlattenError::MalformedInput)));
}

#[test]
fn brace_closing_at_top_level_is_malformed() {
    assert!(matches!(read_bytes(b"[}]"), Err(FlattenError::MalformedInput)));
}

#[test]
fn truncated_array_is_reported() {
    assert!(matches!(read_bytes(b"[1, 2"), Err(FlattenError::UnexpectedTruncation)));
    assert!(matches!(read_bytes(b"[{\"a\": 1}"), Err(FlattenError::UnexpectedTruncation)));
}

#[test]
fn comma_whitespace_collapses_into_one_separator() {
    assert_eq!(read_bytes(b"[1,2]").unwrap(), b"1 2 ");
    assert_eq!(read_bytes(b"[1, 2]").unwrap(), b"1 2 ");
    assert_eq!(read_bytes(b"[1, \t\n  2]").unwrap(), b"1 2 ");
}

#[test]
fn nested_commas_pass_through() {
    assert_eq!(read_bytes(b"[[1,2]]").unwrap(), b"[1,2] ");
    assert_eq!(read_bytes(br#"[{"a":1,"b":2}]"#).unwrap(), br#"{"a":1,"b":2} "#);
}

#[test]
fn structural_bytes_inside_strings_stay_put() {
    assert_eq!(read_bytes(br#"["a\"b\\c"]"#).unwrap(), br#""a\"b\\c" "#);
    assert_eq!(read_bytes(br#"["[1,2],{}"]"#).unwrap(), br#""[1,2],{}" "#);
}

#[test]
fn adjacent_arrays_concatenate() {
    assert_eq!(read_bytes(b"[true, null][false]").unwrap(), b"true null false ");
}

#[test]
fn output_cannot_be_fed_back() {
    let out = read_bytes(b"[true]").unwrap();
    assert_eq!(out, b"true ");
    assert!(out.len() < b"[true]".len());
    assert!(matches!(read_bytes(&out), Err(FlattenError::MalformedInput)));
}

#[test]
fn nul_byte_ends_the_chunk() {
    assert_eq!(read_bytes(b"[]\0rest").unwrap(), b" \0rest");
}
