use array_stream::flatten::{do_copy, Flattener};
use array_stream::reader::ArrayStreamReader;
use array_stream::scan::FlattenError;

#[test]
fn pull_with_zero_capacity_is_a_no_op() {
    let mut reader = ArrayStreamReader::new(b"[]".to_vec());
    assert_eq!(reader.pull(0).unwrap(), b"");
    assert_eq!(reader.pull(4).unwrap(), b" ");
}

#[test]
fn pull_on_empty_source_ends_the_stream() {
    let mut reader = ArrayStreamReader::new(Vec::new());
    assert_eq!(reader.pull(8).unwrap(), b"");
}

#[test]
fn pull_delivers_small_chunks_in_order() {
    let mut reader = ArrayStreamReader::new(br#"["x,y"]"#.to_vec());
    assert_eq!(reader.pull(3).unwrap(), br#""x"#);
    assert_eq!(reader.pull(3).unwrap(), br#",y""#);
    assert_eq!(reader.pull(3).unwrap(), b" ");
    assert_eq!(reader.pull(3).unwrap(), b"");
}

#[test]
fn pull_keeps_state_across_calls() {
    let whole = array_stream::reader::flatten_bytes(br#"[{}, "hello"]"#.to_vec()).unwrap();
    let mut reader = ArrayStreamReader::new(br#"[{}, "hello"]"#.to_vec());
    let mut collected: Vec<u8> = Vec::new();
    loop {
        let piece = reader.pull(4).unwrap();
        if piece.is_empty() {
            break;
        }
        collected.extend_from_slice(&piece);
    }
    assert_eq!(collected, whole);
}

#[test]
fn comma_whitespace_collapses_across_pulls() {
    let mut reader = ArrayStreamReader::new(b"[1,   2]".to_vec());
    assert_eq!(reader.pull(3).unwrap(), b"1 ");
    assert_eq!(reader.pull(3).unwrap(), b"2 ");
    assert_eq!(reader.pull(3).unwrap(), b"");
}

#[test]
fn pull_reports_truncation_when_the_source_runs_out() {
    let mut reader = ArrayStreamReader::new(b"[12".to_vec());
    assert_eq!(reader.pull(2).unwrap(), b"1");
    assert_eq!(reader.pull(2).unwrap(), b"2");
    assert!(matches!(reader.pull(2), Err(FlattenError::UnexpectedTruncation)));
}

#[test]
fn flattener_scans_one_chunk_at_a_time() {
    let mut flattener = Flattener::new();
    assert!(!flattener.is_inside_array());
    assert_eq!(flattener.process_chunk(b"[tr").unwrap(), b"tr");
    assert!(flattener.is_inside_array());
    assert_eq!(flattener.nesting_depth(), Some(0));
    assert_eq!(flattener.process_chunk(b"ue]").unwrap(), b"ue ");
    assert!(!flattener.is_inside_array());
    assert_eq!(flattener.nesting_depth(), None);
}

#[test]
fn flattener_rejects_a_malformed_chunk() {
    let mut flattener = Flattener::new();
    assert!(matches!(flattener.process_chunk(b"x"), Err(FlattenError::MalformedInput)));
}

#[test]
fn do_copy_appends_the_given_span() {
    let mut dst = vec![1u8];
    do_copy(&mut dst, &[10, 20, 30, 40], 1, 2);
    assert_eq!(dst, vec![1, 20, 30]);
    do_copy(&mut dst, &[7], 0, 1);
    assert_eq!(dst, vec![1, 20, 30, 7]);
    do_copy(&mut dst, &[9, 9], 2, 0);
    assert_eq!(dst, vec![1, 20, 30, 7]);
}
