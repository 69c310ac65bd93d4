use zerovec::components::{
    compute_serializable_len, get_serializable_bytes, write_serializable_bytes,
    VarZeroVecComponents,
};
use zerovec::ule::ZeroVecError;

fn byte_elements() -> Vec<Vec<u8>> {
    vec![b"a".to_vec(), b"bcd".to_vec(), b"".to_vec(), b"ef".to_vec()]
}

#[test]
fn test_encode_strings_scenario() {
    let elements = byte_elements();
    let len = compute_serializable_len::<Vec<u8>, Vec<u8>>(&elements).unwrap();
    assert_eq!(len, 26);
    let buf = get_serializable_bytes::<Vec<u8>, Vec<u8>>(&elements).unwrap();
    assert_eq!(buf.len(), 26);
    // length header: N = 4, little-endian
    assert_eq!(&buf[0..4], &[4, 0, 0, 0]);
    // index table: offsets 0, 1, 4, 4
    assert_eq!(&buf[4..8], &[0, 0, 0, 0]);
    assert_eq!(&buf[8..12], &[1, 0, 0, 0]);
    assert_eq!(&buf[12..16], &[4, 0, 0, 0]);
    assert_eq!(&buf[16..20], &[4, 0, 0, 0]);
    // data segment: the concatenated elements
    assert_eq!(&buf[20..26], b"abcdef");
}

#[test]
fn test_parse_strings_scenario() {
    let elements = byte_elements();
    let buf = get_serializable_bytes::<Vec<u8>, Vec<u8>>(&elements).unwrap();
    let view = VarZeroVecComponents::<Vec<u8>>::parse_byte_slice(&buf).unwrap();
    assert_eq!(view.len(), 4);
    assert!(!view.is_empty());
    assert_eq!(view.get(0), Some(b"a".to_vec()));
    assert_eq!(view.get(1), Some(b"bcd".to_vec()));
    assert_eq!(view.get(2), Some(b"".to_vec()));
    assert_eq!(view.get(3), Some(b"ef".to_vec()));
    assert_eq!(view.get(4), None);
    assert_eq!(view.to_vec(), elements);
}

#[test]
fn test_write_into_exact_buffer() {
    let elements = byte_elements();
    let mut out = vec![0u8; 26];
    write_serializable_bytes::<Vec<u8>, Vec<u8>>(&elements, &mut out);
    assert_eq!(out, get_serializable_bytes::<Vec<u8>, Vec<u8>>(&elements).unwrap());
}

#[test]
fn test_round_trip_u32() {
    let elements: Vec<u32> = vec![7, 0, 0xdead_beef, 42];
    let buf = get_serializable_bytes::<u32, u32>(&elements).unwrap();
    assert_eq!(buf.len(), 4 + 16 + 16);
    let view = VarZeroVecComponents::<u32>::parse_byte_slice(&buf).unwrap();
    assert_eq!(view.to_vec(), elements);
}

#[test]
fn test_empty_sequence() {
    // A zero-byte buffer is a valid encoding of zero elements.
    let view = VarZeroVecComponents::<Vec<u8>>::parse_byte_slice(&[]).unwrap();
    assert_eq!(view.len(), 0);
    assert!(view.is_empty());
    assert_eq!(view.get(0), None);
    assert_eq!(view.to_vec(), Vec::<Vec<u8>>::new());
    // Encoding no elements writes the header of a zero count, which
    // parses back to zero elements as well.
    let empty: Vec<Vec<u8>> = Vec::new();
    let buf = get_serializable_bytes::<Vec<u8>, Vec<u8>>(&empty).unwrap();
    assert_eq!(buf, vec![0u8, 0, 0, 0]);
    let view = VarZeroVecComponents::<Vec<u8>>::parse_byte_slice(&buf).unwrap();
    assert_eq!(view.len(), 0);
    assert!(view.to_vec().is_empty());
    // The fresh and default views are empty too.
    assert!(VarZeroVecComponents::<Vec<u8>>::new().is_empty());
    assert!(VarZeroVecComponents::<Vec<u8>>::default().is_empty());
}

#[test]
fn test_get_bounds() {
    let elements = byte_elements();
    let buf = get_serializable_bytes::<Vec<u8>, Vec<u8>>(&elements).unwrap();
    let view = VarZeroVecComponents::<Vec<u8>>::parse_byte_slice(&buf).unwrap();
    let all = view.to_vec();
    for idx in 0..view.len() {
        assert_eq!(view.get(idx), Some(all[idx].clone()));
    }
    for idx in view.len()..view.len() + 3 {
        assert_eq!(view.get(idx), None);
    }
    assert_eq!(view.get(usize::MAX), None);
}

#[test]
fn test_unchecked_matches_checked() {
    let elements = byte_elements();
    let buf = get_serializable_bytes::<Vec<u8>, Vec<u8>>(&elements).unwrap();
    let checked = VarZeroVecComponents::<Vec<u8>>::parse_byte_slice(&buf).unwrap();
    let unchecked = VarZeroVecComponents::<Vec<u8>>::from_bytes_unchecked(&buf);
    assert_eq!(checked.len(), unchecked.len());
    assert_eq!(checked.to_vec(), unchecked.to_vec());
    for idx in 0..checked.len() + 2 {
        assert_eq!(checked.get(idx), unchecked.get(idx));
    }
}

#[test]
fn test_binary_search_u32() {
    let elements: Vec<u32> = vec![10, 20, 30, 40, 50];
    let buf = get_serializable_bytes::<u32, u32>(&elements).unwrap();
    let view = VarZeroVecComponents::<u32>::parse_byte_slice(&buf).unwrap();
    assert_eq!(view.binary_search(&10), Ok(0));
    assert_eq!(view.binary_search(&30), Ok(2));
    assert_eq!(view.binary_search(&50), Ok(4));
    assert_eq!(view.binary_search(&5), Err(0));
    assert_eq!(view.binary_search(&35), Err(3));
    assert_eq!(view.binary_search(&55), Err(5));
}

#[test]
fn test_binary_search_bytes() {
    let elements = vec![b"ab".to_vec(), b"abc".to_vec(), b"b".to_vec(), b"ca".to_vec()];
    let buf = get_serializable_bytes::<Vec<u8>, Vec<u8>>(&elements).unwrap();
    let view = VarZeroVecComponents::<Vec<u8>>::parse_byte_slice(&buf).unwrap();
    assert_eq!(view.binary_search(&b"ab".to_vec()), Ok(0));
    assert_eq!(view.binary_search(&b"b".to_vec()), Ok(2));
    assert_eq!(view.binary_search(&b"a".to_vec()), Err(0));
    assert_eq!(view.binary_search(&b"bb".to_vec()), Err(3));
    assert_eq!(view.binary_search(&b"zz".to_vec()), Err(4));
}

#[test]
fn test_binary_search_in_range() {
    let elements: Vec<u32> = vec![10, 20, 30, 40, 50];
    let buf = get_serializable_bytes::<u32, u32>(&elements).unwrap();
    let view = VarZeroVecComponents::<u32>::parse_byte_slice(&buf).unwrap();
    // Results are relative to the range's start.
    assert_eq!(view.binary_search_in_range(&30, 1..4), Some(Ok(1)));
    assert_eq!(view.binary_search_in_range(&10, 1..4), Some(Err(0)));
    assert_eq!(view.binary_search_in_range(&50, 1..4), Some(Err(3)));
    assert_eq!(view.binary_search_in_range(&30, 2..2), Some(Err(0)));
    assert_eq!(view.binary_search_in_range(&30, 3..2), None);
    assert_eq!(view.binary_search_in_range(&30, 0..6), None);
}

#[test]
fn test_binary_search_by_predicate() {
    let elements: Vec<u32> = vec![10, 20, 30, 40, 50];
    let buf = get_serializable_bytes::<u32, u32>(&elements).unwrap();
    let view = VarZeroVecComponents::<u32>::parse_byte_slice(&buf).unwrap();
    assert_eq!(view.binary_search_by(|probe: &u32| probe.cmp(&40)), Ok(3));
    assert_eq!(view.binary_search_by(|probe: &u32| probe.cmp(&15)), Err(1));
    assert_eq!(
        view.binary_search_in_range_by(|probe: &u32| probe.cmp(&40), 0..3),
        Some(Err(3))
    );
}

#[test]
fn test_malformed_header_rejected() {
    // Fewer than four bytes, but not zero, cannot hold the length.
    for n in 1..4 {
        let buf = vec![0u8; n];
        assert_eq!(
            VarZeroVecComponents::<Vec<u8>>::parse_byte_slice(&buf).err(),
            Some(ZeroVecError::VarZeroVecFormatError)
        );
    }
    // A length header promising more entries than the buffer holds.
    let buf = vec![255u8, 255, 255, 255, 0, 0];
    assert_eq!(
        VarZeroVecComponents::<Vec<u8>>::parse_byte_slice(&buf).err(),
        Some(ZeroVecError::VarZeroVecFormatError)
    );
}

#[test]
fn test_corrupt_index_rejected() {
    let elements = byte_elements();
    let mut buf = get_serializable_bytes::<Vec<u8>, Vec<u8>>(&elements).unwrap();
    // Point element 1's offset far outside the six-byte data segment.
    buf[8] = 200;
    assert_eq!(
        VarZeroVecComponents::<Vec<u8>>::parse_byte_slice(&buf).err(),
        Some(ZeroVecError::VarZeroVecFormatError)
    );
}

#[test]
fn test_decreasing_offsets_rejected() {
    let elements = byte_elements();
    let mut buf = get_serializable_bytes::<Vec<u8>, Vec<u8>>(&elements).unwrap();
    // Swap element 1's offset (1) above element 2's (4): a decreasing
    // pair yields an invalid byte range.
    buf[8] = 5;
    assert_eq!(
        VarZeroVecComponents::<Vec<u8>>::parse_byte_slice(&buf).err(),
        Some(ZeroVecError::VarZeroVecFormatError)
    );
}

#[test]
fn test_truncation_rejected() {
    // With four-byte elements, dropping any trailing byte leaves the
    // last element short, and its own validation rejects it.
    let elements: Vec<u32> = vec![7, 8, 9];
    let buf = get_serializable_bytes::<u32, u32>(&elements).unwrap();
    assert!(VarZeroVecComponents::<u32>::parse_byte_slice(&buf).is_ok());
    let truncated = &buf[..buf.len() - 1];
    assert_eq!(VarZeroVecComponents::<u32>::parse_byte_slice(truncated).err(), Some(ZeroVecError::ParseError));
    // Truncating into the index table breaks the layout itself.
    let short = &buf[..10];
    assert_eq!(VarZeroVecComponents::<u32>::parse_byte_slice(short).err(), Some(ZeroVecError::VarZeroVecFormatError));
}

#[test]
fn test_element_validation_rejected() {
    // One element of three bytes: a valid layout whose element fails
    // the u32 codec's own validation.
    let mut buf = Vec::new();
    buf.extend_from_slice(&[1, 0, 0, 0]);
    buf.extend_from_slice(&[0, 0, 0, 0]);
    buf.extend_from_slice(&[1, 2, 3]);
    assert_eq!(VarZeroVecComponents::<u32>::parse_byte_slice(&buf).err(), Some(ZeroVecError::ParseError));
    // The same bytes are a fine container of byte-string elements.
    let view = VarZeroVecComponents::<Vec<u8>>::parse_byte_slice(&buf).unwrap();
    assert_eq!(view.to_vec(), vec![vec![1u8, 2, 3]]);
}

#[test]
fn test_trailing_data_with_zero_count() {
    // A zero count followed by data: the data segment is unreachable
    // but the layout is valid, and the view holds no elements.
    let buf = vec![0u8, 0, 0, 0, 9, 9];
    let view = VarZeroVecComponents::<Vec<u8>>::parse_byte_slice(&buf).unwrap();
    assert_eq!(view.len(), 0);
}

#[test]
fn test_clone_is_same_view() {
    let elements = byte_elements();
    let buf = get_serializable_bytes::<Vec<u8>, Vec<u8>>(&elements).unwrap();
    let view = VarZeroVecComponents::<Vec<u8>>::parse_byte_slice(&buf).unwrap();
    let copy = view.clone();
    assert_eq!(copy.to_vec(), view.to_vec());
}
