use reactor::framer::{find_boundary, MARKER_LEN};

#[test]
fn boundary_at_end_of_request_head() {
    assert_eq!(find_boundary(b"GET / HTTP/1.1\r\nHost: x\r\n\r\n"), Some(23));
}

#[test]
fn no_boundary_in_partial_head() {
    assert_eq!(find_boundary(b"GET / HTTP/1.1\r\n"), None);
}

#[test]
fn marker_is_four_bytes() {
    assert_eq!(MARKER_LEN, 4);
}

#[test]
fn empty_buffer_has_no_boundary() {
    assert_eq!(find_boundary(b""), None);
}

#[test]
fn buffer_shorter_than_marker_has_no_boundary() {
    assert_eq!(find_boundary(b"\r\n\r"), None);
}

#[test]
fn bare_marker_is_found_at_zero() {
    assert_eq!(find_boundary(b"\r\n\r\n"), Some(0));
}

#[test]
fn first_of_two_markers_is_reported() {
    assert_eq!(find_boundary(b"a\r\n\r\nb\r\n\r\n"), Some(1));
}

#[test]
fn overlapping_line_ends_give_the_earliest_marker() {
    assert_eq!(find_boundary(b"x\r\n\r\n\r\n"), Some(1));
}

#[test]
fn near_misses_are_not_markers() {
    assert_eq!(find_boundary(b"\r\n\n\r\r\n \r\n"), None);
    assert_eq!(find_boundary(b"\n\r\n\r"), None);
    assert_eq!(find_boundary(b"\r\r\n\r\n"), Some(1));
}

#[test]
fn marker_after_binary_bytes() {
    let mut data: Vec<u8> = vec![0, 255, 13, 13, 10, 10];
    data.extend_from_slice(b"\r\n\r\n");
    assert_eq!(find_boundary(&data), Some(6));
}

#[test]
fn marker_that_spans_appends_is_found_once_complete() {
    let request: &[u8] = b"GET / HTTP/1.1\r\nHost: x\r\n\r\nrest";
    let mut buffer: Vec<u8> = Vec::new();
    for (i, byte) in request.iter().enumerate() {
        buffer.push(*byte);
        let have: usize = i + 1;
        if have < 27 {
            assert_eq!(find_boundary(&buffer), None);
        } else {
            assert_eq!(find_boundary(&buffer), Some(23));
        }
    }
}
