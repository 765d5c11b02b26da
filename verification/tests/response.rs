use reactor::response::{build_response, push_decimal};

fn announced_length(reply: &[u8]) -> usize {
    let head: &[u8] = b"HTTP/1.1 200 OK\r\nConnection: close\r\nContent-Length: ";
    assert!(reply.starts_with(head));
    let mut value: usize = 0;
    let mut at: usize = head.len();
    while reply[at] != b'\r' {
        assert!(reply[at].is_ascii_digit());
        value = value * 10 + usize::from(reply[at] - b'0');
        at += 1;
    }
    assert_eq!(&reply[at..at + 4], b"\r\n\r\n");
    assert_eq!(reply.len() - (at + 4), value);
    value
}

#[test]
fn hello_world_reply_is_exact() {
    let reply = build_response(b"Hello, World!");
    assert_eq!(
        reply,
        b"HTTP/1.1 200 OK\r\nConnection: close\r\nContent-Length: 13\r\n\r\nHello, World!".to_vec()
    );
}

#[test]
fn empty_body_announces_zero() {
    let reply = build_response(b"");
    assert_eq!(
        reply,
        b"HTTP/1.1 200 OK\r\nConnection: close\r\nContent-Length: 0\r\n\r\n".to_vec()
    );
}

#[test]
fn one_byte_body() {
    let reply = build_response(b"x");
    assert_eq!(
        reply,
        b"HTTP/1.1 200 OK\r\nConnection: close\r\nContent-Length: 1\r\n\r\nx".to_vec()
    );
}

#[test]
fn body_may_hold_the_marker_and_any_byte() {
    let body: Vec<u8> = vec![0, 13, 10, 13, 10, 255];
    let reply = build_response(&body);
    let mut expected: Vec<u8> =
        b"HTTP/1.1 200 OK\r\nConnection: close\r\nContent-Length: 6\r\n\r\n".to_vec();
    expected.extend_from_slice(&body);
    assert_eq!(reply, expected);
}

#[test]
fn announced_length_is_the_body_length() {
    let lengths: [usize; 12] = [0, 1, 9, 10, 11, 13, 99, 100, 101, 999, 1000, 65_537];
    for len in lengths {
        let body: Vec<u8> = vec![b'a'; len];
        let reply = build_response(&body);
        assert_eq!(announced_length(&reply), len);
        assert!(reply.ends_with(&body));
    }
}

#[test]
fn decimal_of_small_and_large_numbers() {
    let cases: [(usize, &str); 8] = [
        (0, "0"),
        (7, "7"),
        (9, "9"),
        (10, "10"),
        (13, "13"),
        (100, "100"),
        (1024, "1024"),
        (4_294_967_295, "4294967295"),
    ];
    for (n, text) in cases {
        let mut out: Vec<u8> = Vec::new();
        push_decimal(&mut out, n);
        assert_eq!(out, text.as_bytes().to_vec());
    }
}

#[test]
fn decimal_of_the_largest_length() {
    let mut out: Vec<u8> = Vec::new();
    push_decimal(&mut out, usize::MAX);
    assert_eq!(out, format!("{}", usize::MAX).into_bytes());
}

#[test]
fn decimal_is_appended_after_what_is_there() {
    let mut out: Vec<u8> = b"n=".to_vec();
    push_decimal(&mut out, 250);
    assert_eq!(out, b"n=250".to_vec());
}
