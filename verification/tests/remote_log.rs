use esp32_rust_c_hid_example::remote_log::{
    append_to_ring, init, rendered_len, InitActions, LogRing, LogTarget, RemoteLogState, LINE_BUF,
};

#[test]
fn new_ring_is_empty() {
    let r = LogRing::new(8);
    assert_eq!(r.capacity(), 8);
    assert_eq!(r.contents(), Vec::<u8>::new());
}

#[test]
fn ring_keeps_everything_while_it_fits() {
    let mut r = LogRing::new(8);
    append_to_ring(&mut r, b"abc");
    append_to_ring(&mut r, b"de");
    assert_eq!(r.contents(), b"abcde".to_vec());
}

#[test]
fn ring_drops_oldest_bytes_first() {
    let mut r = LogRing::new(8);
    append_to_ring(&mut r, b"abcdef");
    append_to_ring(&mut r, b"ghij");
    assert_eq!(r.contents(), b"cdefghij".to_vec());
}

#[test]
fn oversized_line_keeps_its_tail() {
    let mut r = LogRing::new(4);
    append_to_ring(&mut r, b"xy");
    append_to_ring(&mut r, b"0123456789");
    assert_eq!(r.contents(), b"6789".to_vec());
    let mut r = LogRing::new(4);
    append_to_ring(&mut r, b"abcd");
    assert_eq!(r.contents(), b"abcd".to_vec());
}

#[test]
fn zero_capacity_ring_holds_nothing() {
    let mut r = LogRing::new(0);
    append_to_ring(&mut r, b"hello");
    assert_eq!(r.contents(), Vec::<u8>::new());
}

#[test]
fn ring_holds_tail_of_whole_stream() {
    let lines: [&[u8]; 5] = [b"boot\n", b"wifi up\n", b"", b"udp 9000\n", b"ok\n"];
    let mut r = LogRing::new(10);
    let mut stream = Vec::new();
    for l in lines.iter() {
        append_to_ring(&mut r, l);
        stream.extend_from_slice(l);
    }
    let tail = stream[stream.len() - 10..].to_vec();
    assert_eq!(r.contents(), tail);
}

#[test]
fn rendered_len_clips_to_buffer() {
    assert_eq!(rendered_len(0), None);
    assert_eq!(rendered_len(-5), None);
    assert_eq!(rendered_len(42), Some(42));
    assert_eq!(rendered_len(511), Some(LINE_BUF - 1));
    assert_eq!(rendered_len(600), Some(511));
}

#[test]
fn first_init_starts_everything() {
    let mut s = RemoteLogState::new();
    let a = init(&mut s, LogTarget::TcpServer { port: 9001, buffer_bytes: 16 * 1024 });
    assert_eq!(
        a,
        InitActions { sink_capacity: 16 * 1024, install_hook: true, start_server_on: Some(9001) }
    );
    assert_eq!(s, RemoteLogState { hook_installed: true, server_port: Some(9001) });
}

#[test]
fn reinit_keeps_first_port_and_replaces_sink() {
    let mut s = RemoteLogState::new();
    init(&mut s, LogTarget::TcpServer { port: 9001, buffer_bytes: 1024 });
    let a = init(&mut s, LogTarget::TcpServer { port: 7777, buffer_bytes: 64 });
    assert_eq!(a, InitActions { sink_capacity: 64, install_hook: false, start_server_on: None });
    assert_eq!(s.server_port, Some(9001));
    assert!(s.hook_installed);
}
