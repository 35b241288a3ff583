use kcp_tunnel::chunk::{split_frames, MAX_FRAME_DATA_LEN};
use kcp_tunnel::relay::{Relay, RelayAction, RelayEvent, READ_BUF_LEN};

fn pattern(n: usize) -> Vec<u8> {
    (0..n).map(|i| (i % 251) as u8).collect()
}

#[test]
fn frame_limit_is_2048() {
    assert_eq!(MAX_FRAME_DATA_LEN, 2048);
    assert_eq!(READ_BUF_LEN, 65535);
}

#[test]
fn five_thousand_bytes_become_three_frames() {
    let data = pattern(5000);
    let frames = split_frames(&data, MAX_FRAME_DATA_LEN);
    assert_eq!(frames.len(), 3);
    assert_eq!(frames[0].len(), 2048);
    assert_eq!(frames[1].len(), 2048);
    assert_eq!(frames[2].len(), 904);
    assert!(frames.iter().all(|f| f.len() <= 2048));
    assert_eq!(frames.concat(), data);
}

#[test]
fn empty_data_gives_no_frames() {
    assert!(split_frames(&[], MAX_FRAME_DATA_LEN).is_empty());
}

#[test]
fn exact_frame_size_gives_one_frame() {
    let data = pattern(2048);
    let frames = split_frames(&data, MAX_FRAME_DATA_LEN);
    assert_eq!(frames, vec![data]);
}

#[test]
fn one_more_byte_gives_a_second_frame() {
    let data = pattern(2049);
    let frames = split_frames(&data, MAX_FRAME_DATA_LEN);
    assert_eq!(frames.len(), 2);
    assert_eq!(frames[1], vec![data[2048]]);
    assert_eq!(frames.concat(), data);
}

#[test]
fn small_frames_keep_order() {
    let frames = split_frames(&[1, 2, 3, 4, 5, 6, 7], 3);
    assert_eq!(frames, vec![vec![1, 2, 3], vec![4, 5, 6], vec![7]]);
}

#[test]
fn full_read_buffer_round_trips() {
    let data = pattern(READ_BUF_LEN);
    let frames = split_frames(&data, MAX_FRAME_DATA_LEN);
    assert_eq!(frames.len(), 32);
    assert_eq!(frames.concat(), data);
}

#[test]
fn relay_sends_tcp_reads_as_frames() {
    let mut relay = Relay::new();
    let data = pattern(5000);
    match relay.on_event(RelayEvent::TcpRead(data.clone())) {
        RelayAction::SendFrames(frames) => {
            assert!(frames.len() >= 3);
            assert!(frames.iter().all(|f| f.len() <= 2048));
            assert_eq!(frames.concat(), data);
        }
        _ => panic!("expected frames"),
    }
    assert!(relay.is_open());
}

#[test]
fn relay_round_trips_a_run_of_reads() {
    let mut relay = Relay::new();
    let reads = vec![pattern(10), pattern(4096), pattern(3000), pattern(1)];
    let mut sent: Vec<u8> = Vec::new();
    for r in &reads {
        match relay.on_event(RelayEvent::TcpRead(r.clone())) {
            RelayAction::SendFrames(frames) => {
                for f in frames {
                    sent.extend(f);
                }
            }
            _ => panic!("expected frames"),
        }
    }
    assert_eq!(sent, reads.concat());
}

#[test]
fn relay_writes_stream_messages() {
    let mut relay = Relay::new();
    match relay.on_event(RelayEvent::StreamMessage(Some(vec![9, 8, 7]))) {
        RelayAction::WriteAll(d) => assert_eq!(d, vec![9, 8, 7]),
        _ => panic!("expected a write"),
    }
    assert!(relay.is_open());
}

#[test]
fn tcp_eof_closes_and_nothing_follows() {
    let mut relay = Relay::new();
    assert!(matches!(relay.on_event(RelayEvent::TcpRead(Vec::new())), RelayAction::Close));
    assert!(!relay.is_open());
    assert!(matches!(relay.on_event(RelayEvent::TcpRead(pattern(100))), RelayAction::Close));
    assert!(matches!(
        relay.on_event(RelayEvent::StreamMessage(Some(vec![1]))),
        RelayAction::Close
    ));
}

#[test]
fn stream_fin_closes() {
    let mut relay = Relay::new();
    assert!(matches!(relay.on_event(RelayEvent::StreamMessage(None)), RelayAction::Close));
    assert!(!relay.is_open());
}

#[test]
fn failure_closes_only_that_relay() {
    let mut relays: Vec<Relay> = (0..4).map(|_| Relay::new()).collect();
    assert!(matches!(relays[2].on_event(RelayEvent::Failed), RelayAction::Close));
    for (i, r) in relays.iter_mut().enumerate() {
        assert_eq!(r.is_open(), i != 2);
        if i != 2 {
            match r.on_event(RelayEvent::TcpRead(vec![1, 2, 3])) {
                RelayAction::SendFrames(f) => assert_eq!(f, vec![vec![1, 2, 3]]),
                _ => panic!("expected frames"),
            }
        }
    }
}
