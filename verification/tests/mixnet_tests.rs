use phantom_core::mixnet::{Disposition, MixnetDispatcher, QueueFull, TransportMode};
use phantom_core::sphinx::{BODY_SIZE, HEADER_SIZE, PACKET_SIZE};

const ZERO_KEY: [u8; 32] = [0u8; 32];

#[test]
fn test_batch_sizing_with_paranoia() {
    // batch_size = 5, paranoia on, 2 submitted packets: the batch holds
    // exactly 5 packets, the 2 real ones first, then 3 cover packets.
    let mut d = MixnetDispatcher::new(10, 500, 5, true, ZERO_KEY);
    d.submit(b"first".to_vec(), TransportMode::DirectOnion, 2).unwrap();
    d.submit(b"second".to_vec(), TransportMode::DirectOnion, 2).unwrap();

    let batch = d.assemble_batch();
    assert_eq!(batch.len(), 5);
    assert_eq!(batch[0].payload, b"first".to_vec());
    assert_eq!(batch[1].payload, b"second".to_vec());
    let cover: Vec<_> = batch[2..]
        .iter()
        .filter(|p| p.mode == TransportMode::MixnetParanoia)
        .collect();
    assert_eq!(cover.len(), 3);
}

#[test]
fn test_no_padding_when_disabled() {
    // Same setup with paranoia off: a batch of exactly 2, no error.
    let mut d = MixnetDispatcher::new(10, 500, 5, false, ZERO_KEY);
    d.submit(b"first".to_vec(), TransportMode::DirectOnion, 2).unwrap();
    d.submit(b"second".to_vec(), TransportMode::DirectOnion, 2).unwrap();

    let batch = d.assemble_batch();
    assert_eq!(batch.len(), 2);
    assert_eq!(batch[0].payload, b"first".to_vec());
    assert_eq!(batch[1].payload, b"second".to_vec());
}

#[test]
fn test_hop_countdown_three_cycles() {
    // A packet submitted with hops = 3 is reported Forward on the first
    // two cycles and Deliver on exactly the third.
    let mut d = MixnetDispatcher::new(10, 500, 5, false, ZERO_KEY);
    d.submit(b"travelling".to_vec(), TransportMode::DirectOnion, 3).unwrap();

    let mut dispositions = Vec::new();
    let mut remaining_hops = Vec::new();
    for _ in 0..3 {
        let out = d.run_cycle();
        assert_eq!(out.len(), 1);
        let (packet, disposition) = out.into_iter().next().unwrap();
        dispositions.push(disposition);
        remaining_hops.push(packet.hops);
        if disposition == Disposition::Forward {
            d.submit(packet.payload, TransportMode::DirectOnion, packet.hops)
                .unwrap();
        }
    }
    assert_eq!(
        dispositions,
        vec![Disposition::Forward, Disposition::Forward, Disposition::Deliver]
    );
    assert_eq!(remaining_hops, vec![2, 1, 0]);
}

#[test]
fn test_backpressure_queue_full() {
    // Submissions beyond the capacity fail with QueueFull without
    // corrupting what is already queued.
    let mut d = MixnetDispatcher::new(3, 500, 8, false, ZERO_KEY);
    assert!(d.submit(b"a".to_vec(), TransportMode::DirectOnion, 1).is_ok());
    assert!(d.submit(b"b".to_vec(), TransportMode::DirectOnion, 1).is_ok());
    assert!(d.submit(b"c".to_vec(), TransportMode::DirectOnion, 1).is_ok());
    assert_eq!(
        d.submit(b"overflow".to_vec(), TransportMode::DirectOnion, 1),
        Err(QueueFull)
    );

    let batch = d.assemble_batch();
    assert_eq!(batch.len(), 3);
    assert_eq!(batch[0].payload, b"a".to_vec());
    assert_eq!(batch[1].payload, b"b".to_vec());
    assert_eq!(batch[2].payload, b"c".to_vec());
}

#[test]
fn test_dummy_packet_shape() {
    let p = MixnetDispatcher::generate_dummy_packet();
    assert_eq!(p.mode, TransportMode::MixnetParanoia);
    assert_eq!(p.payload.len(), BODY_SIZE);
    assert_eq!(p.payload.len(), PACKET_SIZE - HEADER_SIZE);
    assert!((3..=6).contains(&p.hops));
    // Cryptographically random cover must not be a zero-filled body.
    assert!(p.payload.iter().any(|&b| b != 0));
}

#[test]
fn test_cover_traffic_never_crosses_boundary() {
    // Paranoia on with nothing queued: a full cover batch is processed,
    // yet nothing is handed to the relay-forwarding boundary.
    let mut d = MixnetDispatcher::new(10, 500, 4, true, ZERO_KEY);
    let out = d.run_cycle();
    assert!(out.is_empty());
}

#[test]
fn test_drain_preserves_arrival_order() {
    let mut d = MixnetDispatcher::new(10, 500, 2, false, ZERO_KEY);
    for name in [b"one".to_vec(), b"two".to_vec(), b"three".to_vec()] {
        d.submit(name, TransportMode::DirectOnion, 5).unwrap();
    }
    let first = d.run_cycle();
    assert_eq!(first.len(), 2);
    assert_eq!(first[0].0.payload, b"one".to_vec());
    assert_eq!(first[0].0.hops, 4);
    assert_eq!(first[1].0.payload, b"two".to_vec());
    let second = d.run_cycle();
    assert_eq!(second.len(), 1);
    assert_eq!(second[0].0.payload, b"three".to_vec());
    let third = d.run_cycle();
    assert!(third.is_empty());
}

#[test]
fn test_terminal_packet_delivered_untouched() {
    // A packet submitted with no hops left is delivered as it is.
    let mut d = MixnetDispatcher::new(10, 500, 5, false, ZERO_KEY);
    d.submit(b"done".to_vec(), TransportMode::DirectOnion, 0).unwrap();
    let out = d.run_cycle();
    assert_eq!(out.len(), 1);
    assert_eq!(out[0].1, Disposition::Deliver);
    assert_eq!(out[0].0.payload, b"done".to_vec());
    assert_eq!(out[0].0.hops, 0);
}
