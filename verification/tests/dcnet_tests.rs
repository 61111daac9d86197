use phantom_core::dcnet::{DcNetParticipant, DcNetRoom};
use rand::Rng;

#[test]
fn test_dcnet_broadcast_roundtrip() {
    let msg_size = 16;
    let mut p1 = DcNetParticipant::new(1, msg_size);
    let mut p2 = DcNetParticipant::new(2, msg_size);
    let mut p3 = DcNetParticipant::new(3, msg_size);

    let mut rng = rand::thread_rng();
    let k12: Vec<u8> = (0..msg_size).map(|_| rng.gen()).collect();
    let k13: Vec<u8> = (0..msg_size).map(|_| rng.gen()).collect();
    let k23: Vec<u8> = (0..msg_size).map(|_| rng.gen()).collect();

    p1.add_shared_secret(2, k12.clone());
    p1.add_shared_secret(3, k13.clone());

    p2.add_shared_secret(1, k12.clone());
    p2.add_shared_secret(3, k23.clone());

    p3.add_shared_secret(1, k13.clone());
    p3.add_shared_secret(2, k23.clone());

    // Participant 2 broadcasts a message exactly one round wide.
    let secret_message = b"HELLOPROTOCOL_77";
    assert_eq!(secret_message.len(), msg_size);

    let c1 = p1.compute_contribution(None);
    let c2 = p2.compute_contribution(Some(secret_message));
    let c3 = p3.compute_contribution(None);

    let room = DcNetRoom::new(msg_size);
    let revealed = room.aggregate(&[c1, c2, c3]);

    assert_eq!(revealed, secret_message);
}

#[test]
fn test_dcnet_contribution_exact() {
    // With fixed secrets the contribution is the exact pointwise XOR.
    let mut p = DcNetParticipant::new(7, 4);
    p.add_shared_secret(1, vec![0x0f, 0xf0, 0xaa, 0x00]);
    p.add_shared_secret(2, vec![0x01, 0x10, 0xaa, 0xff]);

    let silent = p.compute_contribution(None);
    assert_eq!(silent, vec![0x0e, 0xe0, 0x00, 0xff]);

    let speaking = p.compute_contribution(Some(&[0xff, 0x00, 0x12, 0x34]));
    assert_eq!(speaking, vec![0xf1, 0xe0, 0x12, 0xcb]);
}

#[test]
fn test_dcnet_secret_replacement() {
    // Adding a secret for the same participant replaces the old one.
    let mut p = DcNetParticipant::new(1, 2);
    p.add_shared_secret(2, vec![0x11, 0x22]);
    p.add_shared_secret(2, vec![0xab, 0xcd]);
    let c = p.compute_contribution(None);
    assert_eq!(c, vec![0xab, 0xcd]);
}

#[test]
fn test_dcnet_aggregate_empty() {
    let room = DcNetRoom::new(3);
    assert_eq!(room.aggregate(&[]), vec![0, 0, 0]);
}
