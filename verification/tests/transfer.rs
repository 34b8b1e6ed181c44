use tftp::packet::{Packet, TftpError};
use tftp::server::{sequence_error_packet, Request, Server};
use tftp::transfer::{
    check_request_ack, exchange, transferred_size, Receiver, Sender,
};

/// Drives one whole transfer, passing every packet through the codec as
/// the wire would; hands back the received content, the block numbers in
/// send order, and the payload length of each block.
fn run_transfer(data: Vec<u8>) -> (Vec<u8>, Vec<u16>, Vec<usize>) {
    let mut snd = Sender::new(data);
    let mut rcv = Receiver::new();
    let mut blocks: Vec<u16> = Vec::new();
    let mut sizes: Vec<usize> = Vec::new();
    loop {
        let wire = snd.current_packet().encode();
        let (b, payload) = match Packet::decode(&wire, wire.len()).unwrap() {
            Packet::Data(b, d) => (b, d),
            _ => panic!("expected a data packet"),
        };
        blocks.push(b);
        sizes.push(payload.len());
        let ack_wire = rcv.on_data(b, payload).unwrap().encode();
        let ab = match Packet::decode(&ack_wire, ack_wire.len()).unwrap() {
            Packet::Ack(ab) => ab,
            _ => panic!("expected an acknowledgement"),
        };
        if snd.on_ack(ab).unwrap() {
            break;
        }
    }
    assert!(rcv.done);
    assert!(snd.done);
    (rcv.buf, blocks, sizes)
}

fn sample(n: usize) -> Vec<u8> {
    let mut v = Vec::with_capacity(n);
    for i in 0..n {
        v.push((i % 251) as u8);
    }
    v
}

#[test]
fn test_upload_two_full_blocks_and_tail() {
    // A 1026-byte content: two full blocks plus one 2-byte block.
    let data = sample(1026);
    let (stored, blocks, sizes) = run_transfer(data.clone());
    assert_eq!(stored, data);
    assert_eq!(blocks, vec![1, 2, 3]);
    assert_eq!(sizes, vec![512, 512, 2]);
}

#[test]
fn test_download_matches_stored_bytes() {
    let stored = sample(700);
    let (fetched, blocks, sizes) = run_transfer(stored.clone());
    assert_eq!(fetched, stored);
    assert_eq!(blocks, vec![1, 2]);
    assert_eq!(sizes, vec![512, 188]);
}

#[test]
fn test_upload_then_download_same_name() {
    let original = sample(1026);
    let (stored, _, _) = run_transfer(original.clone());
    let (fetched, _, _) = run_transfer(stored.clone());
    assert_eq!(original, stored);
    assert_eq!(stored, fetched);
    assert_eq!(original, fetched);
}

#[test]
fn test_termination_on_exact_multiple() {
    // An exact multiple of the block size ends with an extra empty block.
    let data = sample(1024);
    let (stored, blocks, sizes) = run_transfer(data.clone());
    assert_eq!(stored, data);
    assert_eq!(blocks, vec![1, 2, 3]);
    assert_eq!(sizes, vec![512, 512, 0]);
}

#[test]
fn test_termination_on_empty_content() {
    let (stored, blocks, sizes) = run_transfer(Vec::new());
    assert_eq!(stored, Vec::<u8>::new());
    assert_eq!(blocks, vec![1]);
    assert_eq!(sizes, vec![0]);
}

#[test]
fn test_exchange_delivers_content() {
    let data = sample(2000);
    assert_eq!(exchange(data.clone()), data);
}

#[test]
fn test_sequencing_is_strict() {
    // Block numbers of a successful transfer are exactly 1, 2, 3, ...
    let (_, blocks, _) = run_transfer(sample(1537));
    let expected: Vec<u16> = (1..=4).collect();
    assert_eq!(blocks, expected);

    // A receiver refuses any block number other than the expected one.
    let mut rcv = Receiver::new();
    assert_eq!(rcv.on_data(2, vec![1, 2, 3]), Err(TftpError::Sequence));
    assert_eq!(rcv.on_data(0, vec![1, 2, 3]), Err(TftpError::Sequence));
    assert_eq!(rcv.blk, 1);
    assert_eq!(rcv.buf, Vec::<u8>::new());

    // A sender refuses any acknowledgement but the block just sent.
    let mut snd = Sender::new(sample(10));
    assert_eq!(snd.on_ack(0), Err(TftpError::Sequence));
    assert_eq!(snd.on_ack(2), Err(TftpError::Sequence));
    assert_eq!(snd.blk, 1);
    assert!(!snd.done);
}

#[test]
fn test_request_ack_check() {
    assert_eq!(check_request_ack(&Packet::newack(0)), Ok(()));
    assert_eq!(check_request_ack(&Packet::newack(1)), Err(TftpError::Sequence));
    assert_eq!(
        check_request_ack(&Packet::newdat(0, Vec::new())),
        Err(TftpError::Framing)
    );
    assert_eq!(
        check_request_ack(&Packet::newerr(0, b"denied".to_vec())),
        Err(TftpError::Framing)
    );
}

#[test]
fn test_transferred_size_formula() {
    assert_eq!(transferred_size(3, 2), 1026);
    assert_eq!(transferred_size(3, 0), 1024);
    assert_eq!(transferred_size(1, 0), 0);
    assert_eq!(transferred_size(2, 512), 1024);
}

#[test]
fn test_sequence_error_packet_layout() {
    let wire = sequence_error_packet().encode();
    let mut expected: Vec<u8> = vec![0, 5, 0, 0];
    expected.extend(b"blk != klb".iter().copied());
    expected.push(0);
    assert_eq!(wire, expected);
}

#[test]
fn test_server_dispatch() {
    let server = Server::new(false);
    let up = server.dispatch(Packet::newrrq(b"a.txt".to_vec(), b"octet".to_vec()));
    assert!(matches!(up, Some(Request::Upload(f)) if f == b"a.txt".to_vec()));
    let down = server.dispatch(Packet::newwrq(b"b.txt".to_vec(), b"octet".to_vec()));
    assert!(matches!(down, Some(Request::Download(f)) if f == b"b.txt".to_vec()));
    assert!(server.dispatch(Packet::newack(0)).is_none());
    assert!(server.dispatch(Packet::newdat(1, Vec::new())).is_none());
    assert!(server.dispatch(Packet::newerr(0, Vec::new())).is_none());
}

#[test]
fn test_server_survives_failed_transfer() {
    let server = Server::new(false);

    // One accepted write request whose transfer dies on a sequence error.
    let req = server.dispatch(Packet::newwrq(b"x.bin".to_vec(), b"octet".to_vec()));
    assert!(matches!(req, Some(Request::Download(_))));
    let mut rcv = Receiver::new();
    let outcome = rcv.on_data(9, vec![1, 2, 3]);
    assert_eq!(outcome, Err(TftpError::Sequence));
    // The handler reports the failure and sends the error packet ...
    let wire = sequence_error_packet().encode();
    assert!(Packet::decode(&wire, wire.len()).is_ok());

    // ... and the listen loop goes on: the next request is accepted and
    // its transfer completes in full.
    let req = server.dispatch(Packet::newrrq(b"y.bin".to_vec(), b"octet".to_vec()));
    assert!(matches!(req, Some(Request::Upload(_))));
    let data = sample(513);
    let (stored, blocks, _) = run_transfer(data.clone());
    assert_eq!(stored, data);
    assert_eq!(blocks, vec![1, 2]);
}

#[test]
fn test_block_number_space_exhaustion_refused() {
    let mut rcv = Receiver::new();
    rcv.blk = u16::MAX;
    rcv.buf = vec![0u8; (u16::MAX as usize - 1) * 512];
    // A full payload at the last representable block cannot continue.
    assert_eq!(rcv.on_data(u16::MAX, vec![7u8; 512]), Err(TftpError::Sequence));
    // A short payload at the last representable block finishes cleanly.
    let ack = rcv.on_data(u16::MAX, vec![7u8; 3]).unwrap();
    assert_eq!(ack, Packet::newack(u16::MAX));
    assert!(rcv.done);
}
