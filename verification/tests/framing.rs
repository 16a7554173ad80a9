use weak_peer::conn::frame::encode_len;
use weak_peer::conn::receiver::{ReadEvent, Receiver, RecvError, RecvStep};
use weak_peer::conn::sender::Sender;

fn payload_of(len: usize) -> Vec<u8> {
    (0..len).map(|i| (i * 31 + 7) as u8).collect()
}

fn receive(receiver: &mut Receiver, reads: Vec<ReadEvent>) -> RecvStep {
    let mut step = receiver.recv();
    for read in reads {
        assert_eq!(step, RecvStep::NeedRead);
        step = receiver.on_read(read);
    }
    step
}

#[test]
fn encode_len_is_big_endian() {
    assert_eq!(encode_len(0), [0, 0, 0, 0]);
    assert_eq!(encode_len(1), [0, 0, 0, 1]);
    assert_eq!(encode_len(0x0102_0304), [1, 2, 3, 4]);
    assert_eq!(encode_len(0x0809_A0A1), [0x08, 0x09, 0xA0, 0xA1]);
    assert_eq!(encode_len(u32::MAX), [255, 255, 255, 255]);
}

#[test]
fn send_writes_prefix_then_payload() {
    let mut sender = Sender::from();
    assert_eq!(sender.send(&[]), vec![0, 0, 0, 0]);
    assert_eq!(sender.send(&[0xAB]), vec![0, 0, 0, 1, 0xAB]);
    assert_eq!(sender.send(b"hello"), vec![0, 0, 0, 5, b'h', b'e', b'l', b'l', b'o']);
    let wire = sender.send(&payload_of(0x0001_0203));
    assert_eq!(wire.len(), 4 + 0x0001_0203);
    assert_eq!(&wire[0..4], &[0, 1, 2, 3]);
    assert_eq!(&wire[4..], &payload_of(0x0001_0203)[..]);
}

#[test]
fn round_trip_returns_the_payload() {
    for len in [0usize, 1, 3, 4, 5, 255, 256, 1024, 65536, 70000] {
        let payload = payload_of(len);
        let wire = Sender::from().send(&payload);
        let mut receiver = Receiver::from();
        let step = receive(&mut receiver, vec![ReadEvent::Bytes(wire)]);
        assert_eq!(step, RecvStep::Frame(payload));
        assert_eq!(receiver.buffered_len(), 0);
    }
}

#[test]
fn frame_split_byte_by_byte_is_rebuilt() {
    let payload = payload_of(9);
    let wire = Sender::from().send(&payload);
    let mut receiver = Receiver::from();
    let mut step = receiver.recv();
    for (i, byte) in wire.iter().enumerate() {
        assert_eq!(step, RecvStep::NeedRead);
        step = receiver.on_read(ReadEvent::Bytes(vec![*byte]));
        if i + 1 < wire.len() {
            assert_eq!(step, RecvStep::NeedRead);
        }
    }
    assert_eq!(step, RecvStep::Frame(payload));
    assert_eq!(receiver.buffered_len(), 0);
}

#[test]
fn frame_split_inside_the_prefix_is_rebuilt() {
    let payload = payload_of(300);
    let wire = Sender::from().send(&payload);
    for cut in 1..4 {
        let mut receiver = Receiver::from();
        let step = receive(
            &mut receiver,
            vec![
                ReadEvent::Bytes(wire[..cut].to_vec()),
                ReadEvent::WouldBlock,
                ReadEvent::Bytes(wire[cut..].to_vec()),
            ],
        );
        assert_eq!(step, RecvStep::Frame(payload.clone()));
    }
}

#[test]
fn frame_split_between_prefix_and_body_is_rebuilt() {
    let payload = payload_of(17);
    let wire = Sender::from().send(&payload);
    let mut receiver = Receiver::from();
    let mut step = receiver.recv();
    assert_eq!(step, RecvStep::NeedRead);
    step = receiver.on_read(ReadEvent::Bytes(wire[..4].to_vec()));
    assert_eq!(step, RecvStep::NeedRead);
    assert_eq!(receiver.buffered_len(), 0);
    step = receiver.on_read(ReadEvent::Bytes(wire[4..10].to_vec()));
    assert_eq!(step, RecvStep::NeedRead);
    assert_eq!(receiver.buffered_len(), 6);
    step = receiver.on_read(ReadEvent::Bytes(wire[10..].to_vec()));
    assert_eq!(step, RecvStep::Frame(payload));
}

#[test]
fn two_frames_in_one_read_come_out_in_order() {
    let first = payload_of(5);
    let second = vec![0xEE; 3];
    let mut wire = Sender::from().send(&first);
    wire.extend(Sender::from().send(&second));
    let mut receiver = Receiver::from();
    let step = receive(&mut receiver, vec![ReadEvent::Bytes(wire)]);
    assert_eq!(step, RecvStep::Frame(first));
    assert_eq!(receiver.buffered_len(), 4 + 3);
    let third = Sender::from().send(&[1, 2]);
    let step = receive(&mut receiver, vec![ReadEvent::Bytes(third.clone())]);
    assert_eq!(step, RecvStep::Frame(second));
    assert_eq!(receiver.buffered_len(), third.len());
    let step = receive(&mut receiver, vec![ReadEvent::Bytes(vec![0])]);
    assert_eq!(step, RecvStep::Frame(vec![1, 2]));
    assert_eq!(receiver.buffered_len(), 1);
}

#[test]
fn buffered_frame_waits_for_the_next_read() {
    let mut wire = Sender::from().send(&[1]);
    wire.extend(Sender::from().send(&[2]));
    let mut receiver = Receiver::from();
    assert_eq!(receive(&mut receiver, vec![ReadEvent::Bytes(wire)]), RecvStep::Frame(vec![1]));
    let step = receive(&mut receiver, vec![ReadEvent::WouldBlock]);
    assert_eq!(step, RecvStep::NeedRead);
    let step = receiver.on_read(ReadEvent::Bytes(Vec::new()));
    assert_eq!(step, RecvStep::Failed(RecvError::Malformed));
    assert_eq!(receiver.buffered_len(), 5);
}

#[test]
fn end_of_stream_with_nothing_buffered_is_a_clean_close() {
    let mut receiver = Receiver::from();
    let step = receive(&mut receiver, vec![ReadEvent::Bytes(Vec::new())]);
    assert_eq!(step, RecvStep::Closed);
    let wire = Sender::from().send(&[4, 5, 6]);
    let mut receiver = Receiver::from();
    assert_eq!(
        receive(&mut receiver, vec![ReadEvent::Bytes(wire)]),
        RecvStep::Frame(vec![4, 5, 6])
    );
    assert_eq!(receive(&mut receiver, vec![ReadEvent::Bytes(Vec::new())]), RecvStep::Closed);
}

#[test]
fn end_of_stream_inside_a_frame_is_malformed() {
    let wire = Sender::from().send(&[4, 5, 6]);
    for cut in [1usize, 3, 5, 6] {
        let mut receiver = Receiver::from();
        let step = receive(
            &mut receiver,
            vec![ReadEvent::Bytes(wire[..cut].to_vec()), ReadEvent::Bytes(Vec::new())],
        );
        assert_eq!(step, RecvStep::Failed(RecvError::Malformed));
    }
}

#[test]
fn end_of_stream_right_after_the_prefix_is_a_clean_close() {
    let mut receiver = Receiver::from();
    let step = receive(
        &mut receiver,
        vec![ReadEvent::Bytes(vec![0, 0, 0, 5]), ReadEvent::Bytes(Vec::new())],
    );
    assert_eq!(step, RecvStep::Closed);
}

#[test]
fn failed_read_fails_the_receive() {
    let mut receiver = Receiver::from();
    let step = receive(&mut receiver, vec![ReadEvent::Bytes(vec![0, 0]), ReadEvent::Failed]);
    assert_eq!(step, RecvStep::Failed(RecvError::Io));
    assert_eq!(receiver.buffered_len(), 2);
}

#[test]
fn receive_stalls_after_its_reads_are_used_up() {
    let mut receiver = Receiver::from();
    let mut step = receiver.recv();
    for _ in 0..1000 {
        assert_eq!(step, RecvStep::NeedRead);
        step = receiver.on_read(ReadEvent::WouldBlock);
    }
    assert_eq!(step, RecvStep::NeedRead);
    step = receiver.on_read(ReadEvent::WouldBlock);
    assert_eq!(step, RecvStep::Failed(RecvError::Stalled));
}

#[test]
fn last_read_of_a_receive_can_still_complete_the_frame() {
    let wire = Sender::from().send(&[9, 9]);
    let mut receiver = Receiver::from();
    let mut step = receiver.recv();
    for _ in 0..1000 {
        step = receiver.on_read(ReadEvent::WouldBlock);
    }
    assert_eq!(step, RecvStep::NeedRead);
    step = receiver.on_read(ReadEvent::Bytes(wire));
    assert_eq!(step, RecvStep::Frame(vec![9, 9]));
}

#[test]
fn each_receive_has_its_own_reads() {
    let mut receiver = Receiver::from();
    let mut step = receiver.recv();
    for _ in 0..1001 {
        step = receiver.on_read(ReadEvent::WouldBlock);
    }
    assert_eq!(step, RecvStep::Failed(RecvError::Stalled));
    let wire = Sender::from().send(&[3]);
    assert_eq!(receive(&mut receiver, vec![ReadEvent::Bytes(wire)]), RecvStep::Frame(vec![3]));
}

#[test]
fn try_on_read_does_what_on_read_does() {
    let payload = payload_of(40);
    let wire = Sender::from().send(&payload);
    let mut receiver = Receiver::from();
    assert_eq!(receiver.recv(), RecvStep::NeedRead);
    assert_eq!(
        receiver.try_on_read(ReadEvent::Bytes(wire[..20].to_vec())),
        Some(RecvStep::NeedRead)
    );
    assert_eq!(receiver.try_on_read(ReadEvent::WouldBlock), Some(RecvStep::NeedRead));
    assert_eq!(
        receiver.try_on_read(ReadEvent::Bytes(wire[20..].to_vec())),
        Some(RecvStep::Frame(payload))
    );
    assert_eq!(receiver.recv(), RecvStep::NeedRead);
    assert_eq!(receiver.try_on_read(ReadEvent::Bytes(Vec::new())), Some(RecvStep::Closed));
}

#[test]
fn empty_frames_are_frames() {
    let mut wire = Sender::from().send(&[]);
    wire.extend(Sender::from().send(&[]));
    wire.extend(Sender::from().send(&[7]));
    let mut receiver = Receiver::from();
    assert_eq!(
        receive(&mut receiver, vec![ReadEvent::Bytes(wire)]),
        RecvStep::Frame(Vec::new())
    );
    assert_eq!(receiver.buffered_len(), 9);
    assert_eq!(
        receive(&mut receiver, vec![ReadEvent::Bytes(vec![0, 0])]),
        RecvStep::Frame(Vec::new())
    );
    assert_eq!(receiver.buffered_len(), 7);
}

#[test]
fn prefix_is_read_most_significant_byte_first() {
    let mut receiver = Receiver::from();
    let mut bytes = vec![0, 0, 1, 2];
    bytes.extend(payload_of(0x0102));
    bytes.push(0xFF);
    let step = receive(&mut receiver, vec![ReadEvent::Bytes(bytes)]);
    assert_eq!(step, RecvStep::Frame(payload_of(0x0102)));
    assert_eq!(receiver.buffered_len(), 1);
}

#[test]
fn try_send_frames_what_fits() {
    let mut sender = Sender::from();
    assert_eq!(sender.try_send(&[]), Some(vec![0, 0, 0, 0]));
    assert_eq!(sender.try_send(&[5, 6]), Some(vec![0, 0, 0, 2, 5, 6]));
    let payload = payload_of(300);
    assert_eq!(sender.try_send(&payload), Some(sender.send(&payload)));
}
