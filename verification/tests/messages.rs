use nusb::io::ExpectedShortPacket;
use nusb::transfer::TransferError;
use raw_nusb::wire::{NusbWireRx, NusbWireRxError, NusbWireTx, NusbWireTxError, RxReply};
use std::io::{Error, ErrorKind};

#[test]
fn a_message_is_written_then_flushed() {
    let sending = NusbWireTx::send(vec![1, 2, 3]);
    match &sending {
        NusbWireTx::WriteAll(data) => assert_eq!(*data, vec![1, 2, 3]),
        other => panic!("{other:?}"),
    }
    let sending = sending.send_inner(Ok(()));
    assert!(matches!(sending, NusbWireTx::FlushEnd));
    let sending = sending.send_inner(Ok(()));
    assert!(matches!(sending, NusbWireTx::Finished(Ok(()))));
}

#[test]
fn a_failed_write_is_not_flushed() {
    let sending = NusbWireTx::send(vec![1]).send_inner(Err(Error::from(ErrorKind::BrokenPipe)));
    match sending {
        NusbWireTx::Finished(Err(NusbWireTxError::Io(error))) => {
            assert_eq!(error.kind(), ErrorKind::BrokenPipe)
        }
        other => panic!("{other:?}"),
    }
}

#[test]
fn a_failed_flush_is_told() {
    let sending = NusbWireTx::send(vec![1])
        .send_inner(Ok(()))
        .send_inner(Err(Error::from(ErrorKind::TimedOut)));
    match sending {
        NusbWireTx::Finished(Err(NusbWireTxError::Io(error))) => {
            assert_eq!(error.kind(), ErrorKind::TimedOut)
        }
        other => panic!("{other:?}"),
    }
}

#[test]
fn a_sent_message_stays_sent() {
    let sending = NusbWireTx::send(vec![])
        .send_inner(Ok(()))
        .send_inner(Ok(()))
        .send_inner(Err(Error::from(ErrorKind::TimedOut)));
    assert!(matches!(sending, NusbWireTx::Finished(Ok(()))));
}

#[test]
fn a_message_is_what_was_read() {
    let receiving = NusbWireRx::receive();
    assert!(matches!(receiving, NusbWireRx::ReadToEnd));
    let receiving = receiving.recv_inner(RxReply::Read(Ok(vec![4, 5])));
    assert!(matches!(receiving, NusbWireRx::ConsumeEnd(_)));
    match receiving.recv_inner(RxReply::Consumed(Ok(()))) {
        NusbWireRx::Finished(Ok(message)) => assert_eq!(message, vec![4, 5]),
        other => panic!("{other:?}"),
    }
}

#[test]
fn a_failed_read_is_told() {
    let reply = RxReply::Read(Err(Error::from(ErrorKind::UnexpectedEof)));
    match NusbWireRx::receive().recv_inner(reply) {
        NusbWireRx::Finished(Err(NusbWireRxError::IO(error))) => {
            assert_eq!(error.kind(), ErrorKind::UnexpectedEof)
        }
        other => panic!("{other:?}"),
    }
}

#[test]
fn a_missing_short_packet_is_told() {
    let receiving = NusbWireRx::receive()
        .recv_inner(RxReply::Read(Ok(vec![4, 5])))
        .recv_inner(RxReply::Consumed(Err(ExpectedShortPacket)));
    assert!(matches!(
        receiving,
        NusbWireRx::Finished(Err(NusbWireRxError::ExpectedShortPacket(_)))
    ));
}

#[test]
fn replies_out_of_turn_change_nothing() {
    let receiving = NusbWireRx::receive().recv_inner(RxReply::Consumed(Ok(())));
    assert!(matches!(receiving, NusbWireRx::ReadToEnd));
    let receiving = receiving
        .recv_inner(RxReply::Read(Ok(vec![1])))
        .recv_inner(RxReply::Read(Ok(vec![2])))
        .recv_inner(RxReply::Consumed(Ok(())))
        .recv_inner(RxReply::Consumed(Err(ExpectedShortPacket)));
    match receiving {
        NusbWireRx::Finished(Ok(message)) => assert_eq!(message, vec![1]),
        other => panic!("{other:?}"),
    }
}

#[test]
fn errors_of_sending_in_words() {
    let transfer = NusbWireTxError::from(TransferError::Stall);
    assert!(matches!(
        transfer,
        NusbWireTxError::Transfer(TransferError::Stall)
    ));
    assert_eq!(transfer.message(), "Transfer Error on Send");
    let io = NusbWireTxError::from(Error::from(ErrorKind::Other));
    assert!(matches!(io, NusbWireTxError::Io(_)));
    assert_eq!(io.message(), "I/O Error on Send");
}

#[test]
fn errors_of_receiving_in_words() {
    let transfer = NusbWireRxError::from(TransferError::Cancelled);
    assert!(matches!(
        transfer,
        NusbWireRxError::Transfer(TransferError::Cancelled)
    ));
    assert_eq!(transfer.message(), "Transfer Error on Recv");
    let io = NusbWireRxError::from(Error::from(ErrorKind::Other));
    assert!(matches!(io, NusbWireRxError::IO(_)));
    assert_eq!(io.message(), "I/O Error on Recv");
    let short = NusbWireRxError::from(ExpectedShortPacket);
    assert!(matches!(short, NusbWireRxError::ExpectedShortPacket(_)));
    assert_eq!(short.message(), "Short Packet Error From nusb");
}

const PACKET_SIZE: usize = 4;
const TRANSFER_SIZE: usize = 8;

/// The packets on a bus between a writer and a reader.
struct Bus {
    buffered: Vec<u8>,
    packets: Vec<Vec<u8>>,
    read: usize,
    at_end: bool,
}

impl Bus {
    fn new() -> Bus {
        Bus { buffered: vec![], packets: vec![], read: 0, at_end: false }
    }

    fn submit(&mut self) {
        if self.buffered.is_empty() {
            self.packets.push(vec![]);
        }
        for packet in self.buffered.chunks(PACKET_SIZE) {
            self.packets.push(packet.to_vec());
        }
        self.buffered.clear();
    }

    fn send(&mut self, data: &[u8]) {
        let mut sending = NusbWireTx::send(data.to_vec());
        loop {
            match &sending {
                NusbWireTx::WriteAll(data) => {
                    for byte in data {
                        self.buffered.push(*byte);
                        if self.buffered.len() == TRANSFER_SIZE {
                            self.submit();
                        }
                    }
                }
                NusbWireTx::FlushEnd => {
                    let len = self.buffered.len();
                    self.submit();
                    if len > 0 && len % PACKET_SIZE == 0 {
                        self.submit();
                    }
                }
                NusbWireTx::Finished(outcome) => {
                    assert!(outcome.is_ok());
                    return;
                }
            }
            sending = sending.send_inner(Ok(()));
        }
    }

    fn receive(&mut self) -> Vec<u8> {
        let mut receiving = NusbWireRx::receive();
        loop {
            let reply = match receiving {
                NusbWireRx::ReadToEnd => {
                    let mut bytes = vec![];
                    while !self.at_end {
                        let packet = &self.packets[self.read];
                        bytes.extend_from_slice(packet);
                        self.at_end = packet.len() < PACKET_SIZE;
                        self.read += 1;
                    }
                    RxReply::Read(Ok(bytes))
                }
                NusbWireRx::ConsumeEnd(_) => {
                    assert!(self.at_end);
                    self.at_end = false;
                    RxReply::Consumed(Ok(()))
                }
                NusbWireRx::Finished(outcome) => return outcome.unwrap(),
            };
            receiving = receiving.recv_inner(reply);
        }
    }
}

#[test]
fn what_was_sent_is_received() {
    for len in 0..30u8 {
        let message: Vec<u8> = (0..len).collect();
        let mut bus = Bus::new();
        bus.send(&message);
        assert!(bus.buffered.is_empty());
        assert_eq!(bus.packets.len(), len as usize / PACKET_SIZE + 1);
        assert_eq!(bus.receive(), message);
        assert_eq!(bus.read, bus.packets.len());
    }
}

#[test]
fn two_sent_messages_stay_apart() {
    let mut bus = Bus::new();
    bus.send(&[1, 2, 3, 4]);
    bus.send(&[5, 6, 7, 8, 9]);
    assert_eq!(
        bus.packets,
        vec![vec![1, 2, 3, 4], vec![], vec![5, 6, 7, 8], vec![9]]
    );
}

#[test]
fn messages_are_received_one_per_call_in_order() {
    let messages: Vec<Vec<u8>> = vec![
        vec![1],
        vec![2; 4],
        vec![3; 8],
        vec![],
        vec![4; 17],
        vec![5, 6],
    ];
    let mut bus = Bus::new();
    for message in &messages {
        bus.send(message);
    }
    for message in &messages {
        assert_eq!(bus.receive(), *message);
    }
    assert_eq!(bus.read, bus.packets.len());
}
