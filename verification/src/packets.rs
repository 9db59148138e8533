//! What messages are on the bus.
//!
//! A bulk endpoint carries packets of up to its packet size. A packet below this
//! size, which may be empty, ends a message. The writer and the reader of an
//! endpoint are modelled by what they do with packets; the laws say what becomes
//! of messages that are sent and received through them.
use vstd::prelude::*;

#[allow(unused_imports)]
use vstd::pervasive::arbitrary;

use crate::link::TransferQueue;
#[allow(unused_imports)]
use crate::link::queue_on;
#[allow(unused_imports)]
use crate::wire::{RxReplyView, RxView, TxView};

verus! {

/// The packets of one transfer.
pub open spec fn transfer_packets(bytes: Seq<u8>, packet_size: int) -> Seq<Seq<u8>>
    decreases bytes.len(),
{
    if packet_size <= 0 || bytes.len() <= packet_size {
        seq![bytes]
    } else {
        seq![bytes.take(packet_size)] + transfer_packets(bytes.skip(packet_size), packet_size)
    }
}

/// The packets of one message: full ones, and one below the packet size at the
/// end.
pub open spec fn message_packets(message: Seq<u8>, packet_size: int) -> Seq<Seq<u8>>
    decreases message.len(),
{
    if packet_size <= 0 || message.len() < packet_size {
        seq![message]
    } else {
        seq![message.take(packet_size)] + message_packets(message.skip(packet_size), packet_size)
    }
}

/// Packets that make up one message.
pub open spec fn is_message(packets: Seq<Seq<u8>>, packet_size: int) -> bool {
    &&& packets.len() > 0
    &&& packets.last().len() < packet_size
    &&& forall|i: int|
        0 <= i < packets.len() - 1 ==> (#[trigger] packets[i]).len() == packet_size
}

/// The writer of an endpoint towards the device.
pub ghost struct Writer {
    pub packet_size: int,
    /// How many bytes are gathered before they are sent in one transfer.
    pub transfer_size: int,
    /// What was written and not sent yet.
    pub buffered: Seq<u8>,
    /// The packets that were sent.
    pub packets: Seq<Seq<u8>>,
}

impl Writer {
    /// The writer of an endpoint that was just opened: the size of its transfers
    /// is rounded up to whole packets.
    pub open spec fn opened(packet_size: int, queue: TransferQueue) -> Writer {
        Writer {
            packet_size,
            transfer_size: (queue.transfer_size + packet_size - 1) / packet_size * packet_size,
            buffered: seq![],
            packets: seq![],
        }
    }

    /// A transfer is made of whole packets, and is sent once it is full.
    pub open spec fn valid(self) -> bool {
        &&& self.packet_size > 0
        &&& self.transfer_size > 0
        &&& self.transfer_size % self.packet_size == 0
        &&& self.buffered.len() < self.transfer_size
    }

    /// The writer after one transfer, with nothing buffered.
    pub open spec fn submitted(self, bytes: Seq<u8>) -> Writer {
        Writer {
            buffered: seq![],
            packets: self.packets + transfer_packets(bytes, self.packet_size),
            ..self
        }
    }

    /// The writer after bytes were written: each time that they fill a
    /// transfer, it is sent.
    pub open spec fn written(self, bytes: Seq<u8>) -> Writer
        decreases bytes.len(),
    {
        let room = self.transfer_size - self.buffered.len();
        if room <= 0 || bytes.len() < room {
            Writer { buffered: self.buffered + bytes, ..self }
        } else {
            self.submitted(self.buffered + bytes.take(room)).written(bytes.skip(room))
        }
    }

    /// The writer after what was buffered was sent, and after it an empty packet
    /// where the last one was not below the packet size.
    pub open spec fn flushed(self) -> Writer {
        let sent = self.submitted(self.buffered);
        if self.buffered.len() > 0 && self.buffered.len() as int % self.packet_size == 0 {
            Writer { packets: sent.packets.push(seq![]), ..sent }
        } else {
            sent
        }
    }

    /// The writer and the message in the end, given the replies to the two
    /// requests. After a request that failed, the writer can be in any state.
    pub open spec fn run(
        self,
        sending: TxView,
        write: Result<(), std::io::Error>,
        flush: Result<(), std::io::Error>,
    ) -> (Writer, TxView)
        decreases
                (match sending {
                    TxView::WriteAll(_) => 2int,
                    TxView::FlushEnd => 1int,
                    TxView::Finished(_) => 0int,
                }),
    {
        match sending {
            TxView::WriteAll(data) => {
                let next = if write is Ok {
                    self.written(data)
                } else {
                    arbitrary()
                };
                next.run(sending.after(write), write, flush)
            },
            TxView::FlushEnd => {
                let next = if flush is Ok {
                    self.flushed()
                } else {
                    arbitrary()
                };
                next.run(sending.after(flush), write, flush)
            },
            TxView::Finished(_) => (self, sending),
        }
    }
}

/// The message at the head of packets and the packets behind it, if they hold a
/// whole message.
pub open spec fn first_message(packets: Seq<Seq<u8>>, packet_size: int) -> Option<
    (Seq<u8>, Seq<Seq<u8>>),
>
    decreases packets.len(),
{
    if packets.len() == 0 {
        None
    } else if packets.first().len() < packet_size {
        Some((packets.first(), packets.drop_first()))
    } else {
        match first_message(packets.drop_first(), packet_size) {
            Some((rest, behind)) => Some((packets.first() + rest, behind)),
            None => None,
        }
    }
}

/// The reader of an endpoint towards the host. Its transfers are made of whole
/// packets too, so they show in nothing that it reads.
pub ghost struct Reader {
    pub packet_size: int,
    /// The packets that are to be read.
    pub incoming: Seq<Seq<u8>>,
    /// The end of a message was reached and not consumed yet.
    pub at_end: bool,
}

impl Reader {
    /// The reader and the message in the end, where no transfer fails. Nothing,
    /// where the reader waits for the end of a message for ever.
    pub open spec fn run(self, receiving: RxView) -> Option<(Reader, RxView)>
        decreases
                (match receiving {
                    RxView::ReadToEnd => 2int,
                    RxView::ConsumeEnd(_) => 1int,
                    RxView::Finished(_) => 0int,
                }),
    {
        match receiving {
            RxView::ReadToEnd => if self.at_end {
                self.run(receiving.after(RxReplyView::Read(Ok(seq![]))))
            } else {
                match first_message(self.incoming, self.packet_size) {
                    Some((bytes, behind)) => {
                        let next = Reader { incoming: behind, at_end: true, ..self };
                        next.run(receiving.after(RxReplyView::Read(Ok(bytes))))
                    },
                    None => None,
                }
            },
            RxView::ConsumeEnd(_) => if self.at_end {
                let next = Reader { at_end: false, ..self };
                next.run(receiving.after(RxReplyView::Consumed(Ok(()))))
            } else {
                self.run(receiving.after(RxReplyView::Consumed(Err(arbitrary()))))
            },
            RxView::Finished(_) => Some((self, receiving)),
        }
    }

    /// The reader and the outcomes of receiving so many times in a row.
    pub open spec fn receive(self, times: nat) -> Option<(Reader, Seq<RxView>)>
        decreases times,
    {
        if times == 0 {
            Some((self, seq![]))
        } else {
            match self.receive((times - 1) as nat) {
                Some((reader, outcomes)) => match reader.run(RxView::ReadToEnd) {
                    Some((next, outcome)) => Some((next, outcomes.push(outcome))),
                    None => None,
                },
                None => None,
            }
        }
    }
}

/// The writer of an endpoint that was just opened can take a message.
pub proof fn law_opened_writer_is_valid(packet_size: int, address: u8)
    requires
        packet_size > 0,
    ensures
        Writer::opened(packet_size, queue_on(address)).valid(),
        Writer::opened(packet_size, queue_on(address)).buffered.len() == 0,
{
    let padded = queue_on(address).transfer_size + packet_size - 1;
    let count = padded / packet_size;
    vstd::arithmetic::div_mod::lemma_div_is_ordered(packet_size, padded, packet_size);
    vstd::arithmetic::div_mod::lemma_div_by_self(packet_size);
    vstd::arithmetic::div_mod::lemma_mod_multiples_basic(count, packet_size);
    vstd::arithmetic::mul::lemma_mul_strictly_positive(count, packet_size);
}

/// What a message is on the bus: packets that make up one message, with its
/// bytes in order.
pub proof fn law_message_packets(message: Seq<u8>, packet_size: int)
    requires
        packet_size > 0,
    ensures
        is_message(message_packets(message, packet_size), packet_size),
        message_packets(message, packet_size).flatten() == message,
    decreases message.len(),
{
    let packets = message_packets(message, packet_size);
    if message.len() < packet_size {
        packets.lemma_flatten_one_element();
    } else {
        let head = message.take(packet_size);
        let tail = message_packets(message.skip(packet_size), packet_size);
        law_message_packets(message.skip(packet_size), packet_size);
        assert(packets.last() == tail.last());
        assert forall|i: int| 0 <= i < packets.len() - 1 implies (#[trigger] packets[i]).len()
            == packet_size by {
            if i > 0 {
                assert(packets[i] == tail[i - 1]);
            }
        }
        assert(packets.drop_first() =~= tail);
        assert(packets.first() == head);
        assert(packets.flatten() =~= head + tail.flatten());
        assert(head + message.skip(packet_size) =~= message);
    }
}

proof fn lemma_transfer_then_end(bytes: Seq<u8>, packet_size: int)
    requires
        packet_size > 0,
    ensures
        message_packets(bytes, packet_size) == if bytes.len() > 0 && bytes.len() as int % packet_size
            == 0 {
            transfer_packets(bytes, packet_size).push(seq![])
        } else {
            transfer_packets(bytes, packet_size)
        },
    decreases bytes.len(),
{
    let rest = bytes.skip(packet_size);
    if bytes.len() < packet_size {
        if bytes.len() > 0 {
            vstd::arithmetic::div_mod::lemma_small_mod(bytes.len(), packet_size as nat);
        }
    } else if bytes.len() == packet_size {
        vstd::arithmetic::div_mod::lemma_mod_self_0(packet_size);
        assert(rest =~= seq![]);
        assert(message_packets(rest, packet_size) =~= seq![rest]);
        assert(bytes.take(packet_size) =~= bytes);
        assert(message_packets(bytes, packet_size) =~= seq![bytes, seq![]]);
        assert(transfer_packets(bytes, packet_size).push(seq![]) =~= seq![bytes, seq![]]);
    } else {
        lemma_transfer_then_end(rest, packet_size);
        vstd::arithmetic::div_mod::lemma_mod_sub_multiples_vanish(bytes.len() as int, packet_size);
        assert(message_packets(bytes, packet_size) =~= seq![bytes.take(packet_size)]
            + message_packets(rest, packet_size));
        assert(seq![bytes.take(packet_size)] + transfer_packets(rest, packet_size).push(seq![])
            =~= (seq![bytes.take(packet_size)] + transfer_packets(rest, packet_size)).push(seq![]));
    }
}

proof fn lemma_full_transfer_then_message(bytes: Seq<u8>, message: Seq<u8>, packet_size: int)
    requires
        packet_size > 0,
        bytes.len() > 0,
        bytes.len() as int % packet_size == 0,
    ensures
        transfer_packets(bytes, packet_size) + message_packets(message, packet_size)
            == message_packets(bytes + message, packet_size),
    decreases bytes.len(),
{
    let whole = bytes + message;
    if bytes.len() < packet_size {
        vstd::arithmetic::div_mod::lemma_small_mod(bytes.len(), packet_size as nat);
    } else if bytes.len() == packet_size {
        assert(whole.take(packet_size) =~= bytes);
        assert(whole.skip(packet_size) =~= message);
    } else {
        let rest = bytes.skip(packet_size);
        vstd::arithmetic::div_mod::lemma_mod_sub_multiples_vanish(bytes.len() as int, packet_size);
        lemma_full_transfer_then_message(rest, message, packet_size);
        assert(whole.take(packet_size) =~= bytes.take(packet_size));
        assert(whole.skip(packet_size) =~= rest + message);
        assert((seq![bytes.take(packet_size)] + transfer_packets(rest, packet_size))
            + message_packets(message, packet_size) =~= seq![bytes.take(packet_size)] + (
        transfer_packets(rest, packet_size) + message_packets(message, packet_size)));
    }
}

proof fn lemma_written_then_flushed(writer: Writer, bytes: Seq<u8>)
    requires
        writer.valid(),
    ensures
        writer.written(bytes).flushed() == (Writer {
            buffered: seq![],
            packets: writer.packets + message_packets(writer.buffered + bytes, writer.packet_size),
            ..writer
        }),
    decreases bytes.len(),
{
    let size = writer.packet_size;
    let room = writer.transfer_size - writer.buffered.len();
    if bytes.len() < room {
        let gathered = writer.buffered + bytes;
        lemma_transfer_then_end(gathered, size);
        assert((writer.packets + transfer_packets(gathered, size)).push(seq![]) =~= writer.packets
            + transfer_packets(gathered, size).push(seq![]));
    } else {
        let full = writer.buffered + bytes.take(room);
        let rest = bytes.skip(room);
        let next = writer.submitted(full);
        assert(full.len() == writer.transfer_size);
        lemma_written_then_flushed(next, rest);
        lemma_full_transfer_then_message(full, rest, size);
        assert(seq![] + rest =~= rest);
        assert(full + rest =~= writer.buffered + bytes);
        assert((writer.packets + transfer_packets(full, size)) + message_packets(rest, size)
            =~= writer.packets + (transfer_packets(full, size) + message_packets(rest, size)));
    }
}

/// A message that was sent went out as the packets of this message and nothing
/// else, whatever its length, and no byte of it is left in the writer.
pub proof fn law_sent_message(
    writer: Writer,
    message: Seq<u8>,
    write: Result<(), std::io::Error>,
    flush: Result<(), std::io::Error>,
)
    requires
        writer.valid(),
        writer.buffered.len() == 0,
        writer.run(TxView::WriteAll(message), write, flush).1 == TxView::Finished(Ok(())),
    ensures
        writer.run(TxView::WriteAll(message), write, flush).0 == (Writer {
            buffered: seq![],
            packets: writer.packets + message_packets(message, writer.packet_size),
            ..writer
        }),
{
    reveal_with_fuel(Writer::run, 3);
    lemma_written_then_flushed(writer, message);
    assert(writer.buffered + message =~= message);
}

/// Two messages that were sent one after the other went out one after the other,
/// each as the packets of its own.
pub proof fn law_two_sent_messages_stay_apart(
    writer: Writer,
    first: Seq<u8>,
    first_write: Result<(), std::io::Error>,
    first_flush: Result<(), std::io::Error>,
    second: Seq<u8>,
    second_write: Result<(), std::io::Error>,
    second_flush: Result<(), std::io::Error>,
)
    requires
        writer.valid(),
        writer.buffered.len() == 0,
        writer.run(TxView::WriteAll(first), first_write, first_flush).1 == TxView::Finished(Ok(())),
        writer.run(TxView::WriteAll(first), first_write, first_flush).0.run(
            TxView::WriteAll(second),
            second_write,
            second_flush,
        ).1 == TxView::Finished(Ok(())),
    ensures
        writer.run(TxView::WriteAll(first), first_write, first_flush).0.buffered.len() == 0,
        writer.run(TxView::WriteAll(first), first_write, first_flush).0.run(
            TxView::WriteAll(second),
            second_write,
            second_flush,
        ).0 == (Writer {
            buffered: seq![],
            packets: writer.packets + message_packets(first, writer.packet_size)
                + message_packets(second, writer.packet_size),
            ..writer
        }),
        is_message(message_packets(first, writer.packet_size), writer.packet_size),
        is_message(message_packets(second, writer.packet_size), writer.packet_size),
        message_packets(first, writer.packet_size).flatten() == first,
        message_packets(second, writer.packet_size).flatten() == second,
{
    law_sent_message(writer, first, first_write, first_flush);
    let between = writer.run(TxView::WriteAll(first), first_write, first_flush).0;
    law_sent_message(between, second, second_write, second_flush);
    law_message_packets(first, writer.packet_size);
    law_message_packets(second, writer.packet_size);
}

proof fn lemma_first_message(packets: Seq<Seq<u8>>, behind: Seq<Seq<u8>>, packet_size: int)
    requires
        is_message(packets, packet_size),
    ensures
        first_message(packets + behind, packet_size) == Some((packets.flatten(), behind)),
    decreases packets.len(),
{
    let all = packets + behind;
    let tail = packets.drop_first();
    assert(all.first() == packets.first());
    assert(all.drop_first() =~= tail + behind);
    if packets.len() == 1 {
        packets.lemma_flatten_one_element();
        assert(tail + behind =~= behind);
    } else {
        assert(packets[0].len() == packet_size);
        assert(tail.last() == packets.last());
        assert forall|i: int| 0 <= i < tail.len() - 1 implies (#[trigger] tail[i]).len()
            == packet_size by {
            assert(tail[i] == packets[i + 1]);
        }
        lemma_first_message(tail, behind, packet_size);
    }
}

/// Where the next packets make up a message, this message is received, and the
/// packets behind it are left for the next one.
pub proof fn law_received_message(
    reader: Reader,
    packets: Seq<Seq<u8>>,
    behind: Seq<Seq<u8>>,
)
    requires
        !reader.at_end,
        is_message(packets, reader.packet_size),
        reader.incoming == packets + behind,
    ensures
        reader.run(RxView::ReadToEnd) == Some(
            (Reader { incoming: behind, ..reader }, RxView::Finished(Ok(packets.flatten()))),
        ),
{
    reveal_with_fuel(Reader::run, 3);
    lemma_first_message(packets, behind, reader.packet_size);
}

/// Messages are received one per call and in the order in which they came: none
/// is lost, repeated, merged, split or left over.
pub proof fn law_received_messages(
    reader: Reader,
    messages: Seq<Seq<Seq<u8>>>,
    behind: Seq<Seq<u8>>,
)
    requires
        !reader.at_end,
        forall|i: int|
            0 <= i < messages.len() ==> is_message(#[trigger] messages[i], reader.packet_size),
        reader.incoming == messages.flatten() + behind,
    ensures
        reader.receive(messages.len()) == Some(
            (
                Reader { incoming: behind, ..reader },
                messages.map_values(
                    |packets: Seq<Seq<u8>>| RxView::Finished(Ok(packets.flatten())),
                ),
            ),
        ),
    decreases messages.len(),
{
    let outcome = |packets: Seq<Seq<u8>>| RxView::Finished(Ok(packets.flatten()));
    if messages.len() == 0 {
        assert(messages.flatten() + behind =~= behind);
        assert(messages.map_values(outcome) =~= seq![]);
    } else {
        let earlier = messages.drop_last();
        let last = messages.last();
        assert(messages =~= earlier.push(last));
        earlier.lemma_flatten_push(last);
        assert((earlier.flatten() + last) + behind =~= earlier.flatten() + (last + behind));
        assert forall|i: int| 0 <= i < earlier.len() implies is_message(
            #[trigger] earlier[i],
            reader.packet_size,
        ) by {
            assert(earlier[i] == messages[i]);
        }
        law_received_messages(reader, earlier, last + behind);
        law_received_message(Reader { incoming: last + behind, ..reader }, last, behind);
        assert(messages.map_values(outcome) =~= earlier.map_values(outcome).push(outcome(last)));
    }
}

/// What was sent is what is received, where the packets that were sent are those
/// that come next.
pub proof fn law_sent_is_received(
    writer: Writer,
    message: Seq<u8>,
    write: Result<(), std::io::Error>,
    flush: Result<(), std::io::Error>,
    reader: Reader,
    behind: Seq<Seq<u8>>,
)
    requires
        writer.valid(),
        writer.buffered.len() == 0,
        writer.run(TxView::WriteAll(message), write, flush).1 == TxView::Finished(Ok(())),
        !reader.at_end,
        reader.packet_size == writer.packet_size,
        reader.incoming == writer.run(TxView::WriteAll(message), write, flush).0.packets.skip(
            writer.packets.len() as int,
        ) + behind,
    ensures
        reader.run(RxView::ReadToEnd) == Some(
            (Reader { incoming: behind, ..reader }, RxView::Finished(Ok(message))),
        ),
{
    let packets = message_packets(message, writer.packet_size);
    law_sent_message(writer, message, write, flush);
    law_message_packets(message, writer.packet_size);
    assert((writer.packets + packets).skip(writer.packets.len() as int) =~= packets);
    law_received_message(reader, packets, behind);
}

} // verus!
