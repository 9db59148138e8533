//! One message on the wire, as a sequence of requests and replies.
use vstd::prelude::*;

#[allow(unused_imports)]
use vstd::std_specs::convert::FromSpec;

use nusb::io::ExpectedShortPacket;
use nusb::transfer::TransferError;

verus! {

/// Why a transfer did not complete.
#[verifier::external_type_specification]
#[verifier::external_body]
pub struct ExTransferError(TransferError);

/// A message did not end with a short packet.
#[verifier::external_type_specification]
#[verifier::external_body]
pub struct ExExpectedShortPacket(ExpectedShortPacket);

/// Why bytes could not be read or written.
#[verifier::external_type_specification]
#[verifier::external_body]
pub struct ExIoError(std::io::Error);

/// Why a message was not sent.
#[derive(Debug)]
pub enum NusbWireTxError {
    /// A transfer failed.
    Transfer(TransferError),
    /// The bytes could not be written.
    Io(std::io::Error),
}

/// Why no message was received.
#[derive(Debug)]
pub enum NusbWireRxError {
    /// A transfer failed.
    Transfer(TransferError),
    /// The bytes could not be read.
    IO(std::io::Error),
    /// The message does not end with a short packet.
    ExpectedShortPacket(ExpectedShortPacket),
}

impl From<TransferError> for NusbWireTxError {
    fn from(error: TransferError) -> (made: Self) {
        NusbWireTxError::Transfer(error)
    }
}

impl vstd::std_specs::convert::FromSpecImpl<TransferError> for NusbWireTxError {
    open spec fn obeys_from_spec() -> bool {
        true
    }

    open spec fn from_spec(error: TransferError) -> Self {
        NusbWireTxError::Transfer(error)
    }
}

impl From<std::io::Error> for NusbWireTxError {
    fn from(error: std::io::Error) -> (made: Self) {
        NusbWireTxError::Io(error)
    }
}

impl vstd::std_specs::convert::FromSpecImpl<std::io::Error> for NusbWireTxError {
    open spec fn obeys_from_spec() -> bool {
        true
    }

    open spec fn from_spec(error: std::io::Error) -> Self {
        NusbWireTxError::Io(error)
    }
}

impl From<TransferError> for NusbWireRxError {
    fn from(error: TransferError) -> (made: Self) {
        NusbWireRxError::Transfer(error)
    }
}

impl vstd::std_specs::convert::FromSpecImpl<TransferError> for NusbWireRxError {
    open spec fn obeys_from_spec() -> bool {
        true
    }

    open spec fn from_spec(error: TransferError) -> Self {
        NusbWireRxError::Transfer(error)
    }
}

impl From<std::io::Error> for NusbWireRxError {
    fn from(error: std::io::Error) -> (made: Self) {
        NusbWireRxError::IO(error)
    }
}

impl vstd::std_specs::convert::FromSpecImpl<std::io::Error> for NusbWireRxError {
    open spec fn obeys_from_spec() -> bool {
        true
    }

    open spec fn from_spec(error: std::io::Error) -> Self {
        NusbWireRxError::IO(error)
    }
}

impl From<ExpectedShortPacket> for NusbWireRxError {
    fn from(error: ExpectedShortPacket) -> (made: Self) {
        NusbWireRxError::ExpectedShortPacket(error)
    }
}

impl vstd::std_specs::convert::FromSpecImpl<ExpectedShortPacket> for NusbWireRxError {
    open spec fn obeys_from_spec() -> bool {
        true
    }

    open spec fn from_spec(error: ExpectedShortPacket) -> Self {
        NusbWireRxError::ExpectedShortPacket(error)
    }
}

impl NusbWireTxError {
    /// The error in words.
    pub fn message(&self) -> (text: String)
        ensures
            text@ == match *self {
                NusbWireTxError::Transfer(_) => "Transfer Error on Send"@,
                NusbWireTxError::Io(_) => "I/O Error on Send"@,
            },
    {
        match self {
            NusbWireTxError::Transfer(_) => "Transfer Error on Send".to_owned(),
            NusbWireTxError::Io(_) => "I/O Error on Send".to_owned(),
        }
    }
}

impl NusbWireRxError {
    /// The error in words.
    pub fn message(&self) -> (text: String)
        ensures
            text@ == match *self {
                NusbWireRxError::Transfer(_) => "Transfer Error on Recv"@,
                NusbWireRxError::IO(_) => "I/O Error on Recv"@,
                NusbWireRxError::ExpectedShortPacket(_) => "Short Packet Error From nusb"@,
            },
    {
        match self {
            NusbWireRxError::Transfer(_) => "Transfer Error on Recv".to_owned(),
            NusbWireRxError::IO(_) => "I/O Error on Recv".to_owned(),
            NusbWireRxError::ExpectedShortPacket(_) => "Short Packet Error From nusb".to_owned(),
        }
    }
}

/// The request that sending a message waits for the reply to, or how it ended.
#[derive(Debug)]
pub enum NusbWireTx {
    /// Write all of these bytes.
    WriteAll(Vec<u8>),
    /// Send what was written, with a short or empty packet at the end, and wait
    /// for it.
    FlushEnd,
    /// The message was sent, or not.
    Finished(Result<(), NusbWireTxError>),
}

/// [`NusbWireTx`] over mathematical values.
pub ghost enum TxView {
    WriteAll(Seq<u8>),
    FlushEnd,
    Finished(Result<(), NusbWireTxError>),
}

impl View for NusbWireTx {
    type V = TxView;

    open spec fn view(&self) -> TxView {
        match *self {
            NusbWireTx::WriteAll(data) => TxView::WriteAll(data@),
            NusbWireTx::FlushEnd => TxView::FlushEnd,
            NusbWireTx::Finished(outcome) => TxView::Finished(outcome),
        }
    }
}

impl TxView {
    /// What follows on a reply. The first failure ends it.
    pub open spec fn after(self, reply: Result<(), std::io::Error>) -> TxView {
        match (self, reply) {
            (TxView::Finished(outcome), _) => TxView::Finished(outcome),
            (_, Err(error)) => TxView::Finished(Err(NusbWireTxError::Io(error))),
            (TxView::WriteAll(_), Ok(_)) => TxView::FlushEnd,
            (TxView::FlushEnd, Ok(_)) => TxView::Finished(Ok(())),
        }
    }
}

impl NusbWireTx {
    /// Begins to send a message.
    pub fn send(data: Vec<u8>) -> (sending: NusbWireTx)
        ensures
            sending@ == TxView::WriteAll(data@),
            sending == NusbWireTx::WriteAll(data),
    {
        NusbWireTx::WriteAll(data)
    }

    /// Takes the reply to the request that was made.
    pub fn send_inner(self, reply: Result<(), std::io::Error>) -> (next: NusbWireTx)
        ensures
            next@ == self@.after(reply),
            self is WriteAll && reply is Ok ==> next is FlushEnd,
            self is FlushEnd && reply is Ok ==> next == NusbWireTx::Finished(Ok(())),
            !(self is Finished) && reply is Err ==> next == NusbWireTx::Finished(
                Err(NusbWireTxError::Io(reply->Err_0)),
            ),
            self is Finished ==> next == self,
    {
        match (self, reply) {
            (NusbWireTx::Finished(outcome), _) => NusbWireTx::Finished(outcome),
            (_, Err(error)) => NusbWireTx::Finished(Err(NusbWireTxError::from(error))),
            (NusbWireTx::WriteAll(_), Ok(_)) => NusbWireTx::FlushEnd,
            (NusbWireTx::FlushEnd, Ok(_)) => NusbWireTx::Finished(Ok(())),
        }
    }
}

/// The request that receiving a message waits for the reply to, or how it
/// ended.
#[derive(Debug)]
pub enum NusbWireRx {
    /// Read up to the end of a short packet.
    ReadToEnd,
    /// Consume the end of the short packet, after these bytes.
    ConsumeEnd(Vec<u8>),
    /// The message, or why there is none.
    Finished(Result<Vec<u8>, NusbWireRxError>),
}

/// The reply to a request of a [`NusbWireRx`].
#[derive(Debug)]
pub enum RxReply {
    /// To [`NusbWireRx::ReadToEnd`]: the bytes that were read.
    Read(Result<Vec<u8>, std::io::Error>),
    /// To [`NusbWireRx::ConsumeEnd`].
    Consumed(Result<(), ExpectedShortPacket>),
}

/// [`NusbWireRx`] over mathematical values.
pub ghost enum RxView {
    ReadToEnd,
    ConsumeEnd(Seq<u8>),
    Finished(Result<Seq<u8>, NusbWireRxError>),
}

/// [`RxReply`] over mathematical values.
pub ghost enum RxReplyView {
    Read(Result<Seq<u8>, std::io::Error>),
    Consumed(Result<(), ExpectedShortPacket>),
}

impl View for NusbWireRx {
    type V = RxView;

    open spec fn view(&self) -> RxView {
        match *self {
            NusbWireRx::ReadToEnd => RxView::ReadToEnd,
            NusbWireRx::ConsumeEnd(bytes) => RxView::ConsumeEnd(bytes@),
            NusbWireRx::Finished(Ok(bytes)) => RxView::Finished(Ok(bytes@)),
            NusbWireRx::Finished(Err(error)) => RxView::Finished(Err(error)),
        }
    }
}

impl View for RxReply {
    type V = RxReplyView;

    open spec fn view(&self) -> RxReplyView {
        match *self {
            RxReply::Read(Ok(bytes)) => RxReplyView::Read(Ok(bytes@)),
            RxReply::Read(Err(error)) => RxReplyView::Read(Err(error)),
            RxReply::Consumed(reply) => RxReplyView::Consumed(reply),
        }
    }
}

impl RxView {
    /// What follows on a reply. A reply to another request changes nothing.
    pub open spec fn after(self, reply: RxReplyView) -> RxView {
        match (self, reply) {
            (RxView::ReadToEnd, RxReplyView::Read(Ok(bytes))) => RxView::ConsumeEnd(bytes),
            (RxView::ReadToEnd, RxReplyView::Read(Err(error))) => RxView::Finished(
                Err(NusbWireRxError::IO(error)),
            ),
            (RxView::ConsumeEnd(bytes), RxReplyView::Consumed(Ok(_))) => RxView::Finished(
                Ok(bytes),
            ),
            (RxView::ConsumeEnd(_), RxReplyView::Consumed(Err(error))) => RxView::Finished(
                Err(NusbWireRxError::ExpectedShortPacket(error)),
            ),
            _ => self,
        }
    }
}

impl NusbWireRx {
    /// Begins to receive a message.
    pub fn receive() -> (receiving: NusbWireRx)
        ensures
            receiving@ == RxView::ReadToEnd,
            receiving is ReadToEnd,
    {
        NusbWireRx::ReadToEnd
    }

    /// Takes the reply to the request that was made.
    pub fn recv_inner(self, reply: RxReply) -> (next: NusbWireRx)
        ensures
            next@ == self@.after(reply@),
            self is ReadToEnd ==> match reply {
                RxReply::Read(Ok(bytes)) => next == NusbWireRx::ConsumeEnd(bytes),
                RxReply::Read(Err(error)) => next == NusbWireRx::Finished(
                    Err(NusbWireRxError::IO(error)),
                ),
                RxReply::Consumed(_) => next == self,
            },
            self matches NusbWireRx::ConsumeEnd(bytes) ==> match reply {
                RxReply::Consumed(Ok(_)) => next == NusbWireRx::Finished(Ok(bytes)),
                RxReply::Consumed(Err(error)) => next == NusbWireRx::Finished(
                    Err(NusbWireRxError::ExpectedShortPacket(error)),
                ),
                RxReply::Read(_) => next == self,
            },
            self is Finished ==> next == self,
    {
        match (self, reply) {
            (NusbWireRx::ReadToEnd, RxReply::Read(Ok(bytes))) => NusbWireRx::ConsumeEnd(bytes),
            (NusbWireRx::ReadToEnd, RxReply::Read(Err(error))) => NusbWireRx::Finished(
                Err(NusbWireRxError::from(error)),
            ),
            (NusbWireRx::ConsumeEnd(bytes), RxReply::Consumed(Ok(_))) => NusbWireRx::Finished(
                Ok(bytes),
            ),
            (NusbWireRx::ConsumeEnd(_), RxReply::Consumed(Err(error))) => NusbWireRx::Finished(
                Err(NusbWireRxError::from(error)),
            ),
            (unchanged, _) => unchanged,
        }
    }
}

/// A message is told to be sent exactly where all of its bytes were written and
/// then flushed. Where one of the two failed, its error is told, and after a
/// write that failed there is no flush.
pub proof fn law_sent_once_written_and_flushed(
    data: Seq<u8>,
    write: Result<(), std::io::Error>,
    flush: Result<(), std::io::Error>,
)
    ensures
        TxView::WriteAll(data).after(write).after(flush) == TxView::Finished(
            match (write, flush) {
                (Err(error), _) => Err(NusbWireTxError::Io(error)),
                (Ok(_), Err(error)) => Err(NusbWireTxError::Io(error)),
                (Ok(_), Ok(_)) => Ok(()),
            },
        ),
        TxView::WriteAll(data).after(write) is FlushEnd <==> write is Ok,
{
}

/// The message that is received is what was read, and it is received exactly
/// where the reading succeeded and a short packet ended it.
pub proof fn law_received_is_what_was_read(
    read: Result<Seq<u8>, std::io::Error>,
    consumed: Result<(), ExpectedShortPacket>,
)
    ensures
        RxView::ReadToEnd.after(RxReplyView::Read(read)).after(RxReplyView::Consumed(consumed))
            == RxView::Finished(
            match (read, consumed) {
                (Err(error), _) => Err(NusbWireRxError::IO(error)),
                (Ok(_), Err(error)) => Err(NusbWireRxError::ExpectedShortPacket(error)),
                (Ok(bytes), Ok(_)) => Ok(bytes),
            },
        ),
        RxView::ReadToEnd.after(RxReplyView::Read(read)) is ConsumeEnd <==> read is Ok,
{
}

/// Once a message was sent or received, or not, no reply changes that.
pub proof fn law_finished_is_final(
    sent: Result<(), NusbWireTxError>,
    received: Result<Seq<u8>, NusbWireRxError>,
    tx_reply: Result<(), std::io::Error>,
    rx_reply: RxReplyView,
)
    ensures
        TxView::Finished(sent).after(tx_reply) == TxView::Finished(sent),
        RxView::Finished(received).after(rx_reply) == RxView::Finished(received),
{
}

/// An error that is made of another keeps it, as an error of the same kind.
pub proof fn law_errors_keep_their_cause(
    transfer: TransferError,
    io: std::io::Error,
    short: ExpectedShortPacket,
)
    ensures
        <NusbWireTxError as FromSpec<TransferError>>::from_spec(transfer)
            == NusbWireTxError::Transfer(transfer),
        <NusbWireTxError as FromSpec<std::io::Error>>::from_spec(io) == NusbWireTxError::Io(io),
        <NusbWireRxError as FromSpec<TransferError>>::from_spec(transfer)
            == NusbWireRxError::Transfer(transfer),
        <NusbWireRxError as FromSpec<std::io::Error>>::from_spec(io) == NusbWireRxError::IO(io),
        <NusbWireRxError as FromSpec<ExpectedShortPacket>>::from_spec(short)
            == NusbWireRxError::ExpectedShortPacket(short),
{
}

/// The mathematical values of sending and receiving are the same requests with
/// the same contents.
pub proof fn law_wire_views(sending: NusbWireTx, receiving: NusbWireRx, reply: RxReply)
    ensures
        match sending {
            NusbWireTx::WriteAll(data) => sending@ == TxView::WriteAll(data@),
            NusbWireTx::FlushEnd => sending@ == TxView::FlushEnd,
            NusbWireTx::Finished(outcome) => sending@ == TxView::Finished(outcome),
        },
        match receiving {
            NusbWireRx::ReadToEnd => receiving@ == RxView::ReadToEnd,
            NusbWireRx::ConsumeEnd(bytes) => receiving@ == RxView::ConsumeEnd(bytes@),
            NusbWireRx::Finished(Ok(bytes)) => receiving@ == RxView::Finished(Ok(bytes@)),
            NusbWireRx::Finished(Err(error)) => receiving@ == RxView::Finished(Err(error)),
        },
        match reply {
            RxReply::Read(Ok(bytes)) => reply@ == RxReplyView::Read(Ok(bytes@)),
            RxReply::Read(Err(error)) => reply@ == RxReplyView::Read(Err(error)),
            RxReply::Consumed(consumed) => reply@ == RxReplyView::Consumed(consumed),
        },
{
}

} // verus!
