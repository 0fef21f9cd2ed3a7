//! A chat in which each client sends frames that end in the byte 1: first
//! its own name, then by turns the name of a receiver and a message for it.

use vstd::prelude::*;

verus! {

/// The byte that ends a frame.
pub const SOH: u8 = 1;

/// What a read up to the end byte brought.
#[derive(Debug)]
pub enum Frame {
    /// Nothing: the client has gone.
    Disconnected,
    /// Bytes without the end byte: the stream ended within a frame.
    Truncated,
    /// A whole frame, without its end byte.
    Whole { content: Vec<u8> },
}

/// A frame as a mathematical value.
pub enum FrameView {
    Disconnected,
    Truncated,
    Whole { content: Seq<u8> },
}

impl View for Frame {
    type V = FrameView;

    open spec fn view(&self) -> FrameView {
        match *self {
            Frame::Disconnected => FrameView::Disconnected,
            Frame::Truncated => FrameView::Truncated,
            Frame::Whole { content } => FrameView::Whole { content: content@ },
        }
    }
}

/// What the bytes of one read stand for.
pub open spec fn frame_of(bytes: Seq<u8>) -> FrameView {
    if bytes.len() == 0 {
        FrameView::Disconnected
    } else if bytes.last() != SOH {
        FrameView::Truncated
    } else {
        FrameView::Whole { content: bytes.drop_last() }
    }
}

/// What a client waits for.
#[derive(Debug)]
pub enum CurState {
    /// The name of the receiver of the next message.
    RecieverNameWaiting,
    /// The message for this receiver.
    MessageWaiting { receiver: Vec<u8> },
}

/// The state of a client as a mathematical value.
pub enum StateView {
    RecieverNameWaiting,
    MessageWaiting { receiver: Seq<u8> },
}

impl View for CurState {
    type V = StateView;

    open spec fn view(&self) -> StateView {
        match *self {
            CurState::RecieverNameWaiting => StateView::RecieverNameWaiting,
            CurState::MessageWaiting { receiver } => StateView::MessageWaiting {
                receiver: receiver@,
            },
        }
    }
}

/// Two frames to be written to a receiver: the sender's name and the
/// message, each with its end byte.
#[derive(Debug)]
pub struct Delivery {
    pub receiver: Vec<u8>,
    pub sender_frame: Vec<u8>,
    pub message_frame: Vec<u8>,
}

/// A delivery as a mathematical value.
pub struct DeliveryView {
    pub receiver: Seq<u8>,
    pub sender_frame: Seq<u8>,
    pub message_frame: Seq<u8>,
}

impl View for Delivery {
    type V = DeliveryView;

    open spec fn view(&self) -> DeliveryView {
        DeliveryView {
            receiver: self.receiver@,
            sender_frame: self.sender_frame@,
            message_frame: self.message_frame@,
        }
    }
}

/// The state after a whole frame came in from the client `client_name`.
/// `known` says whether the frame is the name of a client that is logged
/// in. A receiver is accepted where it is known and is not the client
/// itself; a message always goes out.
pub open spec fn next_state(
    state: StateView,
    client_name: Seq<u8>,
    content: Seq<u8>,
    known: bool,
) -> StateView {
    match state {
        StateView::RecieverNameWaiting => if known && content != client_name {
            StateView::MessageWaiting { receiver: content }
        } else {
            StateView::RecieverNameWaiting
        },
        StateView::MessageWaiting { receiver } => StateView::RecieverNameWaiting,
    }
}

/// What is to be delivered after a whole frame came in.
pub open spec fn delivery_of(state: StateView, client_name: Seq<u8>, content: Seq<u8>) -> Option<
    DeliveryView,
> {
    match state {
        StateView::RecieverNameWaiting => None,
        StateView::MessageWaiting { receiver } => Some(
            DeliveryView {
                receiver,
                sender_frame: client_name.push(SOH),
                message_frame: content.push(SOH),
            },
        ),
    }
}

/// A copy of the bytes.
fn copy_bytes(bytes: &Vec<u8>) -> (copy: Vec<u8>)
    ensures
        copy@ == bytes@,
{
    let mut copy: Vec<u8> = Vec::new();
    let mut i: usize = 0;
    while i < bytes.len()
        invariant
            i <= bytes.len(),
            copy@ == bytes@.take(i as int),
        decreases bytes.len() - i,
    {
        copy.push(bytes[i]);
        assert(copy@ =~= bytes@.take(i + 1));
        i = i + 1;
    }
    assert(bytes@.take(bytes@.len() as int) == bytes@);
    copy
}

/// Whether two byte strings are equal.
fn same_bytes(a: &Vec<u8>, b: &Vec<u8>) -> (same: bool)
    ensures
        same == (a@ == b@),
{
    if a.len() != b.len() {
        return false;
    }
    let mut i: usize = 0;
    while i < a.len()
        invariant
            i <= a.len(),
            a.len() == b.len(),
            a@.take(i as int) == b@.take(i as int),
        decreases a.len() - i,
    {
        if a[i] != b[i] {
            return false;
        }
        assert(a@.take(i + 1) =~= a@.take(i as int).push(a@[i as int]));
        assert(b@.take(i + 1) =~= b@.take(i as int).push(b@[i as int]));
        i = i + 1;
    }
    assert(a@.take(a@.len() as int) == a@);
    assert(b@.take(b@.len() as int) == b@);
    true
}

/// Reads what one read up to the end byte brought.
pub fn read_frame(bytes: Vec<u8>) -> (frame: Frame)
    ensures
        frame@ == frame_of(bytes@),
{
    let mut content = bytes;
    if content.len() == 0 {
        Frame::Disconnected
    } else if content[content.len() - 1] != SOH {
        Frame::Truncated
    } else {
        content.pop();
        Frame::Whole { content }
    }
}

/// One step of a client's conversation: takes a whole frame and gives the
/// next state and what is to be delivered.
pub fn handle_client(state: CurState, client_name: &Vec<u8>, content: Vec<u8>, known: bool) -> (step:
    (CurState, Option<Delivery>))
    ensures
        step.0@ == next_state(state@, client_name@, content@, known),
        match step.1 {
            Some(delivery) => delivery_of(state@, client_name@, content@) == Some(delivery@),
            None => delivery_of(state@, client_name@, content@) is None,
        },
{
    match state {
        CurState::RecieverNameWaiting => {
            if known && !same_bytes(&content, client_name) {
                (CurState::MessageWaiting { receiver: content }, None)
            } else {
                (CurState::RecieverNameWaiting, None)
            }
        },
        CurState::MessageWaiting { receiver } => {
            let mut sender_frame = copy_bytes(client_name);
            sender_frame.push(SOH);
            let mut message_frame = content;
            message_frame.push(SOH);
            (
                CurState::RecieverNameWaiting,
                Some(Delivery { receiver, sender_frame, message_frame }),
            )
        },
    }
}

/// A client never sends a message to itself, and every delivery tells the
/// receiver who sent it.
pub proof fn law_no_message_to_oneself(
    client_name: Seq<u8>,
    receiver_name: Seq<u8>,
    known: bool,
    message: Seq<u8>,
)
    ensures
        ({
            let waiting = next_state(
                StateView::RecieverNameWaiting,
                client_name,
                receiver_name,
                known,
            );
            match delivery_of(waiting, client_name, message) {
                Some(delivery) => delivery.receiver != client_name && known && delivery.receiver
                    == receiver_name && delivery.sender_frame == client_name.push(SOH),
                None => !known || receiver_name == client_name,
            }
        }),
{
}

} // verus!
