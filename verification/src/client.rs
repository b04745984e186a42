//! The protocol client's connection lifecycle and the decisions of its
//! network loop.
//!
//! The loop waits on three sources at once: frames read from the server,
//! packets queued for sending, and the disconnect signal. Each outcome is
//! an event; `NetLoop::step` answers it with the next action, which the
//! driver performs before handing back the next event.

use vstd::prelude::*;
use crate::frame::{decode_spec, encode_frame, frame_bytes, law_frame_roundtrip, FrameBuffer, FrameError, MAX_FRAME_LENGTH};

verus! {

/// An IPv4 socket address: four octets and a port.
#[derive(Debug, Clone, Copy, PartialEq, Eq)]
pub struct PeerAddr {
    pub octets: [u8; 4],
    pub port: u16,
}

/// The server that the client connects to: 42.81.176.211, port 443.
pub open spec fn server_address_spec(a: PeerAddr) -> bool {
    &&& a.octets@ == seq![42u8, 81u8, 176u8, 211u8]
    &&& a.port == 443
}

/// What the client asks its task runner to do.
#[derive(Debug, Clone, Copy, PartialEq, Eq, Structural)]
pub enum ClientAction {
    /// Spawn a task that sends the disconnect signal, which ends the
    /// network loop; a missing receiver is not an error.
    SpawnDisconnectSignal,
}

/// The flags of the protocol client that its lifecycle reads and writes.
#[derive(Debug, Clone, Copy, PartialEq, Eq, Structural)]
pub struct Client {
    /// Whether the client is processing its stream.
    pub running: bool,
    /// Whether the heartbeat task is already running.
    pub heartbeat_enabled: bool,
}

impl Client {
    /// A client that is neither running nor sending heartbeats.
    pub fn new() -> (r: Client)
        ensures
            !r.running,
            !r.heartbeat_enabled,
    {
        Client { running: false, heartbeat_enabled: false }
    }

    /// The address of the server to connect to.
    pub fn get_address(&self) -> (r: PeerAddr)
        ensures
            server_address_spec(r),
    {
        PeerAddr { octets: [42, 81, 176, 211], port: 443 }
    }

    /// Stops the client: it is no longer running, and the network loop is
    /// told to disconnect.
    pub fn stop(&mut self) -> (r: ClientAction)
        ensures
            !final(self).running,
            final(self).heartbeat_enabled == old(self).heartbeat_enabled,
            r == ClientAction::SpawnDisconnectSignal,
    {
        self.running = false;
        self.disconnect()
    }

    /// Asks for the disconnect signal to be sent.
    pub fn disconnect(&self) -> (r: ClientAction)
        ensures
            r == ClientAction::SpawnDisconnectSignal,
    {
        ClientAction::SpawnDisconnectSignal
    }

    /// Starts processing a stream: the client is running and its network
    /// loop begins by waiting for events. When the loop has stopped, the
    /// driver asks `finish` what to do.
    pub fn start(&mut self) -> (r: NetLoop)
        ensures
            final(self).running,
            final(self).heartbeat_enabled == old(self).heartbeat_enabled,
            r.phase == LoopPhase::Selecting,
    {
        self.running = true;
        NetLoop { phase: LoopPhase::Selecting }
    }
}

impl Client {
    /// What answers the end of a run of the network loop: once the loop has
    /// stopped, the disconnect signal is sent; while it runs, nothing.
    pub fn finish(&self, net_loop: &NetLoop) -> (r: Option<ClientAction>)
        ensures
            net_loop.phase == LoopPhase::Stopped ==> r == Some(ClientAction::SpawnDisconnectSignal),
            net_loop.phase != LoopPhase::Stopped ==> r is None,
    {
        match net_loop.phase {
            LoopPhase::Stopped => Some(self.disconnect()),
            _ => None,
        }
    }
}

/// Whether a heartbeat task has to be spawned: only when none is running.
pub fn start_heartbeat(client: &Client) -> (r: bool)
    ensures
        r == !client.heartbeat_enabled,
{
    !client.heartbeat_enabled
}

/// Where the network loop stands.
#[derive(Debug, Clone, Copy, PartialEq, Eq, Structural)]
pub enum LoopPhase {
    /// Waiting for a frame, an outgoing packet or the disconnect signal.
    Selecting,
    /// A frame was read and is being decoded into a packet.
    Decoding,
    /// An outgoing frame is being written.
    Writing,
    /// The loop has ended.
    Stopped,
}

/// What happened since the last action.
#[derive(Debug, PartialEq, Eq)]
pub enum NetEvent {
    /// A whole frame was read from the server.
    FrameRead(Vec<u8>),
    /// Reading a frame failed.
    ReadFailed,
    /// The server closed the stream.
    StreamClosed,
    /// The frame decoded into a packet.
    PacketDecoded,
    /// The frame did not decode into a packet.
    DecodeFailed,
    /// A packet to send came out of the outgoing queue.
    OutgoingReady(Vec<u8>),
    /// Receiving from the outgoing queue failed (it lagged or closed).
    OutgoingMissed,
    /// The outgoing frame was written.
    WriteDone,
    /// Writing the outgoing frame failed.
    WriteFailed,
    /// The disconnect signal arrived.
    DisconnectRequested,
}

/// What the driver does next.
#[derive(Debug, PartialEq, Eq)]
pub enum NetAction {
    /// Wait for the next event of the three sources.
    WaitForEvent,
    /// Decode this frame into a packet.
    DecodeFrame(Vec<u8>),
    /// Hand the decoded packet to the client, then wait for the next event.
    ProcessPacket,
    /// Write these bytes (one encoded frame) to the server.
    WriteFrame(Vec<u8>),
    /// Leave the loop.
    Stop,
}

/// The events that can arrive in a phase.
pub open spec fn accepts_spec(phase: LoopPhase, event: NetEvent) -> bool {
    match phase {
        LoopPhase::Selecting => match event {
            NetEvent::FrameRead(_) | NetEvent::ReadFailed | NetEvent::StreamClosed
            | NetEvent::OutgoingReady(_) | NetEvent::OutgoingMissed
            | NetEvent::DisconnectRequested => true,
            _ => false,
        },
        LoopPhase::Decoding => event is PacketDecoded || event is DecodeFailed,
        LoopPhase::Writing => event is WriteDone || event is WriteFailed,
        LoopPhase::Stopped => false,
    }
}

/// The events on which the loop ends: a failed or closed stream, a frame
/// that does not decode, a packet that cannot be written (too long to
/// encode, or the write fails), and the disconnect signal.
pub open spec fn ends_loop(event: NetEvent) -> bool {
    match event {
        NetEvent::ReadFailed | NetEvent::StreamClosed | NetEvent::DecodeFailed
        | NetEvent::WriteFailed | NetEvent::DisconnectRequested => true,
        NetEvent::OutgoingReady(p) => p@.len() > MAX_FRAME_LENGTH,
        _ => false,
    }
}

/// The phase after an accepted event.
pub open spec fn next_phase(phase: LoopPhase, event: NetEvent) -> LoopPhase {
    if ends_loop(event) {
        LoopPhase::Stopped
    } else {
        match event {
            NetEvent::FrameRead(_) => LoopPhase::Decoding,
            NetEvent::OutgoingReady(_) => LoopPhase::Writing,
            _ => LoopPhase::Selecting,
        }
    }
}

/// The action that answers an accepted event.
pub open spec fn action_spec(event: NetEvent, a: NetAction) -> bool {
    if ends_loop(event) {
        a == NetAction::Stop
    } else {
        match event {
            NetEvent::FrameRead(f) => a == NetAction::DecodeFrame(f),
            NetEvent::PacketDecoded => a == NetAction::ProcessPacket,
            NetEvent::OutgoingReady(p) => a matches NetAction::WriteFrame(b) && b@ == frame_bytes(p@),
            _ => a == NetAction::WaitForEvent,
        }
    }
}

/// The state of one run of the network loop.
#[derive(Debug, Clone, Copy, PartialEq, Eq, Structural)]
pub struct NetLoop {
    pub phase: LoopPhase,
}

impl NetLoop {
    /// Whether `event` can arrive in the current phase.
    pub fn accepts(&self, event: &NetEvent) -> (r: bool)
        ensures
            r == accepts_spec(self.phase, *event),
    {
        match self.phase {
            LoopPhase::Selecting => match event {
                NetEvent::FrameRead(_) | NetEvent::ReadFailed | NetEvent::StreamClosed
                | NetEvent::OutgoingReady(_) | NetEvent::OutgoingMissed
                | NetEvent::DisconnectRequested => true,
                _ => false,
            },
            LoopPhase::Decoding => match event {
                NetEvent::PacketDecoded | NetEvent::DecodeFailed => true,
                _ => false,
            },
            LoopPhase::Writing => match event {
                NetEvent::WriteDone | NetEvent::WriteFailed => true,
                _ => false,
            },
            LoopPhase::Stopped => false,
        }
    }

    /// Answers an event with the next action and moves to the next phase.
    pub fn step(&mut self, event: NetEvent) -> (a: NetAction)
        requires
            accepts_spec(old(self).phase, event),
        ensures
            final(self).phase == next_phase(old(self).phase, event),
            action_spec(event, a),
    {
        match event {
            NetEvent::FrameRead(f) => {
                self.phase = LoopPhase::Decoding;
                NetAction::DecodeFrame(f)
            },
            NetEvent::PacketDecoded => {
                self.phase = LoopPhase::Selecting;
                NetAction::ProcessPacket
            },
            NetEvent::OutgoingReady(p) => {
                match encode_frame(p.as_slice()) {
                    Ok(bytes) => {
                        self.phase = LoopPhase::Writing;
                        NetAction::WriteFrame(bytes)
                    },
                    Err(_) => {
                        self.phase = LoopPhase::Stopped;
                        NetAction::Stop
                    },
                }
            },
            NetEvent::OutgoingMissed | NetEvent::WriteDone => {
                self.phase = LoopPhase::Selecting;
                NetAction::WaitForEvent
            },
            NetEvent::ReadFailed | NetEvent::StreamClosed | NetEvent::DecodeFailed
            | NetEvent::WriteFailed | NetEvent::DisconnectRequested => {
                self.phase = LoopPhase::Stopped;
                NetAction::Stop
            },
        }
    }
}


/// The loop ends on an accepted event exactly when that event is one of
/// the ending events; every other event keeps it going.
pub proof fn law_loop_ends_exactly_on_ending_events(phase: LoopPhase, event: NetEvent)
    requires
        accepts_spec(phase, event),
    ensures
        (next_phase(phase, event) == LoopPhase::Stopped) <==> ends_loop(event),
{
}

/// Once the loop has stopped, no event is handled any more.
pub proof fn law_stopped_loop_takes_no_event(event: NetEvent)
    ensures
        !accepts_spec(LoopPhase::Stopped, event),
{
}

/// A packet that the loop writes reaches the server as one frame that
/// decodes back to the packet (for packets that decoding accepts back).
pub proof fn law_written_packet_decodes_back(packet: Vec<u8>, a: NetAction)
    requires
        packet@.len() + 4 <= MAX_FRAME_LENGTH,
        action_spec(NetEvent::OutgoingReady(packet), a),
    ensures
        a matches NetAction::WriteFrame(bytes) && decode_spec(bytes@)
            == Ok::<Option<(Seq<u8>, nat)>, FrameError>(Some((packet@, (packet@.len() + 4) as nat))),
{
    law_frame_roundtrip(packet@, Seq::<u8>::empty());
    assert(frame_bytes(packet@) + Seq::<u8>::empty() == frame_bytes(packet@));
}


/// While the loop waits for events it takes everything that its three
/// sources can yield: any frame, a failed or closed stream, any outgoing
/// packet, a failed receive from the outgoing queue, and the disconnect
/// signal.
pub proof fn law_waiting_loop_takes_every_source_event()
    ensures
        forall|f: Vec<u8>| #[trigger] accepts_spec(LoopPhase::Selecting, NetEvent::FrameRead(f)),
        forall|p: Vec<u8>| #[trigger] accepts_spec(LoopPhase::Selecting, NetEvent::OutgoingReady(p)),
        accepts_spec(LoopPhase::Selecting, NetEvent::ReadFailed),
        accepts_spec(LoopPhase::Selecting, NetEvent::StreamClosed),
        accepts_spec(LoopPhase::Selecting, NetEvent::OutgoingMissed),
        accepts_spec(LoopPhase::Selecting, NetEvent::DisconnectRequested),
{
}

/// After each action the loop takes exactly the outcomes of that action:
/// after `DecodeFrame` the decode's success or failure, after `WriteFrame`
/// the write's completion or failure (and a failed write ends the loop, a
/// completed one goes back to waiting), after `ProcessPacket` or
/// `WaitForEvent` every event of the three sources, and after `Stop`
/// nothing.
pub proof fn law_next_phase_takes_action_outcomes(phase: LoopPhase, event: NetEvent, a: NetAction)
    requires
        accepts_spec(phase, event),
        action_spec(event, a),
    ensures
        a is DecodeFrame ==> accepts_spec(next_phase(phase, event), NetEvent::PacketDecoded)
            && accepts_spec(next_phase(phase, event), NetEvent::DecodeFailed)
            && next_phase(next_phase(phase, event), NetEvent::DecodeFailed) == LoopPhase::Stopped,
        a is WriteFrame ==> accepts_spec(next_phase(phase, event), NetEvent::WriteDone)
            && accepts_spec(next_phase(phase, event), NetEvent::WriteFailed)
            && next_phase(next_phase(phase, event), NetEvent::WriteFailed) == LoopPhase::Stopped
            && next_phase(next_phase(phase, event), NetEvent::WriteDone) == LoopPhase::Selecting,
        (a is ProcessPacket || a is WaitForEvent) ==> {
            &&& forall|f: Vec<u8>| #[trigger] accepts_spec(next_phase(phase, event), NetEvent::FrameRead(f))
            &&& forall|p: Vec<u8>| #[trigger] accepts_spec(next_phase(phase, event), NetEvent::OutgoingReady(p))
            &&& accepts_spec(next_phase(phase, event), NetEvent::ReadFailed)
            &&& accepts_spec(next_phase(phase, event), NetEvent::StreamClosed)
            &&& accepts_spec(next_phase(phase, event), NetEvent::OutgoingMissed)
            &&& accepts_spec(next_phase(phase, event), NetEvent::DisconnectRequested)
        },
        a is Stop ==> forall|e: NetEvent| !#[trigger] accepts_spec(next_phase(phase, event), e),
{
}

/// An outgoing packet that can be encoded is written, and the loop then
/// waits for the write's outcome: a completed write goes back to waiting
/// for events, a failed one ends the loop.
pub proof fn law_outgoing_packet_awaits_write(p: Vec<u8>, a: NetAction)
    requires
        p@.len() <= MAX_FRAME_LENGTH,
        action_spec(NetEvent::OutgoingReady(p), a),
    ensures
        a matches NetAction::WriteFrame(bytes) && bytes@ == frame_bytes(p@),
        next_phase(LoopPhase::Selecting, NetEvent::OutgoingReady(p)) == LoopPhase::Writing,
        accepts_spec(LoopPhase::Writing, NetEvent::WriteDone),
        accepts_spec(LoopPhase::Writing, NetEvent::WriteFailed),
        next_phase(LoopPhase::Writing, NetEvent::WriteDone) == LoopPhase::Selecting,
        next_phase(LoopPhase::Writing, NetEvent::WriteFailed) == LoopPhase::Stopped,
{
}

/// The event that reading the stream gives once the frame buffer has been
/// asked for its next frame: a whole frame, a failed read on a bad length
/// field, or none yet (more bytes must be read).
pub fn frame_event(next: Result<Option<Vec<u8>>, FrameError>) -> (r: Option<NetEvent>)
    ensures
        match next {
            Ok(Some(f)) => r == Some(NetEvent::FrameRead(f)),
            Ok(None) => r is None,
            Err(_) => r == Some(NetEvent::ReadFailed),
        },
{
    match next {
        Ok(Some(f)) => Some(NetEvent::FrameRead(f)),
        Ok(None) => None,
        Err(_) => Some(NetEvent::ReadFailed),
    }
}

/// The event at the end of the stream: a clean close when no bytes of a
/// partial frame are left, else a failed read.
pub fn end_of_stream_event(buf: &FrameBuffer) -> (r: NetEvent)
    ensures
        buf@.len() == 0 ==> r == NetEvent::StreamClosed,
        buf@.len() > 0 ==> r == NetEvent::ReadFailed,
{
    if buf.len() == 0 {
        NetEvent::StreamClosed
    } else {
        NetEvent::ReadFailed
    }
}

/// The action that answers an accepted event other than an outgoing packet.
pub open spec fn inbound_action(event: NetEvent) -> NetAction {
    if ends_loop(event) {
        NetAction::Stop
    } else {
        match event {
            NetEvent::FrameRead(f) => NetAction::DecodeFrame(f),
            NetEvent::PacketDecoded => NetAction::ProcessPacket,
            _ => NetAction::WaitForEvent,
        }
    }
}

/// `step` answers every accepted event other than an outgoing packet with
/// exactly `inbound_action`.
pub proof fn law_step_answers_inbound_action(phase: LoopPhase, event: NetEvent, a: NetAction)
    requires
        accepts_spec(phase, event),
        !(event is OutgoingReady),
        action_spec(event, a),
    ensures
        a == inbound_action(event),
{
}

/// The phase and the actions of the loop after a run of events that hold no
/// outgoing packet, or `None` when one of them cannot arrive in its turn.
pub open spec fn inbound_run(phase: LoopPhase, events: Seq<NetEvent>) -> Option<(LoopPhase, Seq<NetAction>)>
    decreases events.len(),
{
    if events.len() == 0 {
        Some((phase, Seq::empty()))
    } else if !accepts_spec(phase, events[0]) || events[0] is OutgoingReady {
        None
    } else {
        match inbound_run(next_phase(phase, events[0]), events.drop_first()) {
            Some((p, actions)) => Some((p, seq![inbound_action(events[0])] + actions)),
            None => None,
        }
    }
}

/// The events of a stream that yields `frames`, each decoding into a packet.
pub open spec fn frame_events(frames: Seq<Vec<u8>>) -> Seq<NetEvent>
    decreases frames.len(),
{
    if frames.len() == 0 {
        Seq::empty()
    } else {
        seq![NetEvent::FrameRead(frames[0]), NetEvent::PacketDecoded] + frame_events(frames.drop_first())
    }
}

/// Decode each frame, then process its packet, frame after frame.
pub open spec fn frame_actions(frames: Seq<Vec<u8>>) -> Seq<NetAction>
    decreases frames.len(),
{
    if frames.len() == 0 {
        Seq::empty()
    } else {
        seq![NetAction::DecodeFrame(frames[0]), NetAction::ProcessPacket] + frame_actions(frames.drop_first())
    }
}

proof fn lemma_frame_events_run(frames: Seq<Vec<u8>>, rest: Seq<NetEvent>)
    ensures
        inbound_run(LoopPhase::Selecting, frame_events(frames) + rest) == match inbound_run(LoopPhase::Selecting, rest) {
            Some((p, actions)) => Some((p, frame_actions(frames) + actions)),
            None => None::<(LoopPhase, Seq<NetAction>)>,
        },
    decreases frames.len(),
{
    if frames.len() == 0 {
        assert(frame_events(frames) + rest =~= rest);
        match inbound_run(LoopPhase::Selecting, rest) {
            Some((p, actions)) => {
                assert(frame_actions(frames) + actions =~= actions);
            },
            None => {},
        }
    } else {
        let f = frames[0];
        let tail = frames.drop_first();
        lemma_frame_events_run(tail, rest);
        let evs = frame_events(frames) + rest;
        let after_first = frame_events(tail) + rest;
        assert(evs =~= seq![NetEvent::FrameRead(f), NetEvent::PacketDecoded] + after_first);
        assert(evs[0] == NetEvent::FrameRead(f));
        assert(evs.drop_first() =~= seq![NetEvent::PacketDecoded] + after_first);
        assert(evs.drop_first()[0] == NetEvent::PacketDecoded);
        assert(evs.drop_first().drop_first() =~= after_first);
        assert(next_phase(LoopPhase::Selecting, NetEvent::FrameRead(f)) == LoopPhase::Decoding);
        assert(next_phase(LoopPhase::Decoding, NetEvent::PacketDecoded) == LoopPhase::Selecting);
        assert(inbound_action(NetEvent::FrameRead(f)) == NetAction::DecodeFrame(f));
        assert(inbound_action(NetEvent::PacketDecoded) == NetAction::ProcessPacket);
        let second = inbound_run(LoopPhase::Decoding, evs.drop_first());
        assert(second == match inbound_run(LoopPhase::Selecting, after_first) {
            Some((p, actions)) => Some((p, seq![NetAction::ProcessPacket] + actions)),
            None => None::<(LoopPhase, Seq<NetAction>)>,
        });
        assert(inbound_run(LoopPhase::Selecting, evs) == match second {
            Some((p, actions)) => Some((p, seq![NetAction::DecodeFrame(f)] + actions)),
            None => None::<(LoopPhase, Seq<NetAction>)>,
        });
        assert(frame_actions(frames) == seq![NetAction::DecodeFrame(f), NetAction::ProcessPacket] + frame_actions(tail));
        match inbound_run(LoopPhase::Selecting, rest) {
            Some((p, actions)) => {
                assert(frame_actions(frames) + actions =~= seq![NetAction::DecodeFrame(f)]
                    + (seq![NetAction::ProcessPacket] + (frame_actions(tail) + actions)));
            },
            None => {},
        }
    }
}

/// When the stream yields frames that each decode into a packet and then
/// closes, the loop decodes every frame and processes its packet before the
/// next frame, in the order of the stream, skipping none and taking none
/// twice, and stops at the close.
pub proof fn law_frames_processed_in_order(frames: Seq<Vec<u8>>)
    ensures
        inbound_run(LoopPhase::Selecting, frame_events(frames).push(NetEvent::StreamClosed))
            == Some((LoopPhase::Stopped, frame_actions(frames).push(NetAction::Stop))),
{
    let rest = seq![NetEvent::StreamClosed];
    lemma_frame_events_run(frames, rest);
    assert(frame_events(frames).push(NetEvent::StreamClosed) =~= frame_events(frames) + rest);
    assert(rest.drop_first() =~= Seq::<NetEvent>::empty());
    assert(inbound_run(LoopPhase::Stopped, rest.drop_first()) == Some((LoopPhase::Stopped, Seq::<NetAction>::empty())));
    assert(inbound_run(LoopPhase::Selecting, rest) == Some((LoopPhase::Stopped, seq![NetAction::Stop] + Seq::<NetAction>::empty())));
    assert(frame_actions(frames) + (seq![NetAction::Stop] + Seq::<NetAction>::empty()) =~= frame_actions(frames).push(NetAction::Stop));
}

} // verus!
