use esp_qq_bot::client::{
    end_of_stream_event, frame_event, start_heartbeat, Client, ClientAction, LoopPhase, NetAction, NetEvent,
    NetLoop,
};
use esp_qq_bot::frame::{decode_frame, encode_frame, FrameBuffer, FrameError, MAX_FRAME_LENGTH};

#[test]
fn server_address_is_fixed() {
    let c = Client::new();
    let a = c.get_address();
    assert_eq!(a.octets, [42, 81, 176, 211]);
    assert_eq!(a.port, 443);
}

#[test]
fn new_client_is_idle() {
    let c = Client::new();
    assert!(!c.running);
    assert!(!c.heartbeat_enabled);
}

#[test]
fn start_then_stop() {
    let mut c = Client::new();
    let lp = c.start();
    assert!(c.running);
    assert_eq!(lp.phase, LoopPhase::Selecting);
    assert_eq!(c.stop(), ClientAction::SpawnDisconnectSignal);
    assert!(!c.running);
}

#[test]
fn stop_keeps_heartbeat_flag() {
    let mut c = Client { running: true, heartbeat_enabled: true };
    c.stop();
    assert!(!c.running);
    assert!(c.heartbeat_enabled);
}

#[test]
fn disconnect_asks_for_signal() {
    let c = Client::new();
    assert_eq!(c.disconnect(), ClientAction::SpawnDisconnectSignal);
}

#[test]
fn heartbeat_spawned_only_when_not_enabled() {
    assert!(start_heartbeat(&Client { running: true, heartbeat_enabled: false }));
    assert!(!start_heartbeat(&Client { running: true, heartbeat_enabled: true }));
}

fn selecting() -> NetLoop {
    NetLoop { phase: LoopPhase::Selecting }
}

#[test]
fn frame_goes_to_decoding_then_processing() {
    let mut lp = selecting();
    assert_eq!(lp.step(NetEvent::FrameRead(vec![1, 2])), NetAction::DecodeFrame(vec![1, 2]));
    assert_eq!(lp.phase, LoopPhase::Decoding);
    assert_eq!(lp.step(NetEvent::PacketDecoded), NetAction::ProcessPacket);
    assert_eq!(lp.phase, LoopPhase::Selecting);
}

#[test]
fn decode_failure_stops() {
    let mut lp = NetLoop { phase: LoopPhase::Decoding };
    assert_eq!(lp.step(NetEvent::DecodeFailed), NetAction::Stop);
    assert_eq!(lp.phase, LoopPhase::Stopped);
}

#[test]
fn outgoing_packet_is_written_as_frame() {
    let mut lp = selecting();
    let a = lp.step(NetEvent::OutgoingReady(vec![5, 6, 7]));
    assert_eq!(a, NetAction::WriteFrame(vec![0, 0, 0, 7, 5, 6, 7]));
    assert_eq!(lp.phase, LoopPhase::Writing);
    if let NetAction::WriteFrame(bytes) = a {
        let f = decode_frame(&bytes).unwrap().unwrap();
        assert_eq!(f.payload, vec![5, 6, 7]);
    }
    assert_eq!(lp.step(NetEvent::WriteDone), NetAction::WaitForEvent);
    assert_eq!(lp.phase, LoopPhase::Selecting);
}

#[test]
fn oversized_outgoing_packet_stops() {
    let mut lp = selecting();
    assert_eq!(lp.step(NetEvent::OutgoingReady(vec![0; MAX_FRAME_LENGTH + 1])), NetAction::Stop);
    assert_eq!(lp.phase, LoopPhase::Stopped);
}

#[test]
fn write_failure_stops() {
    let mut lp = NetLoop { phase: LoopPhase::Writing };
    assert_eq!(lp.step(NetEvent::WriteFailed), NetAction::Stop);
    assert_eq!(lp.phase, LoopPhase::Stopped);
}

#[test]
fn missed_outgoing_keeps_waiting() {
    let mut lp = selecting();
    assert_eq!(lp.step(NetEvent::OutgoingMissed), NetAction::WaitForEvent);
    assert_eq!(lp.phase, LoopPhase::Selecting);
}

#[test]
fn ending_events_stop() {
    for e in [NetEvent::ReadFailed, NetEvent::StreamClosed, NetEvent::DisconnectRequested] {
        let mut lp = selecting();
        assert_eq!(lp.step(e), NetAction::Stop);
        assert_eq!(lp.phase, LoopPhase::Stopped);
    }
}

#[test]
fn accepts_by_phase() {
    let lp = selecting();
    assert!(lp.accepts(&NetEvent::FrameRead(vec![])));
    assert!(!lp.accepts(&NetEvent::PacketDecoded));
    assert!(!lp.accepts(&NetEvent::WriteDone));
    let dec = NetLoop { phase: LoopPhase::Decoding };
    assert!(dec.accepts(&NetEvent::DecodeFailed));
    assert!(!dec.accepts(&NetEvent::DisconnectRequested));
    let wr = NetLoop { phase: LoopPhase::Writing };
    assert!(wr.accepts(&NetEvent::WriteFailed));
    assert!(!wr.accepts(&NetEvent::OutgoingMissed));
    let st = NetLoop { phase: LoopPhase::Stopped };
    assert!(!st.accepts(&NetEvent::DisconnectRequested));
    assert!(!st.accepts(&NetEvent::FrameRead(vec![1])));
}

#[test]
fn finish_answers_stopped_loop_with_disconnect() {
    let c = Client::new();
    assert_eq!(c.finish(&NetLoop { phase: LoopPhase::Stopped }), Some(ClientAction::SpawnDisconnectSignal));
    assert_eq!(c.finish(&NetLoop { phase: LoopPhase::Selecting }), None);
    assert_eq!(c.finish(&NetLoop { phase: LoopPhase::Writing }), None);
}

#[test]
fn frame_events_from_buffer() {
    assert_eq!(frame_event(Ok(Some(vec![1]))), Some(NetEvent::FrameRead(vec![1])));
    assert_eq!(frame_event(Ok(None)), None);
    assert_eq!(frame_event(Err(FrameError::FrameTooBig)), Some(NetEvent::ReadFailed));
}

#[test]
fn end_of_stream_events() {
    let mut buf = FrameBuffer::new();
    assert_eq!(end_of_stream_event(&buf), NetEvent::StreamClosed);
    buf.extend(&[0, 0]);
    assert_eq!(end_of_stream_event(&buf), NetEvent::ReadFailed);
}

#[test]
fn three_frames_processed_in_order_then_close() {
    let mut bytes = Vec::new();
    for p in [&b"a"[..], &b"bb"[..], &b"ccc"[..]] {
        bytes.extend(encode_frame(p).unwrap());
    }
    let mut buf = FrameBuffer::new();
    buf.extend(&bytes);
    let mut lp = NetLoop { phase: LoopPhase::Selecting };
    let mut actions = Vec::new();
    loop {
        let ev = match frame_event(buf.next_frame()) {
            Some(e) => e,
            None => end_of_stream_event(&buf),
        };
        let a = lp.step(ev);
        let stop = a == NetAction::Stop;
        if let NetAction::DecodeFrame(_) = &a {
            actions.push(a);
            actions.push(lp.step(NetEvent::PacketDecoded));
        } else {
            actions.push(a);
        }
        if stop {
            break;
        }
    }
    assert_eq!(
        actions,
        vec![
            NetAction::DecodeFrame(b"a".to_vec()),
            NetAction::ProcessPacket,
            NetAction::DecodeFrame(b"bb".to_vec()),
            NetAction::ProcessPacket,
            NetAction::DecodeFrame(b"ccc".to_vec()),
            NetAction::ProcessPacket,
            NetAction::Stop,
        ]
    );
}
