use touch_proxy::framer::{adx_packet, alls_packet, read_packet, ReadFault};
use touch_proxy::relay::{ends_session, relay_decision, watch_fault, watch_frame, RelayAction, WatchAction};
use touch_proxy::touchbuffer::TouchBuffer;

#[test]
fn config_exchange_is_relayed() {
    let mut command = Vec::new();
    read_packet(&mut command, b"{cfgX}", &alls_packet());
    let to_sensor = command.clone();
    assert_eq!(to_sensor, b"{cfgX}".to_vec());
    assert_eq!(relay_decision(&command), RelayAction::ForwardReply);
    let mut reply = Vec::new();
    read_packet(&mut reply, b"(ok)", &adx_packet());
    assert_eq!(reply, b"(ok)".to_vec());
}

#[test]
fn stat_streams_until_halt() {
    let mut command = Vec::new();
    read_packet(&mut command, b"{STAT}", &alls_packet());
    assert_eq!(relay_decision(&command), RelayAction::StartStreaming);

    let mut slot = TouchBuffer::default();
    let sensor = b"(1234567)(1234567)(1234567)";
    let mut pos = 0;
    let mut frame = Vec::new();
    let mut shown = Vec::new();
    while pos < sensor.len() {
        pos += read_packet(&mut frame, &sensor[pos..], &adx_packet());
        slot.store(&frame);
        slot.load(&mut shown);
        assert_eq!(shown, b"(1234567)".to_vec());
    }

    let mut watched = Vec::new();
    read_packet(&mut watched, b"{HALT}", &alls_packet());
    let action = watch_frame(&watched);
    assert_eq!(action, WatchAction::Halt);
    assert!(ends_session(action));
}

#[test]
fn halt_and_reset_need_no_reply() {
    assert_eq!(relay_decision(&b"{HALT}".to_vec()), RelayAction::Idle);
    assert_eq!(relay_decision(&b"{RSET}".to_vec()), RelayAction::Idle);
}

#[test]
fn watcher_ignores_other_frames_and_timeouts() {
    assert_eq!(watch_frame(&b"{STAT}".to_vec()), WatchAction::KeepWatching);
    assert_eq!(watch_fault(ReadFault::TimedOut), WatchAction::KeepWatching);
    assert_eq!(watch_fault(ReadFault::Other), WatchAction::Stop);
    assert!(!ends_session(WatchAction::KeepWatching));
    assert!(ends_session(WatchAction::Stop));
}
