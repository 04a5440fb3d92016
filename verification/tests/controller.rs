use motion_link::joints::{absorb_reports, all_distinct, find_slot};
use motion_link::link::{
    accept_message, connect_step, exchange_step, socket_open_step, ConnectStep, ExchangeStep,
    Incoming, Link, LinkError, LinkKind, OpenStep, SocketState,
};
use motion_link::motion::{Action, ControlError, Controller, Event, Phase};
use motion_link::packet::{
    build_status, build_sync_current_request, build_sync_write_position,
    build_sync_write_torque, DecodeError, StatusReport,
};

const IDS: [u8; 8] = [11, 12, 13, 14, 15, 16, 17, 18];

fn reply_with(base: i32) -> Vec<u8> {
    let mut reply = Vec::new();
    for (k, id) in IDS.iter().enumerate() {
        reply.extend(build_status(*id, 0, base + k as i32));
    }
    reply
}

fn connected() -> Controller {
    let mut controller = Controller::new(IDS.to_vec(), 2048).unwrap();
    controller.connect();
    controller
}

/// Records `count` frames, the k-th holding `k + j` for joint `j`.
fn recorded(count: usize) -> Controller {
    let mut controller = connected();
    let mut action = controller.record(None, 0).unwrap();
    let mut taken = 0;
    while taken < count {
        match action {
            Action::Exchange { .. } => {
                action = controller.advance(Event::Reply(reply_with(taken as i32)), 0);
                taken += 1;
            }
            Action::Pause { .. } => {
                action = controller.advance(Event::Completed, 0);
            }
            _ => panic!("recording ended too early"),
        }
    }
    controller.stop();
    assert_eq!(controller.advance(Event::Completed, 0), Action::Finished);
    assert_eq!(controller.phase(), Phase::Connected);
    controller
}

/// Drives a replay to its end and returns the packets written; a stop is
/// asked for after `stop_after` position writes, if given.
fn replayed(
    controller: &mut Controller,
    stop_after: Option<usize>,
    fail_writes: bool,
) -> Vec<Vec<u8>> {
    let mut written = Vec::new();
    let mut action = controller.replay().unwrap();
    let mut turns = 0;
    loop {
        turns += 1;
        assert!(turns < 100_000);
        match action {
            Action::Transmit { packet } => {
                written.push(packet);
                if stop_after == Some(written.len() - 1) {
                    controller.stop();
                }
                let event = if fail_writes { Event::Failed } else { Event::Completed };
                action = controller.advance(event, 0);
            }
            Action::Exchange { .. } => panic!("a replay reads nothing"),
            Action::Pause { ms } => {
                assert_eq!(ms, 20);
                action = controller.advance(Event::Completed, 0);
            }
            Action::Finished => break,
        }
    }
    written
}

#[test]
fn new_controller_is_idle() {
    let controller = Controller::new(IDS.to_vec(), 2048).unwrap();
    assert_eq!(controller.phase(), Phase::Idle);
    assert_eq!(controller.ids(), &IDS.to_vec());
    assert_eq!(controller.joints(), &vec![2048; 8]);
    assert_eq!(controller.frame_count(), 0);
    assert!(!controller.stop_requested());
    assert!(controller.reports().is_empty());
}

#[test]
fn motor_ids_must_differ() {
    assert!(Controller::new(vec![], 0).is_some());
    assert!(Controller::new((0..=255).collect(), 0).is_some());
    assert!(Controller::new(vec![11, 12, 11], 0).is_none());
    assert!(Controller::new(vec![7; 13106], 0).is_none());
    assert!(all_distinct(&IDS));
    assert!(!all_distinct(&[1, 2, 3, 2]));
}

#[test]
fn nothing_is_written_before_connect() {
    let mut controller = Controller::new(IDS.to_vec(), 2048).unwrap();
    assert_eq!(controller.torque_on(), Err(ControlError::NotConnected));
    assert_eq!(controller.torque_off(), Err(ControlError::NotConnected));
    assert_eq!(controller.record(Some(1000), 0), Err(ControlError::NotConnected));
    assert_eq!(controller.replay(), Err(ControlError::NotConnected));
    assert_eq!(controller.phase(), Phase::Idle);
    assert_eq!(controller.advance(Event::Completed, 0), Action::Finished);
    let mut link = Link::new();
    assert_eq!(link.begin_write(), Err(LinkError::NotConnected));
    assert_eq!(link.begin_read(), Err(LinkError::NotConnected));
}

#[test]
fn torque_commands_when_connected() {
    let controller = connected();
    assert_eq!(controller.torque_on(), Ok(build_sync_write_torque(&IDS, true)));
    assert_eq!(controller.torque_off(), Ok(build_sync_write_torque(&IDS, false)));
}

#[test]
fn disconnect_returns_to_idle() {
    let mut controller = connected();
    assert_eq!(controller.phase(), Phase::Connected);
    controller.disconnect();
    assert_eq!(controller.phase(), Phase::Idle);
    assert_eq!(controller.torque_on(), Err(ControlError::NotConnected));
}

#[test]
fn record_starts_with_a_position_request() {
    let mut controller = connected();
    let action = controller.record(Some(1000), 5).unwrap();
    assert_eq!(
        action,
        Action::Exchange { packet: build_sync_current_request(&IDS), settle_ms: 10 }
    );
    assert_eq!(controller.phase(), Phase::Polling);
    assert_eq!(controller.record(None, 6), Err(ControlError::Busy));
    assert_eq!(controller.replay(), Err(ControlError::Busy));
}

#[test]
fn record_appends_each_decoded_frame() {
    let controller = recorded(3);
    assert_eq!(controller.frame_count(), 3);
    assert_eq!(controller.frame(0), Some(&vec![0, 1, 2, 3, 4, 5, 6, 7]));
    assert_eq!(controller.frame(2), Some(&vec![2, 3, 4, 5, 6, 7, 8, 9]));
    assert_eq!(controller.frame(3), None);
    assert_eq!(controller.joints(), &vec![2, 3, 4, 5, 6, 7, 8, 9]);
}

#[test]
fn record_clears_the_buffer() {
    let mut controller = recorded(3);
    controller.record(None, 0).unwrap();
    assert_eq!(controller.frame_count(), 0);
    assert!(!controller.stop_requested());
}

#[test]
fn record_for_one_second_at_ten_milliseconds() {
    let mut controller = connected();
    let mut now: u64 = 500;
    let mut action = controller.record(Some(1000), now).unwrap();
    loop {
        match action {
            Action::Exchange { .. } => {
                action = controller.advance(Event::Reply(reply_with(0)), now);
            }
            Action::Pause { ms } => {
                assert_eq!(ms, 10);
                now += ms as u64;
                action = controller.advance(Event::Completed, now);
            }
            Action::Finished => break,
            Action::Transmit { .. } => panic!("a recording writes no command"),
        }
    }
    assert_eq!(controller.frame_count(), 100);
    assert_eq!(controller.phase(), Phase::Connected);
}

#[test]
fn record_skips_a_failed_exchange() {
    let mut controller = connected();
    controller.record(None, 0).unwrap();
    let action = controller.advance(Event::Failed, 3);
    assert_eq!(
        action,
        Action::Exchange { packet: build_sync_current_request(&IDS), settle_ms: 10 }
    );
    assert_eq!(controller.frame_count(), 0);
    assert_eq!(controller.phase(), Phase::Polling);
    controller.stop();
    assert_eq!(controller.advance(Event::Failed, 4), Action::Finished);
    assert_eq!(controller.phase(), Phase::Connected);
}

#[test]
fn record_keeps_going_over_a_damaged_region() {
    let mut controller = connected();
    controller.record(None, 0).unwrap();
    let mut reply = reply_with(100);
    reply[15 + 9] ^= 0x01;
    let action = controller.advance(Event::Reply(reply), 0);
    assert_eq!(action, Action::Pause { ms: 10 });
    assert_eq!(controller.joints(), &vec![100, 2048, 102, 103, 104, 105, 106, 107]);
    assert_eq!(controller.frame_count(), 1);
    let reports = controller.reports();
    assert_eq!(reports.len(), 8);
    assert_eq!(reports[0], Ok(StatusReport { id: 11, value: 100, error: 0 }));
    assert_eq!(reports[1], Err(DecodeError::ChecksumMismatch));
    assert_eq!(reports[7], Ok(StatusReport { id: 18, value: 107, error: 0 }));
}

#[test]
fn record_stops_at_the_next_pause() {
    let mut controller = connected();
    controller.record(None, 0).unwrap();
    controller.stop();
    assert!(controller.stop_requested());
    assert_eq!(controller.advance(Event::Reply(reply_with(0)), 0), Action::Pause { ms: 10 });
    assert_eq!(controller.advance(Event::Completed, 10), Action::Finished);
    assert_eq!(controller.frame_count(), 1);
}

#[test]
fn reports_are_stored_by_motor_id() {
    let mut joints = vec![0; 3];
    let mut reply = build_status(30, 0, 7);
    reply.extend(build_status(10, 0, 5));
    reply.extend(build_status(99, 0, 1));
    let reports = absorb_reports(&mut joints, &[10, 20, 30], &reply);
    assert_eq!(joints, vec![5, 0, 7]);
    assert_eq!(reports.len(), 3);
    assert_eq!(reports[2], Ok(StatusReport { id: 99, value: 1, error: 0 }));
}

#[test]
fn short_reply_leaves_the_rest_untouched() {
    let mut joints = vec![1, 2, 3];
    let reply = build_status(10, 0, 5);
    let reports = absorb_reports(&mut joints, &[10, 20, 30], &reply);
    assert_eq!(joints, vec![5, 2, 3]);
    assert_eq!(reports[1], Err(DecodeError::Truncated));
    assert_eq!(reports[2], Err(DecodeError::Truncated));
}

#[test]
fn slot_of_a_motor() {
    assert_eq!(find_slot(&IDS, 11), 0);
    assert_eq!(find_slot(&IDS, 18), 7);
    assert_eq!(find_slot(&IDS, 10), 8);
    assert_eq!(find_slot(&[5, 5], 5), 0);
    assert_eq!(find_slot(&[], 5), 0);
}

#[test]
fn replay_writes_every_frame_then_torque_off() {
    let mut controller = recorded(5);
    let written = replayed(&mut controller, None, false);
    assert_eq!(written.len(), 7);
    assert_eq!(written[0], build_sync_write_torque(&IDS, true));
    for k in 0..5 {
        assert_eq!(written[k + 1], build_sync_write_position(&IDS, controller.frame(k).unwrap()));
    }
    assert_eq!(written[6], build_sync_write_torque(&IDS, false));
    assert_eq!(controller.phase(), Phase::Connected);
    assert_eq!(controller.frame_count(), 5);
}

#[test]
fn replay_of_a_hundred_frames() {
    let mut controller = recorded(100);
    let written = replayed(&mut controller, None, false);
    assert_eq!(written.len(), 102);
    assert_eq!(written[101], build_sync_write_torque(&IDS, false));
}

#[test]
fn stopped_replay_still_ends_with_torque_off() {
    for stop_after in 0..6 {
        let mut controller = recorded(5);
        let written = replayed(&mut controller, Some(stop_after), false);
        let frames = if stop_after == 0 { 1 } else { stop_after };
        assert_eq!(written.len(), frames + 2);
        assert_eq!(written[written.len() - 1], build_sync_write_torque(&IDS, false));
        assert_eq!(controller.phase(), Phase::Connected);
    }
}

#[test]
fn replay_of_an_empty_buffer() {
    let mut controller = connected();
    let written = replayed(&mut controller, None, false);
    assert_eq!(
        written,
        vec![build_sync_write_torque(&IDS, true), build_sync_write_torque(&IDS, false)]
    );
}

#[test]
fn replay_goes_on_over_failed_writes() {
    let mut controller = recorded(4);
    let written = replayed(&mut controller, None, true);
    assert_eq!(written.len(), 6);
    assert_eq!(written[5], build_sync_write_torque(&IDS, false));
}

#[test]
fn socket_is_tried_first() {
    assert_eq!(connect_step(None, false), ConnectStep::Try(LinkKind::Socket));
    assert_eq!(connect_step(None, true), ConnectStep::Try(LinkKind::Socket));
    assert_eq!(
        connect_step(Some(LinkKind::Socket), true),
        ConnectStep::Established(LinkKind::Socket)
    );
    assert_eq!(connect_step(Some(LinkKind::Socket), false), ConnectStep::Try(LinkKind::Serial));
    assert_eq!(
        connect_step(Some(LinkKind::Serial), true),
        ConnectStep::Established(LinkKind::Serial)
    );
    assert_eq!(connect_step(Some(LinkKind::Serial), false), ConnectStep::Failed);
}

#[test]
fn opening_socket() {
    assert_eq!(socket_open_step(SocketState::Connecting), OpenStep::Wait(10));
    assert_eq!(socket_open_step(SocketState::Open), OpenStep::Ready);
    assert_eq!(socket_open_step(SocketState::Closing), OpenStep::Fail(LinkError::Closing));
    assert_eq!(socket_open_step(SocketState::Closed), OpenStep::Fail(LinkError::Closed));
}

#[test]
fn only_binary_messages_are_read() {
    assert_eq!(accept_message(Incoming::Bytes(vec![1, 2, 3])), Ok(vec![1, 2, 3]));
    assert_eq!(accept_message(Incoming::Text), Err(LinkError::UnexpectedMessage));
    assert_eq!(accept_message(Incoming::End), Err(LinkError::Closed));
}

#[test]
fn socket_directions_lock_apart() {
    let mut link = Link::new();
    link.open(LinkKind::Socket);
    assert_eq!(link.kind(), Some(LinkKind::Socket));
    assert_eq!(link.begin_read(), Ok(()));
    assert_eq!(link.begin_write(), Ok(()));
    assert_eq!(link.begin_read(), Err(LinkError::Busy));
    assert_eq!(link.begin_write(), Err(LinkError::Busy));
    link.end_read();
    assert_eq!(link.begin_read(), Ok(()));
    assert_eq!(link.begin_write(), Err(LinkError::Busy));
    link.end_write();
    assert_eq!(link.begin_write(), Ok(()));
}

#[test]
fn serial_has_no_locks() {
    let mut link = Link::new();
    link.open(LinkKind::Serial);
    assert_eq!(link.begin_read(), Ok(()));
    assert_eq!(link.begin_read(), Ok(()));
    assert_eq!(link.begin_write(), Ok(()));
    assert_eq!(link.begin_write(), Ok(()));
}

#[test]
fn close_is_idempotent() {
    let mut link = Link::new();
    link.open(LinkKind::Socket);
    assert_eq!(link.begin_read(), Ok(()));
    link.close();
    assert_eq!(link.kind(), None);
    assert_eq!(link.begin_read(), Err(LinkError::NotConnected));
    link.close();
    assert_eq!(link.kind(), None);
    link.open(LinkKind::Serial);
    assert_eq!(link.begin_read(), Ok(()));
}

#[test]
fn record_without_time_takes_no_frame() {
    let mut controller = connected();
    controller.record(Some(0), 100).unwrap();
    assert_eq!(controller.advance(Event::Reply(reply_with(7)), 100), Action::Finished);
    assert_eq!(controller.frame_count(), 0);
    assert_eq!(controller.joints(), &vec![7, 8, 9, 10, 11, 12, 13, 14]);
    assert_eq!(controller.phase(), Phase::Connected);
}

#[test]
fn clock_that_goes_back_does_not_end_a_recording() {
    let mut controller = connected();
    controller.record(Some(50), 1000).unwrap();
    assert_eq!(controller.advance(Event::Reply(reply_with(0)), 10), Action::Pause { ms: 10 });
    assert_eq!(controller.frame_count(), 1);
}

#[test]
fn recording_ends_when_time_is_up_even_without_replies() {
    let mut controller = connected();
    controller.record(Some(50), 1000).unwrap();
    assert_eq!(
        controller.advance(Event::Failed, 1049),
        Action::Exchange { packet: build_sync_current_request(&IDS), settle_ms: 10 }
    );
    assert_eq!(controller.advance(Event::Failed, 1050), Action::Finished);
    assert_eq!(controller.phase(), Phase::Connected);
}

#[test]
fn connect_leaves_a_running_loop_alone() {
    let mut controller = connected();
    controller.record(None, 0).unwrap();
    controller.connect();
    assert_eq!(controller.phase(), Phase::Polling);
    assert_eq!(controller.torque_off(), Ok(build_sync_write_torque(&IDS, false)));
}

#[test]
fn replay_clears_an_earlier_stop() {
    let mut controller = recorded(3);
    assert!(controller.stop_requested());
    let written = replayed(&mut controller, None, false);
    assert_eq!(written.len(), 5);
}

#[test]
fn replay_steps_in_order() {
    let mut controller = recorded(2);
    assert_eq!(
        controller.replay(),
        Ok(Action::Transmit { packet: build_sync_write_torque(&IDS, true) })
    );
    assert_eq!(controller.phase(), Phase::Engaging);
    let first = build_sync_write_position(&IDS, &[0, 1, 2, 3, 4, 5, 6, 7]);
    assert_eq!(controller.advance(Event::Completed, 0), Action::Transmit { packet: first });
    assert_eq!(controller.phase(), Phase::Streaming);
    assert_eq!(controller.advance(Event::Completed, 0), Action::Pause { ms: 20 });
    assert_eq!(controller.phase(), Phase::Spacing);
    let second = build_sync_write_position(&IDS, &[1, 2, 3, 4, 5, 6, 7, 8]);
    assert_eq!(controller.advance(Event::Completed, 0), Action::Transmit { packet: second });
    assert_eq!(controller.advance(Event::Completed, 0), Action::Pause { ms: 20 });
    assert_eq!(
        controller.advance(Event::Completed, 0),
        Action::Transmit { packet: build_sync_write_torque(&IDS, false) }
    );
    assert_eq!(controller.phase(), Phase::Releasing);
    assert_eq!(controller.advance(Event::Completed, 0), Action::Finished);
    assert_eq!(controller.phase(), Phase::Connected);
}

#[test]
fn losing_the_link_ends_a_replay() {
    let mut controller = recorded(2);
    controller.replay().unwrap();
    controller.disconnect();
    assert_eq!(controller.advance(Event::Failed, 0), Action::Finished);
    assert_eq!(controller.phase(), Phase::Idle);
    assert_eq!(controller.frame_count(), 2);
}

#[test]
fn exchange_writes_waits_and_reads() {
    assert_eq!(exchange_step(None, true), ExchangeStep::Write);
    assert_eq!(exchange_step(None, false), ExchangeStep::Write);
    assert_eq!(exchange_step(Some(ExchangeStep::Write), true), ExchangeStep::Wait(10));
    assert_eq!(exchange_step(Some(ExchangeStep::Wait(10)), true), ExchangeStep::Read);
    assert_eq!(exchange_step(Some(ExchangeStep::Read), true), ExchangeStep::Done);
    assert_eq!(exchange_step(Some(ExchangeStep::Done), true), ExchangeStep::Done);
    assert_eq!(exchange_step(Some(ExchangeStep::Done), false), ExchangeStep::Done);
}

#[test]
fn failed_step_ends_the_exchange() {
    assert_eq!(exchange_step(Some(ExchangeStep::Write), false), ExchangeStep::Abort);
    assert_eq!(exchange_step(Some(ExchangeStep::Wait(10)), false), ExchangeStep::Abort);
    assert_eq!(exchange_step(Some(ExchangeStep::Read), false), ExchangeStep::Abort);
    assert_eq!(exchange_step(Some(ExchangeStep::Abort), true), ExchangeStep::Abort);
}
