use zeevonk::connection::ConnectionInformation;
use zeevonk::data::{Color, Data, ProtocolError};
use zeevonk::ingest::{handle_message, InboundMessage, WorkerAction};
use zeevonk::mailbox::{ChannelMessage, Mailbox};
use zeevonk::render::{next_frame, remaining_sleep, tick_nanos, to_driver_bytes};

fn message(id: u32, bytes: Vec<u8>) -> ChannelMessage {
    ChannelMessage {
        connection: ConnectionInformation::new(id, 1),
        data: Data::from_bytes_vec(bytes).unwrap(),
    }
}

#[test]
fn latest_wins_between_two_consumer_reads() {
    let mut mailbox = Mailbox::new();
    let f1 = message(0, vec![1, 2, 3]);
    let f2 = message(1, vec![4, 5, 6]);
    mailbox.put(f1);
    mailbox.put(f2.clone());
    // Only the later write is ever observed; the earlier one is gone.
    assert_eq!(mailbox.take(), Some(f2));
    assert_eq!(mailbox.take(), None);
}

#[test]
fn starved_render_loop_keeps_the_previous_frame() {
    let current = message(0, vec![9, 9, 9]);
    let next = next_frame(current.clone(), None);
    assert_eq!(next, current);
}

#[test]
fn fetched_frame_replaces_the_current_one() {
    let current = message(0, vec![9, 9, 9]);
    let fresh = message(1, vec![1, 1, 1]);
    let next = next_frame(current, Some(fresh.clone()));
    assert_eq!(next, fresh);
}

#[test]
fn driver_payload_appends_a_zero_fourth_channel() {
    let frame = Data {
        leds: vec![
            Color {
                red: 10,
                green: 20,
                blue: 30,
            },
            Color {
                red: 200,
                green: 100,
                blue: 50,
            },
        ],
    };
    assert_eq!(
        to_driver_bytes(&frame),
        vec![10, 20, 30, 0, 200, 100, 50, 0]
    );
}

#[test]
fn driver_payload_of_an_empty_frame_is_empty() {
    let frame = Data { leds: Vec::new() };
    assert_eq!(to_driver_bytes(&frame), Vec::<u8>::new());
}

#[test]
fn worker_forwards_an_empty_binary_payload_as_an_empty_frame() {
    let info = ConnectionInformation::new(0, 1);
    let action = handle_message(InboundMessage::Binary(Vec::new()), info);
    match action {
        WorkerAction::Forward(m) => assert_eq!(m.data.num_leds(), 0),
        other => panic!("expected a forward, got {:?}", other),
    }
}

#[test]
fn tick_remainder_at_fifty_hertz() {
    // 50 Hz: a 20 ms tick. A 5 ms push leaves 15 ms of sleep, so 100
    // iterations pace out to 100 * 20 ms = 2000 ms.
    let tick = tick_nanos(50);
    assert_eq!(tick, 20_000_000);
    let sleep = remaining_sleep(tick, 5_000_000);
    assert_eq!(sleep, 15_000_000);
    let mut total: u64 = 0;
    for _ in 0..100 {
        total += 5_000_000 + remaining_sleep(tick, 5_000_000);
    }
    assert_eq!(total, 2_000_000_000);
}

#[test]
fn overrunning_push_leaves_no_sleep() {
    assert_eq!(remaining_sleep(20_000_000, 25_000_000), 0);
    assert_eq!(remaining_sleep(20_000_000, 20_000_000), 0);
}

#[test]
fn worker_forwards_a_well_formed_binary_payload() {
    let info = ConnectionInformation::new(4, 2);
    let action = handle_message(InboundMessage::Binary(vec![7, 8, 9]), info);
    match action {
        WorkerAction::Forward(m) => {
            assert_eq!(m.connection, info);
            assert_eq!(
                m.data,
                Data {
                    leds: vec![Color {
                        red: 7,
                        green: 8,
                        blue: 9
                    }]
                }
            );
        }
        other => panic!("expected a forward, got {:?}", other),
    }
}

#[test]
fn worker_closes_only_its_connection_on_a_malformed_payload() {
    let info = ConnectionInformation::new(4, 2);
    let action = handle_message(InboundMessage::Binary(vec![7, 8]), info);
    assert_eq!(
        action,
        WorkerAction::CloseOnError(ProtocolError::InvalidFrameLength)
    );
}

#[test]
fn worker_ignores_control_messages() {
    let info = ConnectionInformation::new(0, 1);
    assert_eq!(handle_message(InboundMessage::Text, info), WorkerAction::Ignore);
    assert_eq!(handle_message(InboundMessage::Ping, info), WorkerAction::Ignore);
    assert_eq!(handle_message(InboundMessage::Pong, info), WorkerAction::Ignore);
    assert_eq!(handle_message(InboundMessage::Raw, info), WorkerAction::Ignore);
}

#[test]
fn worker_disconnects_on_close() {
    let info = ConnectionInformation::new(0, 1);
    assert_eq!(
        handle_message(InboundMessage::Close, info),
        WorkerAction::Disconnect
    );
}
