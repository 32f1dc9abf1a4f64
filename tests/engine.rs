use lora_counter::engine::{Event, SyncEngine};
use lora_counter::radio::{
    IrqFlags, RadioOp, Transceiver, TransceiverMode, DEFAULT_TX_TIMEOUT_MS, MAX_TX_TIMEOUT_MS,
};

fn listening(flags: IrqFlags) -> Vec<RadioOp> {
    vec![RadioOp::ClearIrq(flags), RadioOp::Receive { timeout: [0xFF, 0xFF, 0xFF] }]
}

fn sending(frame: &[u8]) -> Vec<RadioOp> {
    vec![
        RadioOp::SetPayloadLength(frame.len() as u8),
        RadioOp::WriteBuffer { offset: 0, data: frame.to_vec() },
        RadioOp::Transmit { timeout: [0x01, 0xF4, 0x00] },
    ]
}

#[test]
fn new_engine_is_idle_at_zero() {
    let e = SyncEngine::new(DEFAULT_TX_TIMEOUT_MS);
    assert_eq!(e.read(), 0);
    assert_eq!(e.mode(), TransceiverMode::Idle);
}

#[test]
fn start_clears_flags_and_listens() {
    let mut e = SyncEngine::new(DEFAULT_TX_TIMEOUT_MS);
    assert_eq!(e.start(), listening(IrqFlags::All));
    assert_eq!(e.mode(), TransceiverMode::Receiving);
}

#[test]
fn local_increment_is_stored_shown_and_broadcast() {
    let mut e = SyncEngine::new(DEFAULT_TX_TIMEOUT_MS);
    e.start();
    let step = e.increment();
    assert_eq!(e.read(), 1);
    assert_eq!(step.value, 1);
    assert_eq!(step.refresh, Some(1));
    assert_eq!(step.radio, sending(b"Count: 1"));
    assert_eq!(e.mode(), TransceiverMode::Transmitting);
}

#[test]
fn local_decrement_saturates_and_still_broadcasts() {
    let mut e = SyncEngine::new(DEFAULT_TX_TIMEOUT_MS);
    e.start();
    let step = e.decrement();
    assert_eq!(e.read(), 0);
    assert_eq!(step.refresh, Some(0));
    assert_eq!(step.radio, sending(b"Count: 0"));
}

#[test]
fn received_counter_frame_overwrites_and_refreshes() {
    let mut e = SyncEngine::new(DEFAULT_TX_TIMEOUT_MS);
    e.start();
    e.increment();
    e.poll(Event::TransmitComplete);
    let step = e.poll(Event::ReceiveComplete(b"Count: 42".to_vec()));
    assert_eq!(e.read(), 42);
    assert_eq!(step.value, 42);
    assert_eq!(step.refresh, Some(42));
    assert_eq!(step.radio, vec![RadioOp::ClearIrq(IrqFlags::RxDone)]);
    assert_eq!(e.mode(), TransceiverMode::Receiving);
}

#[test]
fn foreign_traffic_changes_nothing() {
    let mut e = SyncEngine::new(DEFAULT_TX_TIMEOUT_MS);
    e.start();
    e.increment();
    e.increment();
    e.poll(Event::TransmitComplete);
    let step = e.poll(Event::ReceiveComplete(b"Battery: 3.7V".to_vec()));
    assert_eq!(e.read(), 2);
    assert_eq!(step.value, 2);
    assert_eq!(step.refresh, None);
    assert_eq!(step.radio, vec![RadioOp::ClearIrq(IrqFlags::RxDone)]);
    assert_eq!(e.mode(), TransceiverMode::Receiving);
}

#[test]
fn remote_update_wins_over_local_value() {
    let mut e = SyncEngine::new(DEFAULT_TX_TIMEOUT_MS);
    e.start();
    for _ in 0..5 {
        e.increment();
    }
    e.poll(Event::ReceiveComplete(b"Count: 7".to_vec()));
    assert_eq!(e.read(), 7);
    e.poll(Event::ReceiveComplete(b"Count: 3".to_vec()));
    assert_eq!(e.read(), 3);
}

#[test]
fn transmit_complete_rearms_receive() {
    let mut e = SyncEngine::new(DEFAULT_TX_TIMEOUT_MS);
    e.start();
    e.increment();
    assert_eq!(e.mode(), TransceiverMode::Transmitting);
    let step = e.poll(Event::TransmitComplete);
    assert_eq!(e.mode(), TransceiverMode::Receiving);
    assert_eq!(step.refresh, None);
    assert_eq!(step.value, 1);
    assert_eq!(step.radio, listening(IrqFlags::TxDone));
}

#[test]
fn no_event_does_nothing() {
    let mut e = SyncEngine::new(DEFAULT_TX_TIMEOUT_MS);
    e.start();
    let step = e.poll(Event::NoEvent);
    assert_eq!(step.value, 0);
    assert_eq!(step.refresh, None);
    assert!(step.radio.is_empty());
    assert_eq!(e.mode(), TransceiverMode::Receiving);
}

#[test]
fn failed_transmit_returns_to_listening() {
    let mut e = SyncEngine::new(DEFAULT_TX_TIMEOUT_MS);
    e.start();
    e.increment();
    assert_eq!(e.transmit_failed(), listening(IrqFlags::All));
    assert_eq!(e.mode(), TransceiverMode::Receiving);
    assert_eq!(e.read(), 1);
}

#[test]
fn transmit_timeout_register_follows_configuration() {
    let mut t = Transceiver::new(1);
    let ops = t.transmit(b"Count: 5".to_vec());
    assert_eq!(ops[2], RadioOp::Transmit { timeout: [0x00, 0x00, 0x40] });
    let mut t = Transceiver::new(MAX_TX_TIMEOUT_MS);
    let ops = t.transmit(Vec::new());
    assert_eq!(ops[0], RadioOp::SetPayloadLength(0));
    assert_eq!(ops[2], RadioOp::Transmit { timeout: [0xFF, 0xFF, 0xC0] });
    assert_eq!(t.tx_timeout_ms(), MAX_TX_TIMEOUT_MS);
}

#[test]
fn transceiver_modes_follow_each_transition() {
    let mut t = Transceiver::new(DEFAULT_TX_TIMEOUT_MS);
    assert_eq!(t.mode(), TransceiverMode::Idle);
    t.arm_receive();
    assert_eq!(t.mode(), TransceiverMode::Receiving);
    t.transmit(b"Count: 1".to_vec());
    assert_eq!(t.mode(), TransceiverMode::Transmitting);
    assert_eq!(t.finish_transmit(), listening(IrqFlags::TxDone));
    assert_eq!(t.mode(), TransceiverMode::Receiving);
    assert_eq!(t.finish_receive(), vec![RadioOp::ClearIrq(IrqFlags::RxDone)]);
    assert_eq!(t.mode(), TransceiverMode::Receiving);
}
