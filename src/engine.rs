//! The synchronization engine: sequences the counter, the wire format and
//! the transceiver.
//!
//! A local change is stored, shown and broadcast; a frame from another node
//! overwrites the counter and is shown; anything else on the channel is
//! dropped. The driver performs the returned radio commands and display
//! refresh and reports radio events back.
//!
//! Frames carry no sequence number, timestamp or node identity, so the last
//! write to land wins, even one based on a stale value (a peer's increment
//! broadcast after a local decrement overwrites it). This is kept as is.

use vstd::prelude::*;
use crate::codec::{decode, encode, frame_of, lemma_frame_len, value_of_frame};
use crate::counter::{decremented, incremented, CounterStore};
use crate::radio::{
    is_listen_sequence, is_transmit_sequence, IrqFlags, RadioOp, Transceiver, TransceiverMode,
    MAX_TX_TIMEOUT_MS,
};

verus! {

/// What polling the radio reported.
#[derive(Debug, PartialEq, Eq)]
pub enum Event {
    /// A packet arrived; its payload, copied out of the radio's buffer.
    ReceiveComplete(Vec<u8>),
    TransmitComplete,
    NoEvent,
}

/// What the driver does after one step of the engine.
#[derive(Debug, PartialEq, Eq)]
pub struct Step {
    /// The counter after the step.
    pub value: u32,
    /// The value to show, when the counter was written.
    pub refresh: Option<u32>,
    /// Radio commands to issue, in order.
    pub radio: Vec<RadioOp>,
}

pub struct SyncEngine {
    store: CounterStore,
    radio: Transceiver,
}

impl SyncEngine {
    pub closed spec fn spec_read(&self) -> u32 {
        self.store@
    }

    pub closed spec fn spec_mode(&self) -> TransceiverMode {
        self.radio.spec_mode()
    }

    pub closed spec fn spec_tx_timeout_ms(&self) -> u32 {
        self.radio.spec_tx_timeout_ms()
    }

    /// A node at startup: counter zero, radio idle.
    pub fn new(tx_timeout_ms: u32) -> (r: Self)
        requires
            tx_timeout_ms <= MAX_TX_TIMEOUT_MS,
        ensures
            r.spec_read() == 0,
            r.spec_mode() == TransceiverMode::Idle,
            r.spec_tx_timeout_ms() == tx_timeout_ms,
    {
        SyncEngine { store: CounterStore::new(), radio: Transceiver::new(tx_timeout_ms) }
    }

    #[verifier::when_used_as_spec(spec_read)]
    pub fn read(&self) -> (r: u32)
        ensures
            r == self.spec_read(),
    {
        self.store.read()
    }

    #[verifier::when_used_as_spec(spec_mode)]
    pub fn mode(&self) -> (r: TransceiverMode)
        ensures
            r == self.spec_mode(),
    {
        self.radio.mode()
    }

    /// Starts listening.
    pub fn start(&mut self) -> (ops: Vec<RadioOp>)
        ensures
            final(self).spec_read() == old(self).spec_read(),
            final(self).spec_mode() == TransceiverMode::Receiving,
            final(self).spec_tx_timeout_ms() == old(self).spec_tx_timeout_ms(),
            is_listen_sequence(ops@, IrqFlags::All),
    {
        self.radio.arm_receive()
    }

    fn broadcast(&mut self, value: u32) -> (r: Step)
        ensures
            final(self).spec_read() == old(self).spec_read(),
            final(self).spec_mode() == TransceiverMode::Transmitting,
            final(self).spec_tx_timeout_ms() == old(self).spec_tx_timeout_ms(),
            r.value == value,
            r.refresh == Some(value),
            is_transmit_sequence(r.radio@, frame_of(value), old(self).spec_tx_timeout_ms()),
    {
        let frame = encode(value);
        proof {
            lemma_frame_len(value);
        }
        let radio = self.radio.transmit(frame);
        Step { value, refresh: Some(value), radio }
    }

    /// A local increment: adds one (held at `u32::MAX`), shows the new value
    /// and broadcasts its frame.
    pub fn increment(&mut self) -> (r: Step)
        ensures
            final(self).spec_read() == incremented(old(self).spec_read()),
            final(self).spec_mode() == TransceiverMode::Transmitting,
            final(self).spec_tx_timeout_ms() == old(self).spec_tx_timeout_ms(),
            r.value == final(self).spec_read(),
            r.refresh == Some(r.value),
            is_transmit_sequence(r.radio@, frame_of(r.value), old(self).spec_tx_timeout_ms()),
    {
        let value = self.store.increment();
        self.broadcast(value)
    }

    /// A local decrement: subtracts one (held at zero), shows the new value
    /// and broadcasts its frame.
    pub fn decrement(&mut self) -> (r: Step)
        ensures
            final(self).spec_read() == decremented(old(self).spec_read()),
            final(self).spec_mode() == TransceiverMode::Transmitting,
            final(self).spec_tx_timeout_ms() == old(self).spec_tx_timeout_ms(),
            r.value == final(self).spec_read(),
            r.refresh == Some(r.value),
            is_transmit_sequence(r.radio@, frame_of(r.value), old(self).spec_tx_timeout_ms()),
    {
        let value = self.store.decrement();
        self.broadcast(value)
    }

    /// Handles one polled radio event.
    ///
    /// A received counter frame overwrites the counter and is shown; any
    /// other payload is dropped. Either way the receive flag is cleared and
    /// the radio keeps listening. A completed transmission clears its flag
    /// and re-arms reception.
    pub fn poll(&mut self, event: Event) -> (r: Step)
        ensures
            final(self).spec_tx_timeout_ms() == old(self).spec_tx_timeout_ms(),
            r.value == final(self).spec_read(),
            match event {
                Event::ReceiveComplete(payload) => {
                    &&& final(self).spec_read() == match value_of_frame(payload@) {
                        Some(v) => v,
                        None => old(self).spec_read(),
                    }
                    &&& r.refresh == value_of_frame(payload@)
                    &&& final(self).spec_mode() == TransceiverMode::Receiving
                    &&& r.radio@ == seq![RadioOp::ClearIrq(IrqFlags::RxDone)]
                },
                Event::TransmitComplete => {
                    &&& final(self).spec_read() == old(self).spec_read()
                    &&& r.refresh == None::<u32>
                    &&& final(self).spec_mode() == TransceiverMode::Receiving
                    &&& is_listen_sequence(r.radio@, IrqFlags::TxDone)
                },
                Event::NoEvent => {
                    &&& final(self).spec_read() == old(self).spec_read()
                    &&& r.refresh == None::<u32>
                    &&& final(self).spec_mode() == old(self).spec_mode()
                    &&& r.radio@.len() == 0
                },
            },
    {
        match event {
            Event::ReceiveComplete(payload) => {
                let decoded = decode(payload.as_slice());
                if let Some(v) = decoded {
                    self.store.apply(v);
                }
                let radio = self.radio.finish_receive();
                Step { value: self.store.read(), refresh: decoded, radio }
            },
            Event::TransmitComplete => {
                let radio = self.radio.finish_transmit();
                Step { value: self.store.read(), refresh: None, radio }
            },
            Event::NoEvent => Step { value: self.store.read(), refresh: None, radio: Vec::new() },
        }
    }

    /// A transmission could not be started or timed out: clears every flag
    /// and listens again. The counter keeps its value; the next local change
    /// is broadcast as usual.
    pub fn transmit_failed(&mut self) -> (ops: Vec<RadioOp>)
        ensures
            final(self).spec_read() == old(self).spec_read(),
            final(self).spec_mode() == TransceiverMode::Receiving,
            final(self).spec_tx_timeout_ms() == old(self).spec_tx_timeout_ms(),
            is_listen_sequence(ops@, IrqFlags::All),
    {
        self.radio.arm_receive()
    }
}

} // verus!
