//! The half-duplex transceiver's mode machine.
//!
//! The transceiver does not touch hardware: each transition hands back the
//! radio commands, in order, that the driver must issue to follow it.

use vstd::prelude::*;

verus! {

/// Longest transmit timeout the radio's 24-bit timer (steps of 1/64 ms) holds.
pub const MAX_TX_TIMEOUT_MS: u32 = 262143;

/// Transmit timeout the node uses.
pub const DEFAULT_TX_TIMEOUT_MS: u32 = 2000;

/// Largest payload the radio's buffer holds.
pub const MAX_PAYLOAD_LEN: usize = 255;

#[derive(Clone, Copy, Debug, PartialEq, Eq, Structural)]
pub enum TransceiverMode {
    Idle,
    Receiving,
    Transmitting,
}

/// Interrupt flags to clear.
#[derive(Clone, Copy, Debug, PartialEq, Eq, Structural)]
pub enum IrqFlags {
    RxDone,
    TxDone,
    All,
}

/// One command to the radio.
#[derive(Debug, PartialEq, Eq)]
pub enum RadioOp {
    /// Clear pending interrupt flags.
    ClearIrq(IrqFlags),
    /// Enter receive mode; `timeout` is the radio's timer register value.
    Receive { timeout: [u8; 3] },
    /// Set the explicit payload length of the next packet.
    SetPayloadLength(u8),
    /// Copy `data` into the radio's buffer at `offset`.
    WriteBuffer { offset: u8, data: Vec<u8> },
    /// Enter transmit mode; `timeout` is the radio's timer register value.
    Transmit { timeout: [u8; 3] },
}

/// Timer register bytes for a timeout of `ms` milliseconds: `ms * 64` steps,
/// the low 24 bits, most significant byte first.
pub open spec fn timeout_bytes(ms: u32) -> Seq<u8> {
    let x = (ms as int * 64) % 0x1_0000_0000;
    seq![((x / 0x1_0000) % 256) as u8, ((x / 256) % 256) as u8, (x % 256) as u8]
}

/// Timer register bytes that keep the radio listening with no timeout.
pub open spec fn continuous_bytes() -> Seq<u8> {
    seq![255u8, 255u8, 255u8]
}

/// Relies on sx126x's `RxTxTimeout::from_ms` and its conversion into the
/// three register bytes: `ms << 6`, bytes 2, 1, 0 of its little-endian form.
#[verifier::external_body]
fn timeout_register(ms: u32) -> (r: [u8; 3])
    ensures
        r@ == timeout_bytes(ms),
{
    sx126x::op::RxTxTimeout::from_ms(ms).into()
}

/// Relies on sx126x's `RxTxTimeout::continuous_rx`: the register bytes
/// `FF FF FF`.
#[verifier::external_body]
fn continuous_rx_register() -> (r: [u8; 3])
    ensures
        r@ == continuous_bytes(),
{
    sx126x::op::RxTxTimeout::continuous_rx().into()
}

/// `ops` clears `flags`, then listens with no timeout.
pub open spec fn is_listen_sequence(ops: Seq<RadioOp>, flags: IrqFlags) -> bool {
    &&& ops.len() == 2
    &&& ops[0] == RadioOp::ClearIrq(flags)
    &&& ops[1] matches RadioOp::Receive { timeout } && timeout@ == continuous_bytes()
}

/// `ops` sets the payload length to that of `frame`, writes `frame` at the
/// start of the buffer, then transmits with a timeout of `ms`.
pub open spec fn is_transmit_sequence(ops: Seq<RadioOp>, frame: Seq<u8>, ms: u32) -> bool {
    &&& ops.len() == 3
    &&& ops[0] == RadioOp::SetPayloadLength(frame.len() as u8)
    &&& ops[1] matches RadioOp::WriteBuffer { offset, data } && offset == 0 && data@ == frame
    &&& ops[2] matches RadioOp::Transmit { timeout } && timeout@ == timeout_bytes(ms)
}

pub struct Transceiver {
    mode: TransceiverMode,
    tx_timeout_ms: u32,
}

impl Transceiver {
    pub closed spec fn spec_mode(&self) -> TransceiverMode {
        self.mode
    }

    pub closed spec fn spec_tx_timeout_ms(&self) -> u32 {
        self.tx_timeout_ms
    }

    /// An idle transceiver whose transmissions time out after `tx_timeout_ms`.
    pub fn new(tx_timeout_ms: u32) -> (r: Self)
        requires
            tx_timeout_ms <= MAX_TX_TIMEOUT_MS,
        ensures
            r.spec_mode() == TransceiverMode::Idle,
            r.spec_tx_timeout_ms() == tx_timeout_ms,
    {
        Transceiver { mode: TransceiverMode::Idle, tx_timeout_ms }
    }

    #[verifier::when_used_as_spec(spec_mode)]
    pub fn mode(&self) -> (r: TransceiverMode)
        ensures
            r == self.spec_mode(),
    {
        self.mode
    }

    #[verifier::when_used_as_spec(spec_tx_timeout_ms)]
    pub fn tx_timeout_ms(&self) -> (r: u32)
        ensures
            r == self.spec_tx_timeout_ms(),
    {
        self.tx_timeout_ms
    }

    /// Clears every pending flag and listens with no timeout.
    pub fn arm_receive(&mut self) -> (ops: Vec<RadioOp>)
        ensures
            final(self).spec_mode() == TransceiverMode::Receiving,
            final(self).spec_tx_timeout_ms() == old(self).spec_tx_timeout_ms(),
            is_listen_sequence(ops@, IrqFlags::All),
    {
        self.mode = TransceiverMode::Receiving;
        let timeout = continuous_rx_register();
        vec![RadioOp::ClearIrq(IrqFlags::All), RadioOp::Receive { timeout }]
    }

    /// Sends `frame`, with its length as the payload length.
    pub fn transmit(&mut self, frame: Vec<u8>) -> (ops: Vec<RadioOp>)
        requires
            frame@.len() <= MAX_PAYLOAD_LEN,
        ensures
            final(self).spec_mode() == TransceiverMode::Transmitting,
            final(self).spec_tx_timeout_ms() == old(self).spec_tx_timeout_ms(),
            is_transmit_sequence(ops@, frame@, old(self).spec_tx_timeout_ms()),
    {
        self.mode = TransceiverMode::Transmitting;
        let timeout = timeout_register(self.tx_timeout_ms);
        let len = frame.len() as u8;
        vec![
            RadioOp::SetPayloadLength(len),
            RadioOp::WriteBuffer { offset: 0, data: frame },
            RadioOp::Transmit { timeout },
        ]
    }

    /// After a packet arrived: clears its flag. Reception is continuous, so
    /// the radio is still listening.
    pub fn finish_receive(&mut self) -> (ops: Vec<RadioOp>)
        ensures
            final(self).spec_mode() == TransceiverMode::Receiving,
            final(self).spec_tx_timeout_ms() == old(self).spec_tx_timeout_ms(),
            ops@ == seq![RadioOp::ClearIrq(IrqFlags::RxDone)],
    {
        self.mode = TransceiverMode::Receiving;
        vec![RadioOp::ClearIrq(IrqFlags::RxDone)]
    }

    /// After a transmission completed: clears its flag and listens again.
    pub fn finish_transmit(&mut self) -> (ops: Vec<RadioOp>)
        ensures
            final(self).spec_mode() == TransceiverMode::Receiving,
            final(self).spec_tx_timeout_ms() == old(self).spec_tx_timeout_ms(),
            is_listen_sequence(ops@, IrqFlags::TxDone),
    {
        self.mode = TransceiverMode::Receiving;
        let timeout = continuous_rx_register();
        vec![RadioOp::ClearIrq(IrqFlags::TxDone), RadioOp::Receive { timeout }]
    }
}

} // verus!
