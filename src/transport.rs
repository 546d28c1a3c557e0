use vstd::prelude::*;

verus! {

/// Capacity in bytes of the region that stages each outgoing transfer.
pub const TRANSFER_BUFFER_SIZE: usize = 1024;

/// Bus clock used for the panel.
pub const SPI_FREQUENCY_HZ: u32 = 40_000_000;

/// Clock polarity and phase pairing of the bus.
#[derive(Clone, Copy, Debug, PartialEq, Eq, Structural)]
pub enum SpiMode {
    /// Clock idles low, data sampled on the first edge.
    Mode0,
    /// Clock idles low, data sampled on the second edge.
    Mode1,
    /// Clock idles high, data sampled on the first edge.
    Mode2,
    /// Clock idles high, data sampled on the second edge.
    Mode3,
}

/// Bus parameters, fixed once the transport is built.
#[derive(Clone, Copy, Debug, PartialEq, Eq, Structural)]
pub struct BusConfig {
    pub frequency_hz: u32,
    pub mode: SpiMode,
    /// The transport is the only user of the bus.
    pub exclusive: bool,
}

impl BusConfig {
    /// The panel's bus settings: 40 MHz, mode 3, exclusive.
    pub fn panel_default() -> (r: BusConfig)
        ensures
            r.frequency_hz == SPI_FREQUENCY_HZ,
            r.mode == SpiMode::Mode3,
            r.exclusive,
    {
        BusConfig { frequency_hz: SPI_FREQUENCY_HZ, mode: SpiMode::Mode3, exclusive: true }
    }
}

/// State of the data/command select line.
#[derive(Clone, Copy, Debug, PartialEq, Eq, Structural)]
pub enum DcState {
    /// The bytes that follow are an opcode.
    Command,
    /// The bytes that follow are parameters.
    Data,
}

/// One opcode and its ordered parameter bytes.
#[derive(Debug, PartialEq, Eq)]
pub struct CommandFrame {
    pub opcode: u8,
    pub params: Vec<u8>,
}

impl View for CommandFrame {
    type V = (u8, Seq<u8>);

    open spec fn view(&self) -> (u8, Seq<u8>) {
        (self.opcode, self.params@)
    }
}

impl CommandFrame {
    pub fn new(opcode: u8, params: Vec<u8>) -> (r: CommandFrame)
        ensures
            r@ == (opcode, params@),
    {
        CommandFrame { opcode, params }
    }
}

/// One step on the physical lines, in the order the transport issues them.
#[derive(Debug, PartialEq, Eq)]
pub enum BusOp {
    /// Chip-select driven active.
    Select,
    /// Chip-select released.
    Deselect,
    /// Data/command line driven to the given state.
    Mode(DcState),
    /// The bytes staged in the transfer buffer clocked out, in order.
    Write(Vec<u8>),
    /// Reset line driven high (`true`) or low (`false`).
    Reset(bool),
    /// Pause of the given number of milliseconds.
    DelayMs(u32),
}

/// What a `BusOp` does, with the bytes of a write as a sequence.
pub enum LineStep {
    Select,
    Deselect,
    Mode(DcState),
    Write(Seq<u8>),
    Reset(bool),
    DelayMs(u32),
}

impl View for BusOp {
    type V = LineStep;

    open spec fn view(&self) -> LineStep {
        match self {
            BusOp::Select => LineStep::Select,
            BusOp::Deselect => LineStep::Deselect,
            BusOp::Mode(d) => LineStep::Mode(*d),
            BusOp::Write(b) => LineStep::Write(b@),
            BusOp::Reset(h) => LineStep::Reset(*h),
            BusOp::DelayMs(ms) => LineStep::DelayMs(*ms),
        }
    }
}

/// The steps that carry one frame: select, command state, the opcode, data
/// state, the parameters, release.
pub open spec fn frame_steps(frame: (u8, Seq<u8>)) -> Seq<LineStep> {
    seq![
        LineStep::Select,
        LineStep::Mode(DcState::Command),
        LineStep::Write(seq![frame.0]),
        LineStep::Mode(DcState::Data),
        LineStep::Write(frame.1),
        LineStep::Deselect,
    ]
}

/// The steps that carry a list of frames, one after the other.
pub open spec fn frames_steps(frames: Seq<(u8, Seq<u8>)>) -> Seq<LineStep>
    decreases frames.len(),
{
    if frames.len() == 0 {
        Seq::empty()
    } else {
        frames_steps(frames.drop_last()) + frame_steps(frames.last())
    }
}

/// View of a list of operations.
pub open spec fn steps_of(ops: Seq<BusOp>) -> Seq<LineStep> {
    ops.map_values(|o: BusOp| o@)
}

#[derive(Clone, Copy, Debug, PartialEq, Eq, Structural)]
pub enum TransportError {
    /// The parameters of a frame do not fit in the transfer buffer.
    BufferOverflow,
    /// The bus reported a failed transfer.
    BusFault,
}

/// Fixed-capacity staging region for outgoing bytes.
#[derive(Clone, Copy, Debug, PartialEq, Eq, Structural)]
pub struct TransferBuffer {
    pub capacity: usize,
}

impl TransferBuffer {
    /// Copies `bytes` into a staged block, or refuses when they exceed the
    /// capacity.
    pub fn stage(&self, bytes: &Vec<u8>) -> (r: Result<Vec<u8>, TransportError>)
        ensures
            bytes@.len() <= self.capacity ==> (r matches Ok(v) && v@ == bytes@),
            bytes@.len() > self.capacity ==> r == Err::<Vec<u8>, TransportError>(
                TransportError::BufferOverflow,
            ),
    {
        if bytes.len() > self.capacity {
            return Err(TransportError::BufferOverflow);
        }
        let mut staged: Vec<u8> = Vec::with_capacity(bytes.len());
        let mut i: usize = 0;
        while i < bytes.len()
            invariant
                i <= bytes@.len(),
                staged@ == bytes@.subrange(0, i as int),
            decreases bytes@.len() - i,
        {
            staged.push(bytes[i]);
            i = i + 1;
        }
        assert(staged@ == bytes@);
        Ok(staged)
    }
}

/// Sole owner of the bus and its chip-select, data/command and reset lines.
/// It turns frames into line operations, which the driver of the hardware
/// plays back in order.
pub struct Transport {
    config: BusConfig,
    buffer: TransferBuffer,
    ops: Vec<BusOp>,
}

impl Transport {
    /// The operations issued so far and not yet taken.
    pub closed spec fn steps(&self) -> Seq<LineStep> {
        steps_of(self.ops@)
    }

    pub closed spec fn bus(&self) -> BusConfig {
        self.config
    }

    /// Capacity of the transfer buffer.
    pub closed spec fn capacity(&self) -> nat {
        self.buffer.capacity as nat
    }

    pub fn config(&self) -> (r: BusConfig)
        ensures
            r == self.bus(),
    {
        self.config
    }

    pub fn buffer_capacity(&self) -> (r: usize)
        ensures
            r == self.capacity(),
    {
        self.buffer.capacity
    }

    pub fn new(config: BusConfig) -> (r: Transport)
        ensures
            r.bus() == config,
            r.capacity() == TRANSFER_BUFFER_SIZE,
            r.steps() == Seq::<LineStep>::empty(),
    {
        let r = Transport {
            config,
            buffer: TransferBuffer { capacity: TRANSFER_BUFFER_SIZE },
            ops: Vec::new(),
        };
        assert(r.steps() =~= Seq::<LineStep>::empty());
        r
    }

    /// The operations issued so far and not yet taken.
    pub fn ops(&self) -> (r: &Vec<BusOp>)
        ensures
            steps_of(r@) == self.steps(),
    {
        &self.ops
    }

    /// Hands over the operations issued so far, leaving none pending.
    pub fn take_ops(&mut self) -> (r: Vec<BusOp>)
        ensures
            steps_of(r@) == old(self).steps(),
            final(self).steps() == Seq::<LineStep>::empty(),
            final(self).bus() == old(self).bus(),
            final(self).capacity() == old(self).capacity(),
    {
        let mut out: Vec<BusOp> = Vec::new();
        std::mem::swap(&mut out, &mut self.ops);
        assert(self.steps() =~= Seq::<LineStep>::empty());
        out
    }

    fn issue(&mut self, op: BusOp)
        ensures
            final(self).steps() == old(self).steps().push(op@),
            final(self).bus() == old(self).bus(),
            final(self).capacity() == old(self).capacity(),
    {
        let ghost v = op@;
        self.ops.push(op);
        assert(self.steps() =~= old(self).steps().push(v));
    }

    /// Sends one frame: chip-select active, command state, the opcode, data
    /// state, every parameter in order, chip-select released. A frame whose
    /// parameters exceed the transfer buffer is refused before anything is
    /// issued.
    pub fn send(&mut self, frame: &CommandFrame) -> (r: Result<(), TransportError>)
        ensures
            final(self).bus() == old(self).bus(),
            final(self).capacity() == old(self).capacity(),
            frame.params@.len() <= old(self).capacity() ==> r is Ok
                && final(self).steps() == old(self).steps() + frame_steps(frame@),
            frame.params@.len() > old(self).capacity() ==> r == Err::<(), TransportError>(
                TransportError::BufferOverflow,
            ) && final(self).steps() == old(self).steps(),
    {
        let params = match self.buffer.stage(&frame.params) {
            Ok(p) => p,
            Err(e) => return Err(e),
        };
        let opcode: Vec<u8> = vec![frame.opcode];
        assert(opcode@ == seq![frame.opcode]);
        self.issue(BusOp::Select);
        self.issue(BusOp::Mode(DcState::Command));
        self.issue(BusOp::Write(opcode));
        self.issue(BusOp::Mode(DcState::Data));
        self.issue(BusOp::Write(params));
        self.issue(BusOp::Deselect);
        assert(self.steps() =~= old(self).steps() + frame_steps(frame@));
        Ok(())
    }

    /// Pulses the reset line: low, wait, high, wait.
    pub fn reset_pulse(&mut self, low_ms: u32, settle_ms: u32)
        ensures
            final(self).bus() == old(self).bus(),
            final(self).capacity() == old(self).capacity(),
            final(self).steps() == old(self).steps() + reset_steps(low_ms, settle_ms),
    {
        self.issue(BusOp::Reset(false));
        self.issue(BusOp::DelayMs(low_ms));
        self.issue(BusOp::Reset(true));
        self.issue(BusOp::DelayMs(settle_ms));
        assert(self.steps() =~= old(self).steps() + reset_steps(low_ms, settle_ms));
    }
}

/// The steps of a reset pulse.
pub open spec fn reset_steps(low_ms: u32, settle_ms: u32) -> Seq<LineStep> {
    seq![
        LineStep::Reset(false),
        LineStep::DelayMs(low_ms),
        LineStep::Reset(true),
        LineStep::DelayMs(settle_ms),
    ]
}


/// Each byte that reaches the bus, with the chip-select state (`true` when
/// active) and the data/command state it was clocked out under, starting
/// from the given line states.
pub open spec fn observed_bytes(steps: Seq<LineStep>, cs: bool, dc: DcState) -> Seq<
    (bool, DcState, u8),
>
    decreases steps.len(),
{
    if steps.len() == 0 {
        Seq::empty()
    } else {
        let rest = steps.subrange(1, steps.len() as int);
        match steps[0] {
            LineStep::Select => observed_bytes(rest, true, dc),
            LineStep::Deselect => observed_bytes(rest, false, dc),
            LineStep::Mode(d) => observed_bytes(rest, cs, d),
            LineStep::Write(b) => b.map_values(|x: u8| (cs, dc, x)) + observed_bytes(rest, cs, dc),
            _ => observed_bytes(rest, cs, dc),
        }
    }
}

/// Chip-select state after the given steps.
pub open spec fn select_after(steps: Seq<LineStep>, cs: bool) -> bool
    decreases steps.len(),
{
    if steps.len() == 0 {
        cs
    } else {
        let rest = steps.subrange(1, steps.len() as int);
        match steps[0] {
            LineStep::Select => select_after(rest, true),
            LineStep::Deselect => select_after(rest, false),
            _ => select_after(rest, cs),
        }
    }
}

/// A sent frame puts exactly its opcode on the bus in command state, then
/// exactly its parameters, in order, in data state, all with chip-select
/// active; the frame's last step releases chip-select.
pub proof fn lemma_frame_line_sequence(frame: (u8, Seq<u8>), cs: bool, dc: DcState)
    ensures
        observed_bytes(frame_steps(frame), cs, dc) == seq![(true, DcState::Command, frame.0)]
            + frame.1.map_values(|x: u8| (true, DcState::Data, x)),
        frame_steps(frame).last() == LineStep::Deselect,
        !select_after(frame_steps(frame), cs),
{
    let s = frame_steps(frame);
    reveal_with_fuel(observed_bytes, 7);
    reveal_with_fuel(select_after, 7);
    assert(s.subrange(1, 6) =~= seq![s[1], s[2], s[3], s[4], s[5]]);
    assert(s.subrange(1, 6).subrange(1, 5) =~= seq![s[2], s[3], s[4], s[5]]);
    assert(s.subrange(1, 6).subrange(1, 5).subrange(1, 4) =~= seq![s[3], s[4], s[5]]);
    assert(s.subrange(1, 6).subrange(1, 5).subrange(1, 4).subrange(1, 3) =~= seq![s[4], s[5]]);
    assert(s.subrange(1, 6).subrange(1, 5).subrange(1, 4).subrange(1, 3).subrange(1, 2) =~= seq![
        s[5],
    ]);
    assert(seq![s[5]].subrange(1, 1) =~= Seq::<LineStep>::empty());
    assert(seq![frame.0].map_values(|x: u8| (true, DcState::Command, x)) =~= seq![
        (true, DcState::Command, frame.0),
    ]);
    assert(observed_bytes(frame_steps(frame), cs, dc) =~= seq![(true, DcState::Command, frame.0)]
        + frame.1.map_values(|x: u8| (true, DcState::Data, x)));
}

} // verus!
