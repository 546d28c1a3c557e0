use vstd::prelude::*;
use crate::transport::{
    CommandFrame, LineStep, Transport, TransportError, frames_steps, reset_steps,
};

verus! {

pub const DISPLAY_WIDTH: u16 = 240;
pub const DISPLAY_HEIGHT: u16 = 240;

/// Opcodes of the controller.
pub const SLEEP_OUT: u8 = 0x11;
pub const INVERSION_OFF: u8 = 0x20;
pub const INVERSION_ON: u8 = 0x21;
pub const DISPLAY_ON: u8 = 0x29;
pub const COLUMN_ADDRESS_SET: u8 = 0x2A;
pub const ROW_ADDRESS_SET: u8 = 0x2B;
pub const MEMORY_WRITE: u8 = 0x2C;
pub const MEMORY_ACCESS_CONTROL: u8 = 0x36;
pub const PIXEL_FORMAT: u8 = 0x3A;
pub const PORCH_CONTROL: u8 = 0xB2;
pub const GATE_CONTROL: u8 = 0xB7;
pub const VCOM_SETTING: u8 = 0xBB;
pub const LCM_CONTROL: u8 = 0xC0;
pub const VDV_VRH_ENABLE: u8 = 0xC2;
pub const VRH_SET: u8 = 0xC3;
pub const VDV_SET: u8 = 0xC4;
pub const FRAME_RATE_CONTROL_2: u8 = 0xC6;
pub const POWER_CONTROL_1: u8 = 0xD0;
pub const POSITIVE_GAMMA: u8 = 0xE0;
pub const NEGATIVE_GAMMA: u8 = 0xE1;

/// Longest parameter list of any frame of the bring-up sequence.
pub const MAX_INIT_PARAMS: usize = 14;

/// Milliseconds the reset line is held low, then the time the controller
/// needs to come out of reset.
pub const RESET_LOW_MS: u32 = 10;
pub const RESET_SETTLE_MS: u32 = 120;

/// Visible area of the panel and where it starts in controller memory.
#[derive(Clone, Copy, Debug, PartialEq, Eq, Structural)]
pub struct DisplayGeometry {
    pub width: u16,
    pub height: u16,
    pub offset_x: u16,
    pub offset_y: u16,
}

impl DisplayGeometry {
    /// The area is not empty and its last column and row are addressable.
    pub open spec fn wf(&self) -> bool {
        &&& self.width >= 1
        &&& self.height >= 1
        &&& self.offset_x + self.width <= 0x10000
        &&& self.offset_y + self.height <= 0x10000
    }

    /// The 240 by 240 panel, starting at the origin.
    pub fn panel_default() -> (r: DisplayGeometry)
        ensures
            r.wf(),
            r == (DisplayGeometry {
                width: DISPLAY_WIDTH,
                height: DISPLAY_HEIGHT,
                offset_x: 0,
                offset_y: 0,
            }),
    {
        DisplayGeometry { width: DISPLAY_WIDTH, height: DISPLAY_HEIGHT, offset_x: 0, offset_y: 0 }
    }
}

/// Start and end address of a span, each as two bytes, high byte first.
pub open spec fn span_bytes(start: u16, len: u16) -> Seq<u8> {
    let end = start + len - 1;
    seq![(start / 256) as u8, (start % 256) as u8, (end / 256) as u8, (end % 256) as u8]
}

/// The register writes, in the order the controller needs them: porch,
/// gate, common voltage, LCM, regulator enable and levels, frame rate,
/// power, then the two gamma curves.
pub open spec fn register_frames() -> Seq<(u8, Seq<u8>)> {
    seq![
        (PORCH_CONTROL, seq![0x0Cu8, 0x0C, 0x00, 0x33, 0x33]),
        (GATE_CONTROL, seq![0x35u8]),
        (VCOM_SETTING, seq![0x19u8]),
        (LCM_CONTROL, seq![0x2Cu8]),
        (VDV_VRH_ENABLE, seq![0x01u8]),
        (VRH_SET, seq![0x12u8]),
        (VDV_SET, seq![0x20u8]),
        (FRAME_RATE_CONTROL_2, seq![0x0Fu8]),
        (POWER_CONTROL_1, seq![0xA4u8, 0xA1]),
        (POSITIVE_GAMMA, seq![
            0xD0u8, 0x04, 0x0D, 0x11, 0x13, 0x2B, 0x3F, 0x54, 0x4C, 0x18, 0x0D, 0x0B, 0x1F, 0x23,
        ]),
        (NEGATIVE_GAMMA, seq![
            0xD0u8, 0x04, 0x0C, 0x11, 0x13, 0x2C, 0x3F, 0x44, 0x51, 0x2F, 0x1F, 0x1F, 0x20, 0x23,
        ]),
    ]
}

/// Geometry and color mode: memory access order, 16-bit color, inversion,
/// then the column and row window.
pub open spec fn geometry_frames(g: DisplayGeometry, inverted: bool) -> Seq<(u8, Seq<u8>)> {
    seq![
        (MEMORY_ACCESS_CONTROL, seq![0x00u8]),
        (PIXEL_FORMAT, seq![0x55u8]),
        (if inverted { INVERSION_ON } else { INVERSION_OFF }, Seq::<u8>::empty()),
        (COLUMN_ADDRESS_SET, span_bytes(g.offset_x, g.width)),
        (ROW_ADDRESS_SET, span_bytes(g.offset_y, g.height)),
    ]
}

/// The whole bring-up sequence after reset.
pub open spec fn init_frames(g: DisplayGeometry, inverted: bool) -> Seq<(u8, Seq<u8>)> {
    geometry_frames(g, inverted) + register_frames() + seq![
        (SLEEP_OUT, Seq::<u8>::empty()),
        (DISPLAY_ON, Seq::<u8>::empty()),
    ]
}

/// Everything bring-up puts on the lines: the reset pulse, then each frame.
pub open spec fn bring_up_steps(g: DisplayGeometry, inverted: bool) -> Seq<LineStep> {
    reset_steps(RESET_LOW_MS, RESET_SETTLE_MS) + frames_steps(init_frames(g, inverted))
}

pub open spec fn frames_of(v: Seq<CommandFrame>) -> Seq<(u8, Seq<u8>)> {
    v.map_values(|f: CommandFrame| f@)
}

fn high_byte(v: u16) -> (r: u8)
    ensures
        r == (v / 256) as u8,
{
    (v / 256) as u8
}

fn low_byte(v: u16) -> (r: u8)
    ensures
        r == (v % 256) as u8,
{
    (v % 256) as u8
}

fn span(start: u16, len: u16) -> (r: Vec<u8>)
    requires
        len >= 1,
        start + len <= 0x10000,
    ensures
        r@ == span_bytes(start, len),
{
    let end: u16 = start + (len - 1);
    let r = vec![high_byte(start), low_byte(start), high_byte(end), low_byte(end)];
    assert(r@ =~= span_bytes(start, len));
    r
}

/// Builds the bring-up sequence as a list of frames.
pub fn init_sequence(g: &DisplayGeometry, inverted: bool) -> (r: Vec<CommandFrame>)
    requires
        g.wf(),
    ensures
        frames_of(r@) == init_frames(*g, inverted),
{
    let mut r: Vec<CommandFrame> = Vec::new();
    r.push(CommandFrame::new(MEMORY_ACCESS_CONTROL, vec![0x00]));
    r.push(CommandFrame::new(PIXEL_FORMAT, vec![0x55]));
    let inversion = if inverted { INVERSION_ON } else { INVERSION_OFF };
    r.push(CommandFrame::new(inversion, Vec::new()));
    r.push(CommandFrame::new(COLUMN_ADDRESS_SET, span(g.offset_x, g.width)));
    r.push(CommandFrame::new(ROW_ADDRESS_SET, span(g.offset_y, g.height)));
    r.push(CommandFrame::new(PORCH_CONTROL, vec![0x0C, 0x0C, 0x00, 0x33, 0x33]));
    r.push(CommandFrame::new(GATE_CONTROL, vec![0x35]));
    r.push(CommandFrame::new(VCOM_SETTING, vec![0x19]));
    r.push(CommandFrame::new(LCM_CONTROL, vec![0x2C]));
    r.push(CommandFrame::new(VDV_VRH_ENABLE, vec![0x01]));
    r.push(CommandFrame::new(VRH_SET, vec![0x12]));
    r.push(CommandFrame::new(VDV_SET, vec![0x20]));
    r.push(CommandFrame::new(FRAME_RATE_CONTROL_2, vec![0x0F]));
    r.push(CommandFrame::new(POWER_CONTROL_1, vec![0xA4, 0xA1]));
    r.push(CommandFrame::new(POSITIVE_GAMMA, vec![
        0xD0, 0x04, 0x0D, 0x11, 0x13, 0x2B, 0x3F, 0x54, 0x4C, 0x18, 0x0D, 0x0B, 0x1F, 0x23,
    ]));
    r.push(CommandFrame::new(NEGATIVE_GAMMA, vec![
        0xD0, 0x04, 0x0C, 0x11, 0x13, 0x2C, 0x3F, 0x44, 0x51, 0x2F, 0x1F, 0x1F, 0x20, 0x23,
    ]));
    r.push(CommandFrame::new(SLEEP_OUT, Vec::new()));
    r.push(CommandFrame::new(DISPLAY_ON, Vec::new()));
    assert(frames_of(r@) =~~= init_frames(*g, inverted));
    r
}


#[derive(Clone, Copy, Debug, PartialEq, Eq, Structural)]
pub enum InitError {
    /// A frame of the sequence could not be sent.
    Transport(TransportError),
}

/// Stage of the panel's bring-up. It only moves forward.
#[derive(Clone, Copy, Debug, PartialEq, Eq, Structural)]
pub enum PanelState {
    Uninitialized,
    Resetting,
    ConfiguringRegisters,
    Ready,
}

/// Every parameter list of the bring-up sequence fits in `MAX_INIT_PARAMS`.
pub proof fn lemma_init_frames_short(g: DisplayGeometry, inverted: bool)
    ensures
        forall|i: int|
            0 <= i < init_frames(g, inverted).len() ==> #[trigger] init_frames(
                g,
                inverted,
            )[i].1.len() <= MAX_INIT_PARAMS,
{
    let f = init_frames(g, inverted);
    assert forall|i: int| 0 <= i < f.len() implies #[trigger] f[i].1.len() <= MAX_INIT_PARAMS by {
        if i < 5 {
            assert(f[i] == geometry_frames(g, inverted)[i]);
        } else if i < 16 {
            assert(f[i] == register_frames()[i - 5]);
        }
    }
}

/// Taking one more frame of a list adds that frame's steps at the end.
proof fn lemma_frames_steps_extend(frames: Seq<(u8, Seq<u8>)>, i: int)
    requires
        0 <= i < frames.len(),
    ensures
        frames_steps(frames.take(i + 1)) == frames_steps(frames.take(i)) + crate::transport::frame_steps(frames[i]),
{
    assert(frames.take(i + 1).drop_last() =~= frames.take(i));
}

/// Brings the panel from reset to a drawable state through the transport
/// it owns, once.
pub struct Sequencer {
    transport: Transport,
    state: PanelState,
    geometry: DisplayGeometry,
    inverted: bool,
}

impl Sequencer {
    pub closed spec fn state_spec(&self) -> PanelState {
        self.state
    }

    pub closed spec fn geometry_spec(&self) -> DisplayGeometry {
        self.geometry
    }

    pub closed spec fn inverted_spec(&self) -> bool {
        self.inverted
    }

    pub closed spec fn transport_spec(&self) -> Transport {
        self.transport
    }

    /// The transport can carry every frame and the geometry is addressable.
    pub closed spec fn wf(&self) -> bool {
        &&& self.transport.capacity() >= MAX_INIT_PARAMS
        &&& self.geometry.wf()
    }

    pub fn new(transport: Transport, geometry: DisplayGeometry, inverted: bool) -> (r: Sequencer)
        requires
            transport.capacity() >= MAX_INIT_PARAMS,
            geometry.wf(),
        ensures
            r.wf(),
            r.state_spec() == PanelState::Uninitialized,
            r.transport_spec() == transport,
            r.geometry_spec() == geometry,
            r.inverted_spec() == inverted,
    {
        Sequencer { transport, state: PanelState::Uninitialized, geometry, inverted }
    }

    pub fn state(&self) -> (r: PanelState)
        ensures
            r == self.state_spec(),
    {
        self.state
    }

    pub fn geometry(&self) -> (r: DisplayGeometry)
        ensures
            r == self.geometry_spec(),
    {
        self.geometry
    }

    pub fn transport(&self) -> (r: &Transport)
        ensures
            *r == self.transport_spec(),
    {
        &self.transport
    }

    pub fn transport_mut(&mut self) -> (r: &mut Transport)
        requires
            old(self).state_spec() == PanelState::Ready,
        ensures
            *r == old(self).transport_spec(),
    {
        &mut self.transport
    }

    /// Resets the controller, sends the whole bring-up sequence in order and
    /// ends `Ready`. It runs once: only from `Uninitialized`.
    pub fn bring_up(&mut self) -> (r: Result<(), InitError>)
        requires
            old(self).wf(),
            old(self).state_spec() == PanelState::Uninitialized,
        ensures
            r is Ok,
            final(self).wf(),
            final(self).state_spec() == PanelState::Ready,
            final(self).geometry_spec() == old(self).geometry_spec(),
            final(self).inverted_spec() == old(self).inverted_spec(),
            final(self).transport_spec().bus() == old(self).transport_spec().bus(),
            final(self).transport_spec().capacity() == old(self).transport_spec().capacity(),
            final(self).transport_spec().steps() == old(self).transport_spec().steps()
                + bring_up_steps(old(self).geometry_spec(), old(self).inverted_spec()),
    {
        self.state = PanelState::Resetting;
        self.transport.reset_pulse(RESET_LOW_MS, RESET_SETTLE_MS);
        self.state = PanelState::ConfiguringRegisters;
        let frames = init_sequence(&self.geometry, self.inverted);
        let ghost start = self.transport.steps();
        let ghost all = frames_of(frames@);
        proof {
            lemma_init_frames_short(self.geometry, self.inverted);
            assert(all.take(0) =~= Seq::<(u8, Seq<u8>)>::empty());
        }
        let mut i: usize = 0;
        while i < frames.len()
            invariant
                i <= frames@.len(),
                all == frames_of(frames@),
                all == init_frames(self.geometry, self.inverted),
                forall|k: int| 0 <= k < all.len() ==> #[trigger] all[k].1.len() <= MAX_INIT_PARAMS,
                self.wf(),
                self.state == PanelState::ConfiguringRegisters,
                self.geometry == old(self).geometry,
                self.inverted == old(self).inverted,
                self.transport.bus() == old(self).transport.bus(),
                self.transport.capacity() == old(self).transport.capacity(),
                self.transport.steps() == start + frames_steps(all.take(i as int)),
            decreases frames@.len() - i,
        {
            assert(all[i as int] == frames@[i as int]@);
            match self.transport.send(&frames[i]) {
                Ok(()) => {},
                Err(e) => {
                    return Err(InitError::Transport(e));
                },
            }
            proof {
                lemma_frames_steps_extend(all, i as int);
            }
            i = i + 1;
        }
        assert(all.take(i as int) =~= all);
        self.state = PanelState::Ready;
        Ok(())
    }
}

/// Pixel colors as bytes, high byte of each first.
pub open spec fn pixel_bytes(colors: Seq<u16>) -> Seq<u8>
    decreases colors.len(),
{
    if colors.len() == 0 {
        Seq::empty()
    } else {
        pixel_bytes(colors.drop_last()) + seq![
            (colors.last() / 256) as u8,
            (colors.last() % 256) as u8,
        ]
    }
}

/// The frames that fill a rectangle of the visible area with colors: column
/// window, row window, then the pixels into memory.
pub open spec fn area_frames(
    g: DisplayGeometry,
    x: u16,
    y: u16,
    width: u16,
    height: u16,
    colors: Seq<u16>,
) -> Seq<(u8, Seq<u8>)> {
    seq![
        (COLUMN_ADDRESS_SET, span_bytes((g.offset_x + x) as u16, width)),
        (ROW_ADDRESS_SET, span_bytes((g.offset_y + y) as u16, height)),
        (MEMORY_WRITE, pixel_bytes(colors)),
    ]
}

fn encode_pixels(colors: &Vec<u16>) -> (r: Vec<u8>)
    requires
        colors@.len() <= usize::MAX / 2,
    ensures
        r@ == pixel_bytes(colors@),
{
    let mut r: Vec<u8> = Vec::with_capacity(colors.len() * 2);
    let mut i: usize = 0;
    while i < colors.len()
        invariant
            i <= colors@.len(),
            r@ == pixel_bytes(colors@.take(i as int)),
        decreases colors@.len() - i,
    {
        let c = colors[i];
        r.push(high_byte(c));
        r.push(low_byte(c));
        assert(colors@.take(i + 1).drop_last() =~= colors@.take(i as int));
        assert(r@ =~= pixel_bytes(colors@.take(i + 1)));
        i = i + 1;
    }
    assert(colors@.take(i as int) =~= colors@);
    r
}

proof fn lemma_pixel_bytes_len(colors: Seq<u16>)
    ensures
        pixel_bytes(colors).len() == 2 * colors.len(),
    decreases colors.len(),
{
    if colors.len() > 0 {
        lemma_pixel_bytes_len(colors.drop_last());
    }
}

impl Sequencer {
    /// Fills the rectangle at (`x`, `y`) of the visible area, `width` by
    /// `height` pixels, with `colors` in row order. Only a ready panel is
    /// drawn on. When the colors do not fit in the transfer buffer nothing
    /// is sent and the overflow is reported.
    pub fn draw_area(
        &mut self,
        x: u16,
        y: u16,
        width: u16,
        height: u16,
        colors: &Vec<u16>,
    ) -> (r: Result<(), TransportError>)
        requires
            old(self).wf(),
            old(self).state_spec() == PanelState::Ready,
            width >= 1,
            height >= 1,
            x + width <= old(self).geometry_spec().width,
            y + height <= old(self).geometry_spec().height,
        ensures
            final(self).wf(),
            final(self).state_spec() == PanelState::Ready,
            final(self).geometry_spec() == old(self).geometry_spec(),
            final(self).inverted_spec() == old(self).inverted_spec(),
            final(self).transport_spec().bus() == old(self).transport_spec().bus(),
            final(self).transport_spec().capacity() == old(self).transport_spec().capacity(),
            2 * colors@.len() <= old(self).transport_spec().capacity() ==> r is Ok
                && final(self).transport_spec().steps() == old(self).transport_spec().steps()
                + frames_steps(area_frames(old(self).geometry_spec(), x, y, width, height, colors@)),
            2 * colors@.len() > old(self).transport_spec().capacity() ==> r == Err::<
                (),
                TransportError,
            >(TransportError::BufferOverflow) && final(self).transport_spec().steps() == old(
                self,
            ).transport_spec().steps(),
    {
        if colors.len() > self.transport.buffer_capacity() / 2 {
            return Err(TransportError::BufferOverflow);
        }
        let g = self.geometry;
        let columns = CommandFrame::new(COLUMN_ADDRESS_SET, span(g.offset_x + x, width));
        let rows = CommandFrame::new(ROW_ADDRESS_SET, span(g.offset_y + y, height));
        let pixels = CommandFrame::new(MEMORY_WRITE, encode_pixels(colors));
        proof {
            lemma_pixel_bytes_len(colors@);
        }
        let ghost f = area_frames(g, x, y, width, height, colors@);
        let ghost start = self.transport.steps();
        let _ = self.transport.send(&columns);
        let _ = self.transport.send(&rows);
        let _ = self.transport.send(&pixels);
        proof {
            reveal_with_fuel(frames_steps, 4);
            assert(f.drop_last().drop_last().drop_last() =~= Seq::<(u8, Seq<u8>)>::empty());
            assert(f.drop_last().drop_last() =~= seq![f[0]]);
            assert(f.drop_last() =~= seq![f[0], f[1]]);
            assert(self.transport.steps() =~= start + frames_steps(f));
        }
        Ok(())
    }
}

/// Bring-up ends with exactly one sleep-out frame and then exactly one
/// display-on frame, and both come after every gamma frame.
pub proof fn lemma_display_on_last(g: DisplayGeometry, inverted: bool)
    ensures
        ({
            let f = init_frames(g, inverted);
            let n = f.len();
            &&& n >= 2
            &&& f[n - 2].0 == SLEEP_OUT
            &&& f[n - 1].0 == DISPLAY_ON
            &&& forall|i: int|
                0 <= i < n - 2 ==> #[trigger] f[i].0 != SLEEP_OUT && f[i].0 != DISPLAY_ON
            &&& forall|i: int|
                0 <= i < n && (#[trigger] f[i].0 == POSITIVE_GAMMA || f[i].0 == NEGATIVE_GAMMA)
                    ==> i < n - 2
        }),
{
    let f = init_frames(g, inverted);
    assert forall|i: int| 0 <= i < f.len() - 2 implies #[trigger] f[i].0 != SLEEP_OUT && f[i].0
        != DISPLAY_ON by {
        if i < 5 {
            assert(f[i] == geometry_frames(g, inverted)[i]);
        } else {
            assert(f[i] == register_frames()[i - 5]);
        }
    }
}

/// Two bring-ups on fresh transports with the same settings put the same
/// steps on the lines.
pub proof fn lemma_bring_up_repeatable(a: Sequencer, b: Sequencer)
    requires
        a.transport_spec().steps() == Seq::<LineStep>::empty(),
        b.transport_spec().steps() == Seq::<LineStep>::empty(),
        a.geometry_spec() == b.geometry_spec(),
        a.inverted_spec() == b.inverted_spec(),
    ensures
        a.transport_spec().steps() + bring_up_steps(a.geometry_spec(), a.inverted_spec())
            == b.transport_spec().steps() + bring_up_steps(b.geometry_spec(), b.inverted_spec()),
{
}

} // verus!
