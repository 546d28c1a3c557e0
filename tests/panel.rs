use st7789_panel::init::{
    init_sequence, DisplayGeometry, PanelState, Sequencer, DISPLAY_ON, NEGATIVE_GAMMA,
    POSITIVE_GAMMA, SLEEP_OUT,
};
use st7789_panel::render::{advance, render, RenderState, LABEL_WIDTH};
use st7789_panel::transport::{
    BusConfig, BusOp, CommandFrame, DcState, Transport, TransportError, TRANSFER_BUFFER_SIZE,
};

fn fresh_sequencer(inverted: bool) -> Sequencer {
    Sequencer::new(
        Transport::new(BusConfig::panel_default()),
        DisplayGeometry::panel_default(),
        inverted,
    )
}

/// Frames read back from the line operations: each opcode written in command
/// state, with the bytes written in data state after it.
fn frames_seen(ops: &[BusOp]) -> Vec<(u8, Vec<u8>)> {
    let mut frames: Vec<(u8, Vec<u8>)> = Vec::new();
    let mut dc = DcState::Command;
    for op in ops {
        match op {
            BusOp::Mode(d) => dc = *d,
            BusOp::Write(bytes) => {
                if dc == DcState::Command {
                    for b in bytes {
                        frames.push((*b, Vec::new()));
                    }
                } else {
                    frames.last_mut().unwrap().1.extend_from_slice(bytes);
                }
            }
            _ => {}
        }
    }
    frames
}

#[test]
fn frame_drives_lines_in_order() {
    let mut t = Transport::new(BusConfig::panel_default());
    let r = t.send(&CommandFrame::new(0xB2, vec![0x0C, 0x0C, 0x00, 0x33, 0x33]));
    assert_eq!(r, Ok(()));
    assert_eq!(
        t.ops(),
        &vec![
            BusOp::Select,
            BusOp::Mode(DcState::Command),
            BusOp::Write(vec![0xB2]),
            BusOp::Mode(DcState::Data),
            BusOp::Write(vec![0x0C, 0x0C, 0x00, 0x33, 0x33]),
            BusOp::Deselect,
        ]
    );
}

#[test]
fn frame_without_parameters() {
    let mut t = Transport::new(BusConfig::panel_default());
    assert_eq!(t.send(&CommandFrame::new(0x29, Vec::new())), Ok(()));
    assert_eq!(t.ops().len(), 6);
    assert_eq!(t.ops()[2], BusOp::Write(vec![0x29]));
    assert_eq!(t.ops()[4], BusOp::Write(Vec::new()));
    assert_eq!(t.ops()[5], BusOp::Deselect);
}

#[test]
fn oversized_frame_is_refused_before_sending() {
    let mut t = Transport::new(BusConfig::panel_default());
    let r = t.send(&CommandFrame::new(0x2C, vec![0u8; TRANSFER_BUFFER_SIZE + 1]));
    assert_eq!(r, Err(TransportError::BufferOverflow));
    assert!(t.ops().is_empty());
}

#[test]
fn frame_filling_the_buffer_is_sent() {
    let mut t = Transport::new(BusConfig::panel_default());
    let r = t.send(&CommandFrame::new(0x2C, vec![7u8; TRANSFER_BUFFER_SIZE]));
    assert_eq!(r, Ok(()));
    assert_eq!(t.ops()[4], BusOp::Write(vec![7u8; TRANSFER_BUFFER_SIZE]));
}

#[test]
fn take_ops_leaves_none() {
    let mut t = Transport::new(BusConfig::panel_default());
    t.send(&CommandFrame::new(0x11, Vec::new())).unwrap();
    let ops = t.take_ops();
    assert_eq!(ops.len(), 6);
    assert!(t.ops().is_empty());
}

#[test]
fn bus_defaults() {
    let c = BusConfig::panel_default();
    assert_eq!(c.frequency_hz, 40_000_000);
    assert!(c.exclusive);
    let t = Transport::new(c);
    assert_eq!(t.buffer_capacity(), 1024);
    assert_eq!(t.config(), c);
}

#[test]
fn bring_up_sends_documented_opcodes() {
    let mut s = fresh_sequencer(true);
    assert_eq!(s.bring_up(), Ok(()));
    let frames = frames_seen(s.transport().ops());
    let opcodes: Vec<u8> = frames.iter().map(|f| f.0).collect();
    assert_eq!(
        opcodes,
        vec![
            0x36, 0x3A, 0x21, 0x2A, 0x2B, 0xB2, 0xB7, 0xBB, 0xC0, 0xC2, 0xC3, 0xC4, 0xC6, 0xD0,
            0xE0, 0xE1, 0x11, 0x29
        ]
    );
    assert_eq!(frames[7], (0xBB, vec![0x19]));
    assert_eq!(frames[5], (0xB2, vec![0x0C, 0x0C, 0x00, 0x33, 0x33]));
    assert_eq!(frames[13], (0xD0, vec![0xA4, 0xA1]));
    assert_eq!(frames[3], (0x2A, vec![0x00, 0x00, 0x00, 0xEF]));
    assert_eq!(frames[4], (0x2B, vec![0x00, 0x00, 0x00, 0xEF]));
    assert_eq!(frames[14].1.len(), 14);
    assert_eq!(frames[15].1.len(), 14);
}

#[test]
fn bring_up_starts_with_reset_pulse() {
    let mut s = fresh_sequencer(true);
    s.bring_up().unwrap();
    let ops = s.transport().ops();
    assert_eq!(ops[0], BusOp::Reset(false));
    assert_eq!(ops[1], BusOp::DelayMs(10));
    assert_eq!(ops[2], BusOp::Reset(true));
    assert_eq!(ops[3], BusOp::DelayMs(120));
    assert_eq!(ops[4], BusOp::Select);
}

#[test]
fn inversion_flag_picks_opcode() {
    let mut s = fresh_sequencer(false);
    s.bring_up().unwrap();
    assert_eq!(frames_seen(s.transport().ops())[2], (0x20, Vec::new()));
}

#[test]
fn bring_up_is_repeatable() {
    let mut a = fresh_sequencer(true);
    let mut b = fresh_sequencer(true);
    a.bring_up().unwrap();
    b.bring_up().unwrap();
    assert_eq!(a.transport().ops(), b.transport().ops());
}

#[test]
fn bring_up_ends_ready_with_display_on_last() {
    let mut s = fresh_sequencer(true);
    assert_eq!(s.state(), PanelState::Uninitialized);
    s.bring_up().unwrap();
    assert_eq!(s.state(), PanelState::Ready);
    let opcodes: Vec<u8> = frames_seen(s.transport().ops()).iter().map(|f| f.0).collect();
    assert_eq!(opcodes.iter().filter(|o| **o == SLEEP_OUT).count(), 1);
    assert_eq!(opcodes.iter().filter(|o| **o == DISPLAY_ON).count(), 1);
    let sleep = opcodes.iter().position(|o| *o == SLEEP_OUT).unwrap();
    let on = opcodes.iter().position(|o| *o == DISPLAY_ON).unwrap();
    for (i, o) in opcodes.iter().enumerate() {
        if *o == POSITIVE_GAMMA || *o == NEGATIVE_GAMMA {
            assert!(i < sleep && i < on);
        }
    }
    assert!(sleep < on);
}

#[test]
fn init_sequence_with_offset() {
    let g = DisplayGeometry { width: 240, height: 135, offset_x: 40, offset_y: 53 };
    let frames = init_sequence(&g, true);
    assert_eq!(frames.len(), 18);
    assert_eq!(frames[3], CommandFrame::new(0x2A, vec![0x00, 40, 0x01, 0x17]));
    assert_eq!(frames[4], CommandFrame::new(0x2B, vec![0x00, 53, 0x00, 0xBB]));
}

#[test]
fn draw_area_writes_window_and_pixels() {
    let mut s = fresh_sequencer(true);
    s.bring_up().unwrap();
    s.transport_mut().take_ops();
    assert_eq!(s.draw_area(10, 120, 2, 1, &vec![0xF800, 0x001F]), Ok(()));
    let frames = frames_seen(s.transport().ops());
    assert_eq!(
        frames,
        vec![
            (0x2A, vec![0x00, 10, 0x00, 11]),
            (0x2B, vec![0x00, 120, 0x00, 120]),
            (0x2C, vec![0xF8, 0x00, 0x00, 0x1F]),
        ]
    );
}

#[test]
fn draw_area_too_large_sends_nothing() {
    let mut s = fresh_sequencer(true);
    s.bring_up().unwrap();
    s.transport_mut().take_ops();
    let colors = vec![0u16; TRANSFER_BUFFER_SIZE / 2 + 1];
    assert_eq!(s.draw_area(0, 0, 240, 3, &colors), Err(TransportError::BufferOverflow));
    assert!(s.transport().ops().is_empty());
}

#[test]
fn render_forty_two() {
    let l = render(42).unwrap();
    assert_eq!(l.text.as_str(), "Count: 42");
    assert_eq!((l.x, l.y), (10, 120));
    assert_eq!((l.foreground, l.background), (0xFFFF, 0x0000));
}

#[test]
fn render_zero() {
    assert_eq!(render(0).unwrap().text.as_str(), "Count: 0");
}

#[test]
fn render_largest_counter() {
    let l = render(u32::MAX).unwrap();
    assert_eq!(l.text.as_str(), "Count: 4294967295");
    assert_eq!(l.glyphs.as_str(), "Count: 4294967295");
}

#[test]
fn glyphs_cover_the_cell() {
    let l = render(7).unwrap();
    assert_eq!(l.glyphs.as_str(), "Count: 7         ");
    assert_eq!(l.glyphs.len(), LABEL_WIDTH);
    assert_eq!(render(1234567).unwrap().glyphs.len(), LABEL_WIDTH);
}

#[test]
fn counter_wraps_to_zero() {
    assert_eq!(advance(u32::MAX), 0);
    assert_eq!(advance(41), 42);
}

#[test]
fn ticks_render_then_advance() {
    let mut st = RenderState::new();
    assert_eq!(st.counter(), 0);
    assert_eq!(st.tick().unwrap().text.as_str(), "Count: 0");
    assert_eq!(st.tick().unwrap().text.as_str(), "Count: 1");
    assert_eq!(st.counter(), 2);
}
