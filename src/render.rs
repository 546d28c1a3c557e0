use vstd::prelude::*;

verus! {

/// Capacity in bytes of the text buffer.
pub const TEXT_CAPACITY: usize = 32;

/// Width in characters of the glyph cell: the prefix and the ten digits of
/// the largest `u32`.
pub const LABEL_WIDTH: usize = 17;

/// Where the label is drawn.
pub const LABEL_X: i32 = 10;
pub const LABEL_Y: i32 = 120;

/// Label colors, in 16-bit 5-6-5 RGB.
pub const FOREGROUND: u16 = 0xFFFF;
pub const BACKGROUND: u16 = 0x0000;

#[verifier::external_type_specification]
#[verifier::external_body]
pub struct ExHeaplessString<const N: usize>(heapless::String<N>);

/// The characters a text buffer holds.
pub uninterp spec fn text_chars(s: heapless::String<32>) -> Seq<char>;

pub open spec fn all_ascii(s: Seq<char>) -> bool {
    forall|i: int| 0 <= i < s.len() ==> (#[trigger] s[i]) as u32 <= 0x7F
}

/// Relies on heapless::String::new: the new buffer is empty.
#[verifier::external_body]
fn empty_text() -> (r: heapless::String<32>)
    ensures
        text_chars(r) == Seq::<char>::empty(),
{
    heapless::String::new()
}

/// Relies on heapless::String::push: an ASCII character takes one byte; it
/// is appended when a byte is free, else the buffer is left as it was and an
/// error is returned.
#[verifier::external_body]
fn push_char(s: &mut heapless::String<32>, c: char) -> (r: Result<(), ()>)
    requires
        all_ascii(text_chars(*old(s))),
        c as u32 <= 0x7F,
    ensures
        text_chars(*old(s)).len() < 32 ==> r is Ok && text_chars(*final(s)) == text_chars(
            *old(s),
        ).push(c),
        text_chars(*old(s)).len() >= 32 ==> r is Err && text_chars(*final(s)) == text_chars(
            *old(s),
        ),
{
    s.push(c)
}

#[derive(Clone, Copy, Debug, PartialEq, Eq, Structural)]
pub enum RenderError {
    /// The text does not fit in the text buffer.
    TextOverflow,
}

/// Counter value that follows `counter` on one tick: one more, wrapping to
/// zero past the largest `u32`.
pub open spec fn next_count(counter: u32) -> u32 {
    if counter == u32::MAX {
        0
    } else {
        (counter + 1) as u32
    }
}

/// Advances the frame counter by one, wrapping to zero past `u32::MAX`.
pub fn advance(counter: u32) -> (r: u32)
    ensures
        r == next_count(counter),
{
    counter.wrapping_add(1)
}

/// Past its largest value the counter wraps to zero; below it, it counts up
/// by one.
pub proof fn lemma_counter_wraps(counter: u32)
    ensures
        counter == u32::MAX ==> next_count(counter) == 0,
        counter < u32::MAX ==> next_count(counter) == counter + 1,
{
}

pub open spec fn digit_char(d: nat) -> char {
    if d == 0 {
        '0'
    } else if d == 1 {
        '1'
    } else if d == 2 {
        '2'
    } else if d == 3 {
        '3'
    } else if d == 4 {
        '4'
    } else if d == 5 {
        '5'
    } else if d == 6 {
        '6'
    } else if d == 7 {
        '7'
    } else if d == 8 {
        '8'
    } else {
        '9'
    }
}

/// Decimal digits of `n`, most significant first, without leading zeros.
pub open spec fn decimal(n: nat) -> Seq<char>
    decreases n,
{
    if n < 10 {
        seq![digit_char(n)]
    } else {
        decimal(n / 10).push(digit_char(n % 10))
    }
}

pub open spec fn label_prefix() -> Seq<char> {
    seq!['C', 'o', 'u', 'n', 't', ':', ' ']
}

/// Text shown for a counter value.
pub open spec fn label_text(counter: u32) -> Seq<char> {
    label_prefix() + decimal(counter as nat)
}

pub open spec fn spaces(n: nat) -> Seq<char> {
    Seq::new(n, |i: int| ' ')
}

/// The text padded with spaces to the width of the glyph cell, so that each
/// draw covers everything an earlier one drew.
pub open spec fn label_glyphs(counter: u32) -> Seq<char> {
    label_text(counter) + spaces((LABEL_WIDTH - label_text(counter).len()) as nat)
}

pub open spec fn ten_pow(k: nat) -> nat
    decreases k,
{
    if k == 0 {
        1
    } else {
        10 * ten_pow((k - 1) as nat)
    }
}

proof fn lemma_decimal_len_bound(n: nat, k: nat)
    requires
        n < ten_pow(k),
        k >= 1,
    ensures
        decimal(n).len() <= k,
        decimal(n).len() >= 1,
    decreases n,
{
    if n >= 10 {
        assert(k >= 2) by {
            if k == 0 {
            } else if k == 1 {
                assert(ten_pow(1) == 10) by { reveal_with_fuel(ten_pow, 2); }
            }
        }
        let p = ten_pow((k - 1) as nat);
        assert(n / 10 < p) by (nonlinear_arith)
            requires n < 10 * p;
        lemma_decimal_len_bound(n / 10, (k - 1) as nat);
    }
}

proof fn lemma_decimal_ascii(n: nat)
    ensures
        all_ascii(decimal(n)),
    decreases n,
{
    if n >= 10 {
        lemma_decimal_ascii(n / 10);
    }
}

/// A `u32` has at most ten decimal digits.
proof fn lemma_u32_digits(n: u32)
    ensures
        1 <= decimal(n as nat).len() <= 10,
{
    assert(ten_pow(10) == 10_000_000_000) by { reveal_with_fuel(ten_pow, 11); }
    lemma_decimal_len_bound(n as nat, 10);
}

fn digit(d: u32) -> (r: char)
    requires
        d < 10,
    ensures
        r == digit_char(d as nat),
{
    if d == 0 {
        '0'
    } else if d == 1 {
        '1'
    } else if d == 2 {
        '2'
    } else if d == 3 {
        '3'
    } else if d == 4 {
        '4'
    } else if d == 5 {
        '5'
    } else if d == 6 {
        '6'
    } else if d == 7 {
        '7'
    } else if d == 8 {
        '8'
    } else {
        '9'
    }
}

/// Appends the decimal digits of `n`.
fn push_decimal(s: &mut heapless::String<32>, n: u32) -> (r: Result<(), ()>)
    requires
        all_ascii(text_chars(*old(s))),
        text_chars(*old(s)).len() + decimal(n as nat).len() <= TEXT_CAPACITY,
    ensures
        r is Ok,
        text_chars(*final(s)) == text_chars(*old(s)) + decimal(n as nat),
    decreases n,
{
    if n >= 10 {
        match push_decimal(s, n / 10) {
            Ok(()) => {},
            Err(e) => {
                return Err(e);
            },
        }
        proof {
            lemma_decimal_ascii(n as nat / 10);
            assert forall|i: int| 0 <= i < text_chars(*s).len() implies (#[trigger] text_chars(
                *s,
            )[i]) as u32 <= 0x7F by {
                if i >= text_chars(*old(s)).len() {
                    assert(text_chars(*s)[i] == decimal(n as nat / 10)[i - text_chars(
                        *old(s),
                    ).len()]);
                }
            }
        }
    }
    let r = push_char(s, digit(n % 10));
    assert(text_chars(*s) =~= text_chars(*old(s)) + decimal(n as nat));
    r
}

/// Appends each of `chars` in order.
fn push_chars(s: &mut heapless::String<32>, chars: &[char]) -> (r: Result<(), ()>)
    requires
        all_ascii(text_chars(*old(s))),
        all_ascii(chars@),
        text_chars(*old(s)).len() + chars@.len() <= TEXT_CAPACITY,
    ensures
        r is Ok,
        text_chars(*final(s)) == text_chars(*old(s)) + chars@,
{
    let mut i: usize = 0;
    while i < chars.len()
        invariant
            i <= chars@.len(),
            all_ascii(chars@),
            text_chars(*old(s)).len() + chars@.len() <= TEXT_CAPACITY,
            all_ascii(text_chars(*old(s))),
            text_chars(*s) == text_chars(*old(s)) + chars@.subrange(0, i as int),
        decreases chars@.len() - i,
    {
        assert(all_ascii(text_chars(*s))) by {
            assert forall|k: int| 0 <= k < text_chars(*s).len() implies (#[trigger] text_chars(
                *s,
            )[k]) as u32 <= 0x7F by {
                if k >= text_chars(*old(s)).len() {
                    assert(text_chars(*s)[k] == chars@[k - text_chars(*old(s)).len()]);
                }
            }
        }
        match push_char(s, chars[i]) {
            Ok(()) => {},
            Err(e) => {
                return Err(e);
            },
        }
        assert(chars@.subrange(0, i + 1) =~= chars@.subrange(0, i as int).push(chars@[i as int]));
        i = i + 1;
    }
    assert(chars@.subrange(0, i as int) =~= chars@);
    Ok(())
}


/// Number of decimal digits of `n`.
fn digit_count(n: u32) -> (r: usize)
    ensures
        r == decimal(n as nat).len(),
    decreases n,
{
    proof {
        lemma_u32_digits(n);
    }
    if n < 10 {
        1
    } else {
        1 + digit_count(n / 10)
    }
}

/// One draw: the text, the glyph run that covers the whole cell, where it
/// goes and in which colors.
pub struct Label {
    pub text: heapless::String<32>,
    pub glyphs: heapless::String<32>,
    pub x: i32,
    pub y: i32,
    pub foreground: u16,
    pub background: u16,
}

/// Builds `"Count: "` followed by the decimal digits of `counter`.
fn count_text(counter: u32) -> (r: Result<heapless::String<32>, RenderError>)
    ensures
        r matches Ok(t) && text_chars(t) == label_text(counter),
{
    let prefix: [char; 7] = ['C', 'o', 'u', 'n', 't', ':', ' '];
    assert(prefix@ == label_prefix());
    let mut t = empty_text();
    proof {
        lemma_u32_digits(counter);
        lemma_decimal_ascii(counter as nat);
    }
    if push_chars(&mut t, &prefix).is_err() {
        return Err(RenderError::TextOverflow);
    }
    assert(all_ascii(text_chars(t))) by {
        assert(text_chars(t) =~= label_prefix());
    }
    if push_decimal(&mut t, counter).is_err() {
        return Err(RenderError::TextOverflow);
    }
    Ok(t)
}

/// Renders the label for one tick: the text is `"Count: "` and the decimal
/// digits of `counter`; the glyph run is that text padded with spaces to
/// `LABEL_WIDTH`, drawn at a fixed place in white on black.
pub fn render(counter: u32) -> (r: Result<Label, RenderError>)
    ensures
        r matches Ok(l) && {
            &&& text_chars(l.text) == label_text(counter)
            &&& text_chars(l.glyphs) == label_glyphs(counter)
            &&& l.x == LABEL_X
            &&& l.y == LABEL_Y
            &&& l.foreground == FOREGROUND
            &&& l.background == BACKGROUND
        },
{
    let text = match count_text(counter) {
        Ok(t) => t,
        Err(e) => return Err(e),
    };
    let mut glyphs = match count_text(counter) {
        Ok(t) => t,
        Err(e) => return Err(e),
    };
    proof {
        lemma_u32_digits(counter);
        lemma_decimal_ascii(counter as nat);
        assert(all_ascii(label_text(counter))) by {
            assert forall|k: int| 0 <= k < label_text(counter).len() implies (
            #[trigger] label_text(counter)[k]) as u32 <= 0x7F by {
                if k >= 7 {
                    assert(label_text(counter)[k] == decimal(counter as nat)[k - 7]);
                }
            }
        }
    }
    let used: usize = 7 + digit_count(counter);
    let pad: usize = LABEL_WIDTH - used;
    let mut i: usize = 0;
    while i < pad
        invariant
            used == label_text(counter).len(),
            pad == LABEL_WIDTH - used,
            used <= LABEL_WIDTH,
            i <= pad,
            all_ascii(label_text(counter)),
            text_chars(glyphs) == label_text(counter) + spaces(i as nat),
        decreases pad - i,
    {
        assert(all_ascii(text_chars(glyphs))) by {
            assert forall|k: int| 0 <= k < text_chars(glyphs).len() implies (
            #[trigger] text_chars(glyphs)[k]) as u32 <= 0x7F by {
                if k < used {
                    assert(text_chars(glyphs)[k] == label_text(counter)[k]);
                } else {
                    assert(text_chars(glyphs)[k] == spaces(i as nat)[k - used]);
                }
            }
        }
        if push_char(&mut glyphs, ' ').is_err() {
            return Err(RenderError::TextOverflow);
        }
        assert(spaces((i + 1) as nat) =~= spaces(i as nat).push(' '));
        i = i + 1;
    }
    Ok(Label {
        text,
        glyphs,
        x: LABEL_X,
        y: LABEL_Y,
        foreground: FOREGROUND,
        background: BACKGROUND,
    })
}

/// The frame loop's state: the counter shown next.
pub struct RenderState {
    counter: u32,
}

impl RenderState {
    pub closed spec fn count(&self) -> u32 {
        self.counter
    }

    /// Starts at zero.
    pub fn new() -> (r: RenderState)
        ensures
            r.count() == 0,
    {
        RenderState { counter: 0 }
    }

    pub fn counter(&self) -> (r: u32)
        ensures
            r == self.count(),
    {
        self.counter
    }

    /// One iteration of the frame loop: renders the current counter, then
    /// advances it, wrapping to zero past its largest value.
    pub fn tick(&mut self) -> (r: Result<Label, RenderError>)
        ensures
            final(self).count() == next_count(old(self).count()),
            r matches Ok(l) && {
                &&& text_chars(l.text) == label_text(old(self).count())
                &&& text_chars(l.glyphs) == label_glyphs(old(self).count())
                &&& l.x == LABEL_X
                &&& l.y == LABEL_Y
                &&& l.foreground == FOREGROUND
                &&& l.background == BACKGROUND
            },
    {
        let r = render(self.counter);
        self.counter = advance(self.counter);
        r
    }
}

} // verus!
