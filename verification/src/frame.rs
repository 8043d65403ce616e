//! The text of one display frame.
//!
//! The display shows four rows of sixteen glyphs and never clears itself
//! between writes, so every frame has to cover the whole grid. A frame holds
//! two labelled readings, each in a block of two rows:
//!
//! ```text
//! T:   23C........
//! ................
//! H:   45%........
//! ................
//! ```
//!
//! (dots stand for blanks).

use crate::buffer::{arraystring_try_push, arraystring_try_push_str, byte_len, TextBuffer, CAPACITY};
use vstd::prelude::*;
use vstd::utf8::{is_ascii_chars, is_ascii_chars_encode_utf8};

verus! {

/// Glyphs in one row of the display.
pub const COLUMNS: usize = 16;

/// Rows of glyphs on the display.
pub const ROWS: usize = 4;

/// Glyphs taken by one labelled reading together with its padding.
pub const BLOCK: usize = 32;

/// Largest reading that fits the two digits reserved for it.
pub const MAX_READING: u8 = 99;

/// Index in the frame of the first digit of the temperature.
pub const TEMPERATURE_OFFSET: usize = 5;

/// Index in the frame of the first digit of the humidity.
pub const HUMIDITY_OFFSET: usize = 37;

/// The decimal digit `d` as a character.
pub open spec fn digit(d: int) -> char {
    ('0' as int + d) as char
}

/// `value` written with exactly two decimal digits, zero-padded.
pub open spec fn two_digits(value: int) -> Seq<char> {
    seq![digit(value / 10), digit(value % 10)]
}

/// `n` blanks.
pub open spec fn blanks(n: nat) -> Seq<char> {
    Seq::new(n, |i: int| ' ')
}

/// One labelled reading, padded with blanks to [`BLOCK`] glyphs.
pub open spec fn block(label: char, value: int, unit: char) -> Seq<char> {
    seq![label, ':', ' ', ' ', ' '] + two_digits(value) + seq![unit] + blanks(24)
}

/// The frame that shows the given temperature and humidity.
pub open spec fn frame_text(temperature: int, humidity: int) -> Seq<char> {
    block('T', temperature, 'C') + block('H', humidity, '%')
}

/// Whether both readings fit their two-digit fields.
pub open spec fn displayable(temperature: int, humidity: int) -> bool {
    0 <= temperature <= MAX_READING && 0 <= humidity <= MAX_READING
}

/// The number that two decimal digits stand for.
pub open spec fn decimal(digits: Seq<char>) -> int {
    (digits[0] as int - '0' as int) * 10 + (digits[1] as int - '0' as int)
}

/// Every frame covers the display exactly: one glyph for each cell of the
/// grid, no more and no fewer.
pub proof fn lemma_frame_fills_display(temperature: int, humidity: int)
    requires
        displayable(temperature, humidity),
    ensures
        frame_text(temperature, humidity).len() == CAPACITY,
        CAPACITY == ROWS * COLUMNS,
        CAPACITY == 2 * BLOCK,
{
}

/// Each reading stands in the frame at its fixed offset, as the two decimal
/// digits of its value, with a leading zero below ten.
pub proof fn lemma_readings_at_offsets(temperature: int, humidity: int)
    requires
        displayable(temperature, humidity),
    ensures
        frame_text(temperature, humidity).subrange(
            TEMPERATURE_OFFSET as int,
            TEMPERATURE_OFFSET + 2,
        ) == two_digits(temperature),
        frame_text(temperature, humidity).subrange(HUMIDITY_OFFSET as int, HUMIDITY_OFFSET + 2)
            == two_digits(humidity),
        decimal(two_digits(temperature)) == temperature,
        decimal(two_digits(humidity)) == humidity,
        forall|i: int| 0 <= i < 2 ==> '0' <= #[trigger] two_digits(temperature)[i] <= '9',
        forall|i: int| 0 <= i < 2 ==> '0' <= #[trigger] two_digits(humidity)[i] <= '9',
{
    let frame = frame_text(temperature, humidity);
    assert(frame.subrange(TEMPERATURE_OFFSET as int, TEMPERATURE_OFFSET + 2) =~= two_digits(
        temperature,
    ));
    assert(frame.subrange(HUMIDITY_OFFSET as int, HUMIDITY_OFFSET + 2) =~= two_digits(humidity));
}

/// The labels, units and blanks of a frame are the same for all readings:
/// two frames differ at most in their four digits.
pub proof fn lemma_layout_is_fixed(first: (int, int), second: (int, int), i: int)
    requires
        displayable(first.0, first.1),
        displayable(second.0, second.1),
        0 <= i < CAPACITY,
        !(TEMPERATURE_OFFSET <= i < TEMPERATURE_OFFSET + 2),
        !(HUMIDITY_OFFSET <= i < HUMIDITY_OFFSET + 2),
    ensures
        frame_text(first.0, first.1)[i] == frame_text(second.0, second.1)[i],
{
}

/// Formatting the same readings twice gives the same text: what [`format`]
/// leaves in a buffer depends on nothing but the readings.
pub proof fn lemma_format_repeats(first: TextBuffer, second: TextBuffer, temp: u8, hum: u8)
    requires
        first@ == frame_text(temp as int, hum as int),
        second@ == frame_text(temp as int, hum as int),
    ensures
        first@ == second@,
{
}

/// An ASCII text takes one byte per character.
proof fn lemma_ascii_byte_len(chars: Seq<char>)
    requires
        is_ascii_chars(chars),
    ensures
        byte_len(chars) == chars.len(),
{
    is_ascii_chars_encode_utf8(chars);
}

/// Appends an ASCII character to an ASCII buffer that has room for it.
fn append_char(buf: &mut TextBuffer, c: char)
    requires
        is_ascii_chars(old(buf)@),
        c <= '\u{7f}',
        old(buf)@.len() < CAPACITY,
    ensures
        final(buf)@ == old(buf)@.push(c),
        is_ascii_chars(final(buf)@),
{
    proof {
        lemma_ascii_byte_len(buf@);
        lemma_ascii_byte_len(seq![c]);
    }
    let pushed = arraystring_try_push(buf, c);
    assert(pushed);
}

/// Appends an ASCII string to an ASCII buffer that has room for it.
fn append_str(buf: &mut TextBuffer, s: &str)
    requires
        is_ascii_chars(old(buf)@),
        is_ascii_chars(s@),
        old(buf)@.len() + s@.len() <= CAPACITY,
    ensures
        final(buf)@ == old(buf)@ + s@,
        is_ascii_chars(final(buf)@),
{
    proof {
        lemma_ascii_byte_len(buf@);
        lemma_ascii_byte_len(s@);
    }
    let pushed = arraystring_try_push_str(buf, s);
    assert(pushed);
}

/// Appends `value` as two decimal digits.
fn append_two_digits(buf: &mut TextBuffer, value: u8)
    requires
        is_ascii_chars(old(buf)@),
        value <= MAX_READING,
        old(buf)@.len() + 2 <= CAPACITY,
    ensures
        final(buf)@ == old(buf)@ + two_digits(value as int),
        is_ascii_chars(final(buf)@),
{
    let tens: u8 = value / 10;
    let ones: u8 = value % 10;
    append_char(buf, (48u8 + tens) as char);
    append_char(buf, (48u8 + ones) as char);
    assert(buf@ =~= old(buf)@ + two_digits(value as int));
}

/// Writes the frame for `temp` and `hum` into an empty buffer.
///
/// The frame always fills the buffer, so rendering it overwrites every glyph
/// of the previous frame. Readings above [`MAX_READING`] have no frame: their
/// digits would not fit the layout.
pub fn format(buf: &mut TextBuffer, temp: u8, hum: u8)
    requires
        old(buf)@.len() == 0,
        temp <= MAX_READING,
        hum <= MAX_READING,
    ensures
        final(buf)@ == frame_text(temp as int, hum as int),
        final(buf)@.len() == CAPACITY,
        final(buf)@.subrange(TEMPERATURE_OFFSET as int, TEMPERATURE_OFFSET + 2) == two_digits(
            temp as int,
        ),
        final(buf)@.subrange(HUMIDITY_OFFSET as int, HUMIDITY_OFFSET + 2) == two_digits(
            hum as int,
        ),
{
    proof {
        reveal_strlit("T:   ");
        reveal_strlit("C                        H:   ");
        reveal_strlit("%                        ");
    }
    append_str(buf, "T:   ");
    append_two_digits(buf, temp);
    append_str(buf, "C                        H:   ");
    append_two_digits(buf, hum);
    append_str(buf, "%                        ");
    assert(buf@ =~= frame_text(temp as int, hum as int));
}

/// The frame for the given readings, or `None` when a reading is above
/// [`MAX_READING`].
pub fn compose(temperature: u8, humidity: u8) -> (frame: Option<TextBuffer>)
    ensures
        frame is Some <==> displayable(temperature as int, humidity as int),
        frame matches Some(buf) ==> buf@ == frame_text(temperature as int, humidity as int),
{
    if temperature <= MAX_READING && humidity <= MAX_READING {
        let mut buf = TextBuffer::new();
        format(&mut buf, temperature, humidity);
        Some(buf)
    } else {
        None
    }
}

} // verus!
