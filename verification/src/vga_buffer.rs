//! The text-mode display: colours, screen characters, and the writer that
//! keeps a cursor over a buffer of characters.
use vstd::prelude::*;
use vstd::string::StringSliceAdditionalSpecFns;
use ansi_parser::{AnsiParser, AnsiSequence, Output};
use vstd::utf8::{decode_utf8, encode_utf8, valid_utf8};

verus! {

/// The sixteen colours of the text-mode display.
#[derive(Debug, Clone, Copy, PartialEq, Eq, Structural)]
pub enum Colour {
    Black,
    Blue,
    Green,
    Cyan,
    Red,
    Magenta,
    Brown,
    LightGray,
    DarkGray,
    LightBlue,
    LightGreen,
    LightCyan,
    LightRed,
    Pink,
    Yellow,
    White,
}

impl Colour {
    /// The colour's number in the display's palette.
    pub open spec fn number(self) -> int {
        match self {
            Colour::Black => 0,
            Colour::Blue => 1,
            Colour::Green => 2,
            Colour::Cyan => 3,
            Colour::Red => 4,
            Colour::Magenta => 5,
            Colour::Brown => 6,
            Colour::LightGray => 7,
            Colour::DarkGray => 8,
            Colour::LightBlue => 9,
            Colour::LightGreen => 10,
            Colour::LightCyan => 11,
            Colour::LightRed => 12,
            Colour::Pink => 13,
            Colour::Yellow => 14,
            Colour::White => 15,
        }
    }

    /// The colour's number in the display's palette.
    pub fn code(self) -> (code: u8)
        ensures
            code == self.number(),
            code < 16,
    {
        match self {
            Colour::Black => 0,
            Colour::Blue => 1,
            Colour::Green => 2,
            Colour::Cyan => 3,
            Colour::Red => 4,
            Colour::Magenta => 5,
            Colour::Brown => 6,
            Colour::LightGray => 7,
            Colour::DarkGray => 8,
            Colour::LightBlue => 9,
            Colour::LightGreen => 10,
            Colour::LightCyan => 11,
            Colour::LightRed => 12,
            Colour::Pink => 13,
            Colour::Yellow => 14,
            Colour::White => 15,
        }
    }
}

/// A foreground and a background colour in one byte: the background in the
/// high four bits, the foreground in the low four.
#[derive(Debug, Clone, Copy, PartialEq, Eq, Structural)]
pub struct ColourCode(pub u8);

impl ColourCode {
    /// The code of `foreground` on `background`.
    pub fn new(foreground: Colour, background: Colour) -> (code: ColourCode)
        ensures
            code.0 == background.number() * 16 + foreground.number(),
    {
        let high = background.code();
        let low = foreground.code();
        assert(high << 4 | low == high * 16 + low) by (bit_vector)
            requires
                high < 16,
                low < 16,
        ;
        ColourCode(high << 4 | low)
    }

    /// The code as two numbers that add up to it, the first at most `0x7f`.
    pub open spec fn escape(self) -> (int, int) {
        if self.0 > 0x7f {
            (0x7f, self.0 - 0x7f)
        } else {
            (self.0 as int, 0)
        }
    }

    /// The two numbers of `escape` as an array of bytes.
    pub open spec fn escape_array(self) -> [u8; 2] {
        if self.0 > 0x7f {
            [0x7fu8, (self.0 - 0x7f) as u8]
        } else {
            [self.0, 0u8]
        }
    }

    /// The code as two bytes that add up to it, the first at most `0x7f`.
    pub fn escape_bytes(self) -> (bytes: [u8; 2])
        ensures
            bytes == self.escape_array(),
            bytes[0] == self.escape().0,
            bytes[1] == self.escape().1,
            bytes[0] + bytes[1] == self.0,
    {
        if self.0 > 0x7f {
            [0x7f, self.0 - 0x7f]
        } else {
            [self.0, 0]
        }
    }
}

impl From<ColourCode> for u8 {
    fn from(code: ColourCode) -> (byte: u8) {
        code.0
    }
}

impl vstd::std_specs::convert::FromSpecImpl<ColourCode> for u8 {
    open spec fn obeys_from_spec() -> bool {
        true
    }

    open spec fn from_spec(code: ColourCode) -> u8 {
        code.0
    }
}

impl From<u8> for ColourCode {
    fn from(byte: u8) -> (code: ColourCode) {
        ColourCode(byte)
    }
}

impl vstd::std_specs::convert::FromSpecImpl<u8> for ColourCode {
    open spec fn obeys_from_spec() -> bool {
        true
    }

    open spec fn from_spec(byte: u8) -> ColourCode {
        ColourCode(byte)
    }
}

impl From<ColourCode> for [u8; 2] {
    fn from(code: ColourCode) -> (bytes: [u8; 2]) {
        code.escape_bytes()
    }
}

impl vstd::std_specs::convert::FromSpecImpl<ColourCode> for [u8; 2] {
    open spec fn obeys_from_spec() -> bool {
        true
    }

    open spec fn from_spec(code: ColourCode) -> [u8; 2] {
        code.escape_array()
    }
}

impl Default for ColourCode {
    /// White on black.
    fn default() -> (code: ColourCode)
        ensures
            code.0 == 0x0f,
    {
        ColourCode(0x0f)
    }
}

/// The text that `String::from_utf8_lossy` makes of `bytes`.
pub uninterp spec fn utf8_lossy(bytes: Seq<u8>) -> Seq<char>;

/// `String::from_utf8_lossy`, made a `String` by `into_owned`: the text that
/// `bytes` encode, with a replacement character for each part that is no
/// valid UTF-8. Where all of `bytes` is valid UTF-8 nothing is replaced.
#[verifier::external_body]
fn string_from_utf8_lossy(bytes: &Vec<u8>) -> (text: String)
    ensures
        text@ == utf8_lossy(bytes@),
        valid_utf8(bytes@) ==> text@ == decode_utf8(bytes@),
{
    String::from_utf8_lossy(bytes).into_owned()
}

/// A text together with the colours to show it in.
#[derive(Debug, Clone, PartialEq, Eq)]
pub struct ColourText(pub u8, pub String);

impl ColourText {
    /// `text` in the colours `colour_code`.
    pub fn colour(colour_code: ColourCode, text: &str) -> (coloured: ColourText)
        ensures
            coloured.0 == colour_code.0,
            coloured.1@ == text@,
    {
        ColourText(colour_code.0, text.to_owned())
    }

    /// `text` in white on black.
    pub fn text(text: String) -> (coloured: ColourText)
        ensures
            coloured.0 == 0x0f,
            coloured.1 == text,
    {
        ColourText(0x0f, text)
    }

    /// The bytes that announce the colours and carry the text: a zero byte,
    /// the two bytes of the colour code, the text, and three zero bytes.
    pub open spec fn encoding(&self) -> Seq<u8> {
        seq![0u8, ColourCode(self.0).escape().0 as u8, ColourCode(self.0).escape().1 as u8]
            + encode_utf8(self.1@) + seq![0u8, 0u8, 0u8]
    }

    /// The bytes that announce the colours and carry the text.
    pub fn encoded(&self) -> (bytes: Vec<u8>)
        ensures
            bytes@ == self.encoding(),
    {
        let escape = ColourCode(self.0).escape_bytes();
        let text = self.1.as_str().as_bytes();
        let mut out: Vec<u8> = Vec::new();
        out.push(0);
        out.push(escape[0]);
        out.push(escape[1]);
        let ghost head = out@;
        let mut i: usize = 0;
        while i < text.len()
            invariant
                i <= text.len(),
                out@ == head + text@.take(i as int),
            decreases text.len() - i,
        {
            out.push(text[i]);
            assert(out@ =~= head + text@.take(i + 1));
            i += 1;
        }
        assert(text@.take(i as int) =~= text@);
        out.push(0);
        out.push(0);
        out.push(0);
        assert(out@ =~= self.encoding());
        out
    }

    /// The coloured text as a string: its encoding, read as UTF-8, with a
    /// replacement character wherever a colour byte is no valid UTF-8.
    pub fn to_string(&self) -> (text: String)
        ensures
            text@ == utf8_lossy(self.encoding()),
            valid_utf8(self.encoding()) ==> text@ == decode_utf8(self.encoding()),
    {
        let bytes = self.encoded();
        string_from_utf8_lossy(&bytes)
    }
}

impl<'a> From<&'a str> for ColourText {
    /// `value` in white on black.
    fn from(value: &'a str) -> (coloured: ColourText)
        ensures
            coloured.0 == 0x0f,
            coloured.1@ == value@,
    {
        ColourText(0x0f, value.to_owned())
    }
}

impl<'a> vstd::std_specs::convert::FromSpecImpl<&'a str> for ColourText {
    open spec fn obeys_from_spec() -> bool {
        false
    }

    open spec fn from_spec(value: &'a str) -> ColourText {
        arbitrary()
    }
}

/// One cell of the display: a character and the colours it is shown in.
#[derive(Debug, Clone, Copy, PartialEq, Eq, Structural)]
pub struct ScreenChar {
    pub ascii_character: u8,
    pub colour_code: u8,
}

impl Default for ScreenChar {
    /// A space without colours.
    fn default() -> (character: ScreenChar)
        ensures
            character == (ScreenChar { ascii_character: 0x20, colour_code: 0 }),
    {
        ScreenChar { ascii_character: 0x20, colour_code: 0 }
    }
}

/// A position along one axis of a display that has `MAX` places there.
#[derive(Debug, Clone, Copy, PartialEq, Eq)]
pub struct ScreenPosition<const MAX: usize>(pub usize);

impl<const MAX: usize> From<ScreenPosition<MAX>> for usize {
    fn from(position: ScreenPosition<MAX>) -> (place: usize) {
        position.0
    }
}

impl<const MAX: usize> vstd::std_specs::convert::FromSpecImpl<ScreenPosition<MAX>> for usize {
    open spec fn obeys_from_spec() -> bool {
        true
    }

    open spec fn from_spec(position: ScreenPosition<MAX>) -> usize {
        position.0
    }
}

impl<const MAX: usize> ScreenPosition<MAX> {
    /// The position `rhs` places on, counted round the axis: past the last
    /// place comes the first.
    pub fn add_assign(&mut self, rhs: usize)
        requires
            MAX > 0,
            old(self).0 + rhs <= usize::MAX,
        ensures
            final(self).0 == (old(self).0 + rhs) % (MAX as int),
            final(self).0 < MAX,
    {
        self.0 = (self.0 + rhs) % MAX;
    }

    /// The position `rhs` places back, but not before the first place, and
    /// not past the place behind the last.
    pub fn sub_assign(&mut self, rhs: usize)
        ensures
            final(self).0 == if old(self).0 - rhs < 0 {
                0
            } else if old(self).0 - rhs > MAX {
                MAX as int
            } else {
                old(self).0 - rhs
            },
    {
        let moved = if self.0 < rhs {
            0
        } else {
            self.0 - rhs
        };
        self.0 = if moved > MAX {
            MAX
        } else {
            moved
        };
    }
}

/// One piece of a text with escape sequences: a run of plain text, or one
/// escape sequence.
#[derive(Debug, Clone, PartialEq, Eq)]
pub enum AnsiItem {
    /// Plain text, as its bytes.
    TextBlock(Vec<u8>),
    /// Set the colours, by the parameters given.
    SetGraphicsMode(Vec<u8>),
    /// Blank the display.
    EraseDisplay,
    /// Blank the cursor's row.
    EraseLine,
    CursorUp(u32),
    CursorDown(u32),
    CursorForward(u32),
    CursorBackward(u32),
    /// An escape sequence that the writer does not act on.
    Unsupported,
}

/// The pieces that `ansi_parse` splits `text` into, in order.
pub uninterp spec fn ansi_items(text: Seq<char>) -> Seq<AnsiItem>;

/// `AnsiParser::ansi_parse` on `text`, its pieces collected: the runs of
/// plain text and the escape sequences of `text`, in order. Of the escape
/// sequences, those that the writer acts on keep their parameters.
#[verifier::external_body]
fn ansi_parse(text: &str) -> (items: Vec<AnsiItem>)
    ensures
        items@ == ansi_items(text@),
{
    text.ansi_parse().map(|output| match output {
        Output::TextBlock(text) => AnsiItem::TextBlock(text.as_bytes().to_vec()),
        Output::Escape(AnsiSequence::SetGraphicsMode(params)) => {
            AnsiItem::SetGraphicsMode(params.to_vec())
        },
        Output::Escape(AnsiSequence::EraseDisplay) => AnsiItem::EraseDisplay,
        Output::Escape(AnsiSequence::EraseLine) => AnsiItem::EraseLine,
        Output::Escape(AnsiSequence::CursorUp(x)) => AnsiItem::CursorUp(x),
        Output::Escape(AnsiSequence::CursorDown(x)) => AnsiItem::CursorDown(x),
        Output::Escape(AnsiSequence::CursorForward(x)) => AnsiItem::CursorForward(x),
        Output::Escape(AnsiSequence::CursorBackward(x)) => AnsiItem::CursorBackward(x),
        Output::Escape(_) => AnsiItem::Unsupported,
    }).collect()
}

/// A line feed was to be shown as a character.
#[derive(Debug, Clone, Copy, PartialEq, Eq, Structural)]
pub struct LineFeed;

/// The characters of a display of `Y` rows with `X` places each.
pub struct Buffer<const X: usize, const Y: usize> {
    chars: Vec<Vec<ScreenChar>>,
}

impl<const X: usize, const Y: usize> Buffer<X, Y> {
    /// The rows of the display, top first, each from left to right.
    pub closed spec fn view(&self) -> Seq<Seq<ScreenChar>> {
        Seq::new(self.chars@.len(), |r: int| self.chars@[r]@)
    }

    /// The buffer has `Y` rows of `X` characters.
    pub open spec fn wf(&self) -> bool {
        &&& self@.len() == Y
        &&& forall|r: int| 0 <= r < Y ==> (#[trigger] self@[r]).len() == X
    }

    /// A buffer that shows `fill` in every place.
    pub fn new(fill: ScreenChar) -> (buffer: Buffer<X, Y>)
        ensures
            buffer.wf(),
            forall|r: int, c: int| 0 <= r < Y && 0 <= c < X ==> buffer@[r][c] == fill,
    {
        let mut chars: Vec<Vec<ScreenChar>> = Vec::new();
        let mut r: usize = 0;
        while r < Y
            invariant
                r <= Y,
                chars.len() == r,
                forall|q: int| 0 <= q < r ==> (#[trigger] chars@[q])@.len() == X,
                forall|q: int, c: int| 0 <= q < r && 0 <= c < X ==> chars@[q]@[c] == fill,
            decreases Y - r,
        {
            let mut line: Vec<ScreenChar> = Vec::new();
            let mut c: usize = 0;
            while c < X
                invariant
                    c <= X,
                    line.len() == c,
                    forall|k: int| 0 <= k < c ==> line@[k] == fill,
                decreases X - c,
            {
                line.push(fill);
                c += 1;
            }
            chars.push(line);
            r += 1;
        }
        Buffer { chars }
    }

    /// Shows `character` at column `col` of row `row`.
    pub fn write(&mut self, row: usize, col: usize, character: ScreenChar)
        requires
            old(self).wf(),
            row < Y,
            col < X,
        ensures
            final(self).wf(),
            final(self)@ == old(self)@.update(
                row as int,
                old(self)@[row as int].update(col as int, character),
            ),
    {
        assert(old(self)@[row as int].len() == X);
        self.chars[row][col] = character;
        assert(self@ =~= old(self)@.update(
            row as int,
            old(self)@[row as int].update(col as int, character),
        ));
        assert forall|r: int| 0 <= r < Y implies (#[trigger] self@[r]).len() == X by {
            assert(old(self)@[r].len() == X);
        }
    }

    /// Shows `byte` in the colours `colour_code` at column `col` of row
    /// `row`. A line feed cannot be shown: it is refused and nothing changes.
    pub fn write_char(&mut self, colour_code: ColourCode, byte: u8, row: usize, col: usize) -> (result:
        Result<(), LineFeed>)
        requires
            old(self).wf(),
            byte != 0x0a ==> row < Y && col < X,
        ensures
            final(self).wf(),
            byte == 0x0a ==> result is Err && final(self)@ == old(self)@,
            byte != 0x0a ==> result is Ok && final(self)@ == old(self)@.update(
                row as int,
                old(self)@[row as int].update(
                    col as int,
                    ScreenChar { ascii_character: byte, colour_code: colour_code.0 },
                ),
            ),
    {
        if byte == 0x0a {
            Err(LineFeed)
        } else {
            self.write(row, col, ScreenChar { ascii_character: byte, colour_code: colour_code.0 });
            Ok(())
        }
    }

    /// Shows a space in the colours `colour` in every place.
    pub fn clear_screen(&mut self, colour: ColourCode)
        requires
            old(self).wf(),
        ensures
            final(self).wf(),
            forall|r: int, c: int|
                0 <= r < Y && 0 <= c < X ==> final(self)@[r][c] == (ScreenChar {
                    ascii_character: 0x20,
                    colour_code: colour.0,
                }),
    {
        let space = ScreenChar { ascii_character: 0x20, colour_code: colour.0 };
        let mut r: usize = 0;
        while r < Y
            invariant
                self.wf(),
                r <= Y,
                forall|q: int, c: int| 0 <= q < r && 0 <= c < X ==> self@[q][c] == space,
            decreases Y - r,
        {
            let mut c: usize = 0;
            while c < X
                invariant
                    self.wf(),
                    r < Y,
                    c <= X,
                    forall|q: int, k: int| 0 <= q < r && 0 <= k < X ==> self@[q][k] == space,
                    forall|k: int| 0 <= k < c ==> self@[r as int][k] == space,
                decreases X - c,
            {
                self.write(r, c, space);
                c += 1;
            }
            r += 1;
        }
    }

    /// What is shown at column `col` of row `row`.
    pub fn read(&self, row: usize, col: usize) -> (character: ScreenChar)
        requires
            self.wf(),
            row < Y,
            col < X,
        ensures
            character == self@[row as int][col as int],
    {
        assert(self@[row as int].len() == X);
        self.chars[row][col]
    }

    /// Moves every row but the first one up by one row. The last row is left
    /// as it was.
    pub fn scroll_up(&mut self)
        requires
            old(self).wf(),
            Y > 0,
        ensures
            final(self).wf(),
            final(self)@ == old(self)@.skip(1).push(old(self)@[Y - 1]),
    {
        let mut r: usize = 0;
        while r + 1 < Y
            invariant
                self.wf(),
                old(self).wf(),
                r < Y,
                forall|q: int| 0 <= q < r ==> #[trigger] self@[q] == old(self)@[q + 1],
                forall|q: int| r <= q < Y ==> #[trigger] self@[q] == old(self)@[q],
            decreases Y - r,
        {
            let mut c: usize = 0;
            let ghost at_row_start = self@;
            while c < X
                invariant
                    self.wf(),
                    r + 1 < Y,
                    c <= X,
                    forall|q: int| 0 <= q < Y && q != r ==> self@[q] == at_row_start[q],
                    forall|k: int| 0 <= k < c ==> self@[r as int][k] == at_row_start[r + 1][k],
                    forall|k: int| c <= k < X ==> self@[r as int][k] == at_row_start[r as int][k],
                    at_row_start.len() == Y,
                    forall|q: int| 0 <= q < Y ==> (#[trigger] at_row_start[q]).len() == X,
                decreases X - c,
            {
                let character = self.read(r + 1, c);
                self.write(r, c, character);
                c += 1;
            }
            assert(self@[r as int] =~= at_row_start[r + 1]);
            assert(at_row_start[r + 1] == old(self)@[r + 1]);
            assert forall|q: int| 0 <= q < r + 1 implies #[trigger] self@[q] == old(self)@[q + 1] by {
                if q < r {
                    assert(at_row_start[q] == old(self)@[q + 1]);
                }
            }
            assert forall|q: int| r + 1 <= q < Y implies #[trigger] self@[q] == old(self)@[q] by {
                assert(at_row_start[q] == old(self)@[q]);
            }
            r += 1;
        }
        assert(self@ =~= old(self)@.skip(1).push(old(self)@[Y - 1]));
    }
}

/// The writer as the contracts see it.
#[verifier::ext_equal]
pub struct Screen {
    /// The cursor's column.
    pub column: int,
    /// The cursor's row.
    pub row: int,
    /// The rows of the display, top first, each from left to right.
    pub cells: Seq<Seq<ScreenChar>>,
    /// The colours in which text is written.
    pub colour_code: u8,
    /// Whether the colours are kept as they are.
    pub lock_colour: bool,
    /// How many places a row has.
    pub width: int,
    /// How many rows the display has.
    pub height: int,
}

impl Screen {
    /// The cursor is on the display, and the display has `height` rows of
    /// `width` places.
    pub open spec fn wf(self) -> bool {
        &&& 0 <= self.column < self.width
        &&& 0 <= self.row < self.height
        &&& self.cells.len() == self.height
        &&& forall|r: int| 0 <= r < self.height ==> (#[trigger] self.cells[r]).len() == self.width
    }

    /// A space in the current colours.
    pub open spec fn blank(self) -> ScreenChar {
        ScreenChar { ascii_character: 0x20, colour_code: self.colour_code }
    }

    /// The screen with `character` in every place of row `row`.
    pub open spec fn with_row(self, row: int, character: ScreenChar) -> Screen {
        Screen {
            cells: self.cells.update(row, Seq::new(self.width as nat, |c: int| character)),
            ..self
        }
    }

    /// The screen with a blank in every place and the cursor at the top left.
    pub open spec fn cleared(self) -> Screen {
        Screen {
            column: 0,
            row: 0,
            cells: Seq::new(
                self.height as nat,
                |r: int| Seq::new(self.width as nat, |c: int| self.blank()),
            ),
            ..self
        }
    }

    /// The screen with the cursor at the start of the next row, which is
    /// blank. From the last row the display scrolls: every row moves up by
    /// one, the top row is lost, and the cursor stays in the last row.
    pub open spec fn new_line(self) -> Screen {
        if self.row + 1 < self.height {
            Screen { column: 0, row: self.row + 1, ..self }.with_row(self.row + 1, self.blank())
        } else {
            Screen {
                column: 0,
                row: self.height - 1,
                cells: self.cells.skip(1).push(Seq::new(self.width as nat, |c: int| self.blank())),
                ..self
            }
        }
    }

    /// The screen with `byte` written at the cursor in the colours
    /// `colour_code`. A line feed starts a new line and shows nothing. Any
    /// other byte is shown and moves the cursor one place on, to a new line
    /// from the last place of a row.
    pub open spec fn write_byte(self, colour_code: u8, byte: u8) -> Screen {
        if byte == 0x0a {
            self.new_line()
        } else {
            let shown = Screen {
                cells: self.cells.update(
                    self.row,
                    self.cells[self.row].update(
                        self.column,
                        ScreenChar { ascii_character: byte, colour_code },
                    ),
                ),
                ..self
            };
            if self.column + 1 < self.width {
                Screen { column: self.column + 1, ..shown }
            } else {
                Screen { column: 0, ..shown }.new_line()
            }
        }
    }

    /// The screen with the bytes of `text` written one after the other, each
    /// in the current colours.
    pub open spec fn written(self, text: Seq<u8>) -> Screen
        decreases text.len(),
    {
        if text.len() == 0 {
            self
        } else {
            let before = self.written(text.drop_last());
            before.write_byte(before.colour_code, text.last())
        }
    }

    /// The screen once the bytes of `text` from place `from` on have been
    /// read as coloured text. A zero byte announces a colour code, which is
    /// the sum of the two bytes that follow, cut to eight bits, and is taken
    /// unless the colours are locked. A zero byte with one byte behind it
    /// ends the text, and that byte is written unless the colours are locked;
    /// a zero byte at the end is written. A printable byte or a line feed is
    /// written, and a block stands for any other byte.
    pub open spec fn colourful_from(self, text: Seq<u8>, from: int) -> Screen
        decreases text.len() - from,
    {
        if from < 0 || from >= text.len() {
            self
        } else if text[from] == 0 {
            if from + 2 < text.len() {
                let coloured = if self.lock_colour {
                    self
                } else {
                    Screen {
                        colour_code: ((text[from + 1] + text[from + 2]) % 256) as u8,
                        ..self
                    }
                };
                coloured.colourful_from(text, from + 3)
            } else if from + 1 < text.len() {
                if self.lock_colour {
                    self
                } else {
                    self.write_byte(self.colour_code, text[from + 1])
                }
            } else {
                self.write_byte(self.colour_code, 0)
            }
        } else if (0x20 <= text[from] <= 0x7e) || text[from] == 0x0a {
            self.write_byte(self.colour_code, text[from]).colourful_from(text, from + 1)
        } else {
            self.write_byte(self.colour_code, 0xfe).colourful_from(text, from + 1)
        }
    }

    /// The screen once `text` has been written as coloured text that starts
    /// out in the colours `colour_code`. Afterwards the colours are what they
    /// were before.
    pub open spec fn write_colourful(self, colour_code: u8, text: Seq<u8>) -> Screen {
        let start = if self.lock_colour {
            self
        } else {
            Screen { colour_code, ..self }
        };
        Screen { colour_code: self.colour_code, ..start.colourful_from(text, 0) }
    }

    /// The colour code once the foreground colour has been set by the
    /// parameter `colour`, 30 to 37, made bright if `bright`.
    pub open spec fn with_foreground(colour_code: u8, colour: u8, bright: bool) -> u8 {
        (colour_code / 16 * 16 + (colour - 30) + if bright {
            8int
        } else {
            0int
        }) as u8
    }

    /// The colour code once the background colour has been set by the
    /// parameter `colour`, 40 to 47, made bright if `bright`.
    pub open spec fn with_background(colour_code: u8, colour: u8, bright: bool) -> u8 {
        (colour_code % 16 + (colour - 40) * 16 + if bright {
            128int
        } else {
            0int
        }) as u8
    }

    /// The screen once the colours have been set by the parameters `params`
    /// of an escape sequence. Locked colours stay. The first parameter
    /// decides: 0 for white on black, 30 to 37 for a foreground colour, 40
    /// to 47 for a background colour, each made bright by a second parameter
    /// of 1. Any other first parameter changes nothing.
    pub open spec fn set_graphics_mode(self, params: Seq<u8>) -> Screen {
        if self.lock_colour || params.len() == 0 {
            self
        } else {
            let bright = params.len() > 1 && params[1] == 1;
            if params[0] == 0 {
                Screen { colour_code: 0x0f, ..self }
            } else if 30 <= params[0] <= 37 {
                Screen {
                    colour_code: Self::with_foreground(self.colour_code, params[0], bright),
                    ..self
                }
            } else if 40 <= params[0] <= 47 {
                Screen {
                    colour_code: Self::with_background(self.colour_code, params[0], bright),
                    ..self
                }
            } else {
                self
            }
        }
    }

    /// The place `by` places back from `position`, but not before the first.
    pub open spec fn moved_back(position: int, by: int) -> int {
        if position - by < 0 {
            0
        } else {
            position - by
        }
    }

    /// The screen once one piece of a text with escape sequences has been
    /// obeyed. Plain text is written. The cursor moves back or up by the
    /// places given, as far as the display goes, and forward round the row.
    /// A move down moves the cursor forward round the row as well.
    pub open spec fn applied(self, item: AnsiItem) -> Screen {
        match item {
            AnsiItem::TextBlock(text) => self.written(text@),
            AnsiItem::SetGraphicsMode(params) => self.set_graphics_mode(params@),
            AnsiItem::EraseDisplay => self.cleared(),
            AnsiItem::EraseLine => self.with_row(self.row, self.blank()),
            AnsiItem::CursorBackward(x) => Screen {
                column: Self::moved_back(self.column, x as int),
                ..self
            },
            AnsiItem::CursorForward(x) => Screen { column: (self.column + x) % self.width, ..self },
            AnsiItem::CursorUp(x) => Screen { row: Self::moved_back(self.row, x as int), ..self },
            AnsiItem::CursorDown(x) => Screen { column: (self.column + x) % self.width, ..self },
            AnsiItem::Unsupported => self,
        }
    }

    /// The screen once the pieces `items` have been obeyed, first to last.
    pub open spec fn escaped(self, items: Seq<AnsiItem>) -> Screen
        decreases items.len(),
    {
        if items.len() == 0 {
            self
        } else {
            self.escaped(items.drop_last()).applied(items.last())
        }
    }

    /// The screen with `character`, in the current colours, in the `width`
    /// places from column `x` on of the `height` rows from row `y` on.
    pub open spec fn with_rect(self, x: int, y: int, width: int, height: int, character: u8) -> Screen {
        Screen {
            cells: Seq::new(
                self.height as nat,
                |r: int|
                    Seq::new(
                        self.width as nat,
                        |c: int|
                            if y <= r < y + height && x <= c < x + width {
                                ScreenChar {
                                    ascii_character: character,
                                    colour_code: self.colour_code,
                                }
                            } else {
                                self.cells[r][c]
                            },
                    ),
            ),
            ..self
        }
    }
}

/// Writes text to a buffer of characters at a cursor that it moves along.
pub struct Writer<const X: usize, const Y: usize> {
    /// The cursor's column.
    pub column_position: ScreenPosition<X>,
    /// The cursor's row.
    pub row_position: ScreenPosition<Y>,
    /// The characters shown.
    pub buffer: Buffer<X, Y>,
    /// The colours in which text is written.
    pub colour_code: ColourCode,
    /// Whether the colours are kept as they are.
    pub lock_colour: bool,
}

impl<const X: usize, const Y: usize> Writer<X, Y> {
    pub open spec fn view(&self) -> Screen {
        Screen {
            column: self.column_position.0 as int,
            row: self.row_position.0 as int,
            cells: self.buffer@,
            colour_code: self.colour_code.0,
            lock_colour: self.lock_colour,
            width: X as int,
            height: Y as int,
        }
    }

    /// The cursor is on the display and the buffer has its rows and places.
    pub open spec fn wf(&self) -> bool {
        self@.wf()
    }

    /// A writer over `buffer` with the cursor at the top left, writing white
    /// on black, whose colours may be changed.
    pub fn new(buffer: Buffer<X, Y>) -> (writer: Writer<X, Y>)
        requires
            buffer.wf(),
            X > 0,
            Y > 0,
        ensures
            writer.wf(),
            writer@ == (Screen {
                column: 0,
                row: 0,
                cells: buffer@,
                colour_code: 0x0f,
                lock_colour: false,
                width: X as int,
                height: Y as int,
            }),
    {
        Writer {
            column_position: ScreenPosition(0),
            row_position: ScreenPosition(0),
            buffer,
            colour_code: ColourCode(0x0f),
            lock_colour: false,
        }
    }

    /// A space in the writer's colours.
    pub fn blank(&self) -> (character: ScreenChar)
        ensures
            character == self@.blank(),
    {
        ScreenChar { ascii_character: 0x20, colour_code: self.colour_code.0 }
    }

    /// Shows `screen_char` in every place of row `row`.
    pub fn clear_row(&mut self, row: usize, screen_char: ScreenChar)
        requires
            old(self).buffer.wf(),
            row < Y,
        ensures
            final(self).buffer.wf(),
            final(self)@ == old(self)@.with_row(row as int, screen_char),
    {
        let mut col: usize = 0;
        while col < X
            invariant
                self.buffer.wf(),
                row < Y,
                col <= X,
                self.column_position == old(self).column_position,
                self.row_position == old(self).row_position,
                self.colour_code == old(self).colour_code,
                self.lock_colour == old(self).lock_colour,
                forall|r: int| 0 <= r < Y && r != row ==> self.buffer@[r] == old(self).buffer@[r],
                forall|c: int| 0 <= c < col ==> self.buffer@[row as int][c] == screen_char,
            decreases X - col,
        {
            self.buffer.write(row, col, screen_char);
            col += 1;
        }
        assert(self.buffer@[row as int] =~= Seq::new(X as nat, |c: int| screen_char));
        assert(self.buffer@ =~= old(self)@.with_row(row as int, screen_char).cells);
    }

    /// Blanks the display and puts the cursor at the top left.
    pub fn clear_all(&mut self)
        requires
            old(self).buffer.wf(),
        ensures
            final(self).buffer.wf(),
            final(self)@ == old(self)@.cleared(),
    {
        self.column_position = ScreenPosition(0);
        self.row_position = ScreenPosition(0);
        let blank = self.blank();
        let mut y: usize = 0;
        while y < Y
            invariant
                self.buffer.wf(),
                y <= Y,
                blank == old(self)@.blank(),
                self.column_position.0 == 0,
                self.row_position.0 == 0,
                self.colour_code == old(self).colour_code,
                self.lock_colour == old(self).lock_colour,
                forall|r: int|
                    0 <= r < y ==> #[trigger] self.buffer@[r] == Seq::new(X as nat, |c: int| blank),
            decreases Y - y,
        {
            self.clear_row(y, blank);
            y += 1;
        }
        assert(self.buffer@ =~= old(self)@.cleared().cells);
    }

    /// Starts a new line: the cursor goes to the start of the next row, which
    /// is blanked. From the last row the display scrolls up by one row.
    pub fn new_line(&mut self)
        requires
            old(self).wf(),
        ensures
            final(self).wf(),
            final(self)@ == old(self)@.new_line(),
    {
        self.column_position = ScreenPosition(0);
        if self.row_position.0 + 1 < Y {
            self.row_position = ScreenPosition(self.row_position.0 + 1);
        } else {
            self.buffer.scroll_up();
            self.row_position = ScreenPosition(Y - 1);
        }
        let blank = self.blank();
        self.clear_row(self.row_position.0, blank);
        proof {
            if old(self).row_position.0 + 1 >= Y {
                assert(self.buffer@ =~= old(self)@.new_line().cells);
            }
            assert forall|r: int| 0 <= r < Y implies (#[trigger] self@.cells[r]).len() == X by {
                assert(self.buffer@[r].len() == X);
            }
        }
    }

    /// Writes `byte` at the cursor in the colours `colour_code`.
    pub fn write_byte(&mut self, colour_code: ColourCode, byte: u8)
        requires
            old(self).wf(),
        ensures
            final(self).wf(),
            final(self)@ == old(self)@.write_byte(colour_code.0, byte),
    {
        if byte == 0x0a {
            self.new_line();
        } else {
            let row = self.row_position.0;
            let col = self.column_position.0;
            self.buffer.write(
                row,
                col,
                ScreenChar { ascii_character: byte, colour_code: colour_code.0 },
            );
            if col + 1 < X {
                self.column_position = ScreenPosition(col + 1);
            } else {
                self.column_position = ScreenPosition(0);
                self.new_line();
            }
        }
    }

    /// Writes the bytes of `s`, one after the other, in the writer's colours.
    pub fn write_literal(&mut self, s: &str)
        requires
            old(self).wf(),
        ensures
            final(self).wf(),
            final(self)@ == old(self)@.written(s.spec_bytes()),
    {
        let bytes = s.as_bytes();
        let mut i: usize = 0;
        assert(bytes@.take(0) =~= Seq::<u8>::empty());
        while i < bytes.len()
            invariant
                self.wf(),
                i <= bytes.len(),
                self@ == old(self)@.written(bytes@.take(i as int)),
            decreases bytes.len() - i,
        {
            assert(bytes@.take(i + 1).drop_last() =~= bytes@.take(i as int));
            self.write_byte(self.colour_code, bytes[i]);
            i += 1;
        }
        assert(bytes@.take(i as int) =~= bytes@);
    }

    /// Shows `character`, in the writer's colours, in the `width` places from
    /// column `x` on of the `height` rows from row `y` on.
    pub fn draw_rect(
        &mut self,
        x: ScreenPosition<X>,
        y: ScreenPosition<Y>,
        width: ScreenPosition<X>,
        height: ScreenPosition<Y>,
        character: u8,
    )
        requires
            old(self).buffer.wf(),
            x.0 + width.0 <= X,
            y.0 + height.0 <= Y,
        ensures
            final(self).buffer.wf(),
            final(self)@ == old(self)@.with_rect(
                x.0 as int,
                y.0 as int,
                width.0 as int,
                height.0 as int,
                character,
            ),
    {
        let shown = ScreenChar { ascii_character: character, colour_code: self.colour_code.0 };
        let mut row: usize = y.0;
        while row < y.0 + height.0
            invariant
                self.buffer.wf(),
                x.0 + width.0 <= X,
                y.0 + height.0 <= Y,
                y.0 <= row <= y.0 + height.0,
                self.column_position == old(self).column_position,
                self.row_position == old(self).row_position,
                self.colour_code == old(self).colour_code,
                self.lock_colour == old(self).lock_colour,
                forall|r: int, c: int|
                    0 <= r < Y && 0 <= c < X ==> #[trigger] self.buffer@[r][c] == if y.0 <= r < row
                        && x.0 <= c < x.0 + width.0 {
                        shown
                    } else {
                        old(self).buffer@[r][c]
                    },
            decreases y.0 + height.0 - row,
        {
            let mut col: usize = x.0;
            while col < x.0 + width.0
                invariant
                    self.buffer.wf(),
                    x.0 + width.0 <= X,
                    y.0 <= row < y.0 + height.0,
                    y.0 + height.0 <= Y,
                    x.0 <= col <= x.0 + width.0,
                    self.column_position == old(self).column_position,
                    self.row_position == old(self).row_position,
                    self.colour_code == old(self).colour_code,
                    self.lock_colour == old(self).lock_colour,
                    forall|r: int, c: int|
                        0 <= r < Y && 0 <= c < X ==> #[trigger] self.buffer@[r][c] == if (y.0 <= r
                            < row && x.0 <= c < x.0 + width.0) || (r == row && x.0 <= c < col) {
                            shown
                        } else {
                            old(self).buffer@[r][c]
                        },
                decreases x.0 + width.0 - col,
            {
                self.buffer.write(row, col, shown);
                col += 1;
            }
            row += 1;
        }
        proof {
            let target = old(self)@.with_rect(
                x.0 as int,
                y.0 as int,
                width.0 as int,
                height.0 as int,
                character,
            ).cells;
            assert forall|r: int| 0 <= r < Y implies self.buffer@[r] =~= target[r] by {
                assert(self.buffer@[r].len() == X);
            }
            assert(self.buffer@ =~= target);
        }
    }

    /// Writes the bytes `text`, one after the other, in the writer's colours.
    pub fn write_bytes(&mut self, text: &Vec<u8>)
        requires
            old(self).wf(),
        ensures
            final(self).wf(),
            final(self)@ == old(self)@.written(text@),
    {
        let mut i: usize = 0;
        assert(text@.take(0) =~= Seq::<u8>::empty());
        while i < text.len()
            invariant
                self.wf(),
                i <= text.len(),
                self@ == old(self)@.written(text@.take(i as int)),
            decreases text.len() - i,
        {
            assert(text@.take(i + 1).drop_last() =~= text@.take(i as int));
            self.write_byte(self.colour_code, text[i]);
            i += 1;
        }
        assert(text@.take(i as int) =~= text@);
    }

    /// Sets the colours by the parameters of an escape sequence.
    pub fn set_graphics_mode(&mut self, params: &Vec<u8>)
        ensures
            final(self)@ == old(self)@.set_graphics_mode(params@),
            final(self).buffer == old(self).buffer,
    {
        if self.lock_colour || params.len() == 0 {
            return ;
        }
        let param = params[0];
        let bright = params.len() > 1 && params[1] == 1;
        let current = self.colour_code.0;
        if param == 0 {
            self.colour_code = ColourCode(0x0f);
        } else if 30 <= param && param <= 37 {
            let new_fg: u8 = param - 30;
            let mut colour: u8 = current & 0xf0 | new_fg;
            assert(current & 0xf0 | new_fg == current / 16 * 16 + new_fg && (current & 0xf0 | new_fg)
                <= 0xf7) by (bit_vector)
                requires
                    new_fg < 8,
            ;
            if bright {
                colour = colour + 0x08;
            }
            self.colour_code = ColourCode(colour);
        } else if 40 <= param && param <= 47 {
            let new_bg: u8 = param - 40;
            let mut colour: u8 = current & 0x0f | new_bg << 4;
            assert((current & 0x0f | new_bg << 4) == current % 16 + new_bg * 16 && (current & 0x0f
                | new_bg << 4) <= 0x7f) by (bit_vector)
                requires
                    new_bg < 8,
            ;
            if bright {
                colour = colour + 0x80;
            }
            self.colour_code = ColourCode(colour);
        }
    }

    /// Obeys one piece of a text with escape sequences.
    pub fn apply(&mut self, item: &AnsiItem)
        requires
            old(self).wf(),
        ensures
            final(self).wf(),
            final(self)@ == old(self)@.applied(*item),
    {
        match item {
            AnsiItem::TextBlock(text) => {
                self.write_bytes(text);
            },
            AnsiItem::SetGraphicsMode(params) => {
                self.set_graphics_mode(params);
            },
            AnsiItem::EraseDisplay => {
                self.clear_all();
            },
            AnsiItem::EraseLine => {
                let blank = self.blank();
                self.clear_row(self.row_position.0, blank);
                assert forall|r: int| 0 <= r < Y implies (#[trigger] self@.cells[r]).len() == X by {
                    assert(self.buffer@[r].len() == X);
                }
            },
            AnsiItem::CursorBackward(x) => {
                self.column_position = ScreenPosition(Self::back(self.column_position.0, *x));
            },
            AnsiItem::CursorForward(x) => {
                self.column_position = ScreenPosition(Self::forward(self.column_position.0, *x, X));
            },
            AnsiItem::CursorUp(x) => {
                self.row_position = ScreenPosition(Self::back(self.row_position.0, *x));
            },
            AnsiItem::CursorDown(x) => {
                self.column_position = ScreenPosition(Self::forward(self.column_position.0, *x, X));
            },
            AnsiItem::Unsupported => {},
        }
    }

    /// The place `by` places back from `position`, but not before the first.
    fn back(position: usize, by: u32) -> (moved: usize)
        ensures
            moved == Screen::moved_back(position as int, by as int),
    {
        if (position as u64) < by as u64 {
            0
        } else {
            ((position as u64) - by as u64) as usize
        }
    }

    /// The place `by` places on from `position`, counted round an axis of
    /// `places` places.
    fn forward(position: usize, by: u32, places: usize) -> (moved: usize)
        requires
            position < places,
        ensures
            moved == (position + by) % (places as int),
            moved < places,
    {
        let sum: u128 = position as u128 + by as u128;
        (sum % places as u128) as usize
    }

    /// Obeys the pieces `items` of a text with escape sequences, first to
    /// last.
    pub fn apply_all(&mut self, items: &Vec<AnsiItem>)
        requires
            old(self).wf(),
        ensures
            final(self).wf(),
            final(self)@ == old(self)@.escaped(items@),
    {
        let mut k: usize = 0;
        assert(items@.take(0) =~= Seq::<AnsiItem>::empty());
        while k < items.len()
            invariant
                self.wf(),
                k <= items.len(),
                self@ == old(self)@.escaped(items@.take(k as int)),
            decreases items.len() - k,
        {
            assert(items@.take(k + 1).drop_last() =~= items@.take(k as int));
            self.apply(&items[k]);
            k += 1;
        }
        assert(items@.take(k as int) =~= items@);
    }

    /// Writes `bytes`, a text with escape sequences: the text is split into
    /// runs of plain text and escape sequences, and these are obeyed in
    /// order.
    pub fn esc_sequence(&mut self, bytes: String)
        requires
            old(self).wf(),
        ensures
            final(self).wf(),
            final(self)@ == old(self)@.escaped(ansi_items(bytes@)),
    {
        let parsed = ansi_parse(bytes.as_str());
        self.apply_all(&parsed);
    }

    /// Writes `s` as coloured text: starting out in its colours, unless the
    /// writer's colours are locked, and obeying the colour codes in the text.
    /// Afterwards the writer's colours are what they were before.
    pub fn write_colourful(&mut self, s: ColourText)
        requires
            old(self).wf(),
        ensures
            final(self).wf(),
            final(self)@ == old(self)@.write_colourful(s.0, encode_utf8(s.1@)),
    {
        let prev = self.colour_code;
        let bytes = s.1.as_str().as_bytes();
        if !self.lock_colour {
            self.colour_code = ColourCode(s.0);
        }
        let ghost start = self@;
        let mut i: usize = 0;
        while i < bytes.len()
            invariant
                self.wf(),
                i <= bytes.len(),
                self@.colourful_from(bytes@, i as int) == start.colourful_from(bytes@, 0),
            decreases bytes.len() - i,
        {
            let byte = bytes[i];
            if byte == 0 {
                if bytes.len() - i > 2 {
                    if !self.lock_colour {
                        self.colour_code = ColourCode(bytes[i + 1].wrapping_add(bytes[i + 2]));
                    }
                    i += 3;
                } else if bytes.len() - i > 1 {
                    if !self.lock_colour {
                        self.write_byte(self.colour_code, bytes[i + 1]);
                    }
                    i += 2;
                } else {
                    self.write_byte(self.colour_code, 0);
                    i += 1;
                }
            } else if (0x20 <= byte && byte <= 0x7e) || byte == 0x0a {
                self.write_byte(self.colour_code, byte);
                i += 1;
            } else {
                self.write_byte(self.colour_code, 0xfe);
                i += 1;
            }
        }
        self.colour_code = prev;
    }

    /// Writes `s` as coloured text that starts out in white on black.
    pub fn write_string(&mut self, s: &str)
        requires
            old(self).wf(),
        ensures
            final(self).wf(),
            final(self)@ == old(self)@.write_colourful(0x0f, s.spec_bytes()),
    {
        self.write_colourful(ColourText::from(s));
    }
}

/// Sets the colours of `writer`, which the caller has got hold of or not.
/// The colours are set on a writer whose colours are locked; otherwise the
/// error says what was in the way.
pub fn set_colour<const X: usize, const Y: usize>(
    writer: Option<&mut Writer<X, Y>>,
    colour: ColourCode,
) -> (result: Result<(), &'static str>)
    ensures
        writer is None ==> result is Err && result->Err_0@
            == "Failed to lock writer to set colour."@,
        writer matches Some(w) ==> {
            &&& !w.lock_colour ==> result is Err && result->Err_0@ == "Writer colour is locked"@
                && *final(w) == *w
            &&& w.lock_colour ==> result is Ok && *final(w) == (Writer { colour_code: colour, ..*w })
        },
{
    match writer {
        None => Err("Failed to lock writer to set colour."),
        Some(writer) => {
            if !writer.lock_colour {
                return Err("Writer colour is locked");
            }
            writer.colour_code = colour;
            Ok(())
        },
    }
}

/// Locks or unlocks the colours of `writer`, which the caller has got hold of
/// or not.
pub fn lock_colour<const X: usize, const Y: usize>(
    writer: Option<&mut Writer<X, Y>>,
    set_to: bool,
) -> (result: Result<(), ()>)
    ensures
        result is Ok <==> writer is Some,
        writer matches Some(w) ==> *final(w) == (Writer { lock_colour: set_to, ..*w }),
{
    match writer {
        Some(writer) => {
            writer.lock_colour = set_to;
            Ok(())
        },
        None => Err(()),
    }
}

} // verus!
