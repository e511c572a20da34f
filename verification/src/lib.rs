//! A CHIP-8 interpreter: the machine's state, its instructions, its timers
//! and the pieces of its user interface that compute.
use vstd::prelude::*;

pub mod bits;
pub mod chip_timer;
pub mod cli_args;
pub mod cpu;
pub mod display;
pub mod execute;
pub mod laws;
pub mod timers;

verus! {

/// The first 512 bytes of memory are reserved for the system; programs
/// start after them.
pub const START_ADDRESS: u16 = 0x200;

/// The font takes up 80 bytes.
pub const FONTSET_SIZE: usize = 80;

/// The largest ROM that fits in memory after the start address.
pub const MAX_ROM_SIZE: usize = 4096 - 512;

/// How many window pixels one display pixel takes on each side.
pub const SCREEN_SCALE: i32 = 20;

/// The window's width.
pub const SCREEN_W: i32 = 64 * SCREEN_SCALE;

/// The window's height.
pub const SCREEN_H: i32 = 32 * SCREEN_SCALE;

/// The number of pixels on the display.
pub const CHIP8_DISPLAY_SIZE: usize = 64 * 32;

/// The display, row by row: each pixel on or off.
pub type DisplayArray = [bool; CHIP8_DISPLAY_SIZE];

/// The keypad: each of the 16 keys down or up.
pub type KeypadArray = [bool; 16];

/// Calls `<Box<str> as From<&str>>::from`: a boxed copy of the string,
/// with the same characters.
#[verifier::external_body]
fn boxed_str(s: &str) -> (b: Box<str>)
    ensures
        b@ == s@,
{
    Box::from(s)
}

/// A command-line flag as the help text shows it: its short and long
/// spellings, what it does, and whether it is set.
#[derive(Debug)]
pub struct Flag<'a> {
    pub short: Box<str>,
    pub long: Box<str>,
    pub desc: Box<str>,
    pub active: &'a bool,
}

impl<'a> Flag<'a> {
    /// A flag with the given short and long spellings, description and
    /// state.
    pub fn new(s: &str, l: &str, d: &str, a: &'a bool) -> (f: Self)
        ensures
            f.short@ == s@,
            f.long@ == l@,
            f.desc@ == d@,
            f.active == a,
    {
        return Self { short: boxed_str(s), long: boxed_str(l), desc: boxed_str(d), active: a };
    }
}

} // verus!

verus! {

/// `s` followed by spaces up to `width` characters; `s` itself when it is
/// that long already.
pub open spec fn padded(s: Seq<char>, width: nat) -> Seq<char> {
    if s.len() >= width {
        s
    } else {
        s + Seq::new((width - s.len()) as nat, |i: int| ' ')
    }
}

/// The help line of a flag: two spaces, the short spelling padded to 5
/// characters, the long one padded to 15, then the description.
pub open spec fn flag_line(f: Flag) -> Seq<char> {
    "  "@ + padded(f.short@, 5) + padded(f.long@, 15) + f.desc@ + "\n"@
}

/// The help lines of the flags, in order.
pub open spec fn flag_lines(flags: Seq<Flag>) -> Seq<char>
    decreases flags.len(),
{
    if flags.len() == 0 {
        Seq::empty()
    } else {
        flag_lines(flags.drop_last()) + flag_line(flags.last())
    }
}

/// The usage text: how to call the program, then a line for each flag.
pub open spec fn help_text_spec(flags: Seq<Flag>) -> Seq<char> {
    "USAGE:\n chirp [FLAGS] [ROM]\n\nFLAGS:\n"@ + flag_lines(flags)
}

/// Appends `s` to `text`, then spaces up to `width` characters.
fn append_padded(text: &mut String, s: &str, width: usize)
    ensures
        final(text)@ == old(text)@ + padded(s@, width as nat),
{
    text.append(s);
    let len = s.unicode_len();
    let mut n = len;
    while n < width
        invariant
            len == s@.len(),
            n >= len,
            n <= width || n == len,
            text@ == old(text)@ + s@ + Seq::new((n - len) as nat, |i: int| ' '),
        decreases width - n,
    {
        text.append(" ");
        proof {
            reveal_strlit(" ");
            assert(" "@ =~= seq![' ']);
            assert(Seq::new((n - len) as nat, |i: int| ' ').push(' ') =~= Seq::new(
                (n + 1 - len) as nat,
                |i: int| ' ',
            ));
            assert(text@ =~= old(text)@ + s@ + Seq::new((n + 1 - len) as nat, |i: int| ' '));
        }
        n = n + 1;
    }
    if len >= width {
        assert(Seq::new((n - len) as nat, |i: int| ' ') =~= Seq::<char>::empty());
        assert(text@ =~= old(text)@ + padded(s@, width as nat));
    } else {
        assert(text@ =~= old(text)@ + padded(s@, width as nat));
    }
}

/// The usage text that the help flag shows: how to call the program, then
/// a line for each flag.
pub fn help_text(flags: &Vec<Flag>) -> (text: String)
    ensures
        text@ == help_text_spec(flags@),
{
    let mut text = String::from_str("USAGE:\n chirp [FLAGS] [ROM]\n\nFLAGS:\n");
    let mut i: usize = 0;
    while i < flags.len()
        invariant
            i <= flags@.len(),
            text@ == "USAGE:\n chirp [FLAGS] [ROM]\n\nFLAGS:\n"@ + flag_lines(flags@.take(i as int)),
        decreases flags@.len() - i,
    {
        let f = &flags[i];
        let ghost before = text@;
        text.append("  ");
        append_padded(&mut text, &*f.short, 5);
        append_padded(&mut text, &*f.long, 15);
        text.append(&*f.desc);
        text.append("\n");
        assert(flags@.take(i + 1).drop_last() =~= flags@.take(i as int));
        assert(text@ =~= before + flag_line(flags@[i as int]));
        i = i + 1;
    }
    assert(flags@.take(flags@.len() as int) =~= flags@);
    text
}

} // verus!

verus! {

/// The window position of the top-left corner of display pixel `p`.
pub open spec fn pixel_corner(p: int) -> (i32, i32) {
    (((p % 64) * SCREEN_SCALE) as i32, ((p / 64) * SCREEN_SCALE) as i32)
}

/// The window positions of the lit pixels among the first `n` pixels of
/// the display, in display order.
pub open spec fn lit_corners(display: Seq<bool>, n: nat) -> Seq<(i32, i32)>
    decreases n,
{
    if n == 0 {
        Seq::empty()
    } else {
        let prev = lit_corners(display, (n - 1) as nat);
        if display[n - 1] {
            prev.push(pixel_corner(n - 1))
        } else {
            prev
        }
    }
}

/// Where the window must draw a `SCREEN_SCALE`-sized square for each lit
/// pixel of the display, row by row.
pub fn lit_pixel_corners(screen: &DisplayArray) -> (corners: Vec<(i32, i32)>)
    ensures
        corners@ == lit_corners(screen@, CHIP8_DISPLAY_SIZE as nat),
{
    let mut corners: Vec<(i32, i32)> = Vec::new();
    let mut h: i32 = 0;
    while h < 32
        invariant
            0 <= h <= 32,
            screen@.len() == CHIP8_DISPLAY_SIZE,
            corners@ == lit_corners(screen@, (h * 64) as nat),
        decreases 32 - h,
    {
        let mut w: i32 = 0;
        while w < 64
            invariant
                0 <= h < 32,
                0 <= w <= 64,
                screen@.len() == CHIP8_DISPLAY_SIZE,
                corners@ == lit_corners(screen@, (h * 64 + w) as nat),
            decreases 64 - w,
        {
            let pixel: i32 = (h * 64) + w;
            assert(pixel % 64 == w && pixel / 64 == h) by (nonlinear_arith)
                requires
                    pixel == h * 64 + w,
                    0 <= w < 64,
                    0 <= h,
            ;
            if screen[pixel as usize] == true {
                corners.push((w * SCREEN_SCALE, h * SCREEN_SCALE));
            }
            w = w + 1;
        }
        h = h + 1;
    }
    corners
}

} // verus!
