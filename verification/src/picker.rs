//! The colour picker: a picked colour as hex digits, and what can go wrong.
use vstd::prelude::*;
use vstd::string::*;

verus! {

/// One, in the billionths that colour channels are counted in.
pub const FULL_CHANNEL: i64 = 1_000_000_000;

/// A colour, its channels in billionths of full.
#[derive(Debug, Clone, Copy, PartialEq, Eq, Structural)]
pub struct PickedColor {
    pub r: i64,
    pub g: i64,
    pub b: i64,
}

/// Why no colour could be picked.
#[derive(Debug)]
pub enum PickColorError {
    /// The compositor could not be asked.
    Call(String),
    /// Its reply held no colour.
    MissingColor,
    /// Its reply held something else as the colour.
    Decode(String),
}

impl PickColorError {
    pub open spec fn spec_message(self) -> Seq<char> {
        match self {
            PickColorError::Call(err) =>
                "could not reach org.gnome.Shell.Screenshot's PickColor — is niri (or another compositor serving that interface) running? ("@
                + err@ + ")"@,
            PickColorError::MissingColor =>
                "org.gnome.Shell.Screenshot.PickColor replied with no \"color\" entry"@,
            PickColorError::Decode(err) =>
                "org.gnome.Shell.Screenshot.PickColor's \"color\" entry was not the expected (double, double, double) — "@
                + err@,
        }
    }

    /// What the user is told.
    pub fn message(&self) -> (r: String)
        ensures
            r@ == self.spec_message(),
    {
        match self {
            PickColorError::Call(err) => {
                let mut out: String =
                    "could not reach org.gnome.Shell.Screenshot's PickColor — is niri (or another compositor serving that interface) running? (".to_owned();
                out.append(err.as_str());
                out.append(")");
                out
            },
            PickColorError::MissingColor =>
                "org.gnome.Shell.Screenshot.PickColor replied with no \"color\" entry".to_owned(),
            PickColorError::Decode(err) => {
                let mut out: String =
                    "org.gnome.Shell.Screenshot.PickColor's \"color\" entry was not the expected (double, double, double) — ".to_owned();
                out.append(err.as_str());
                out
            },
        }
    }
}

/// The colour in a reply, or what is wrong with the reply.
pub open spec fn spec_extract_rgb(entry: Option<Result<PickedColor, String>>) -> Result<
    PickedColor,
    PickColorError,
> {
    match entry {
        None => Err(PickColorError::MissingColor),
        Some(Ok(color)) => Ok(color),
        Some(Err(why)) => Err(PickColorError::Decode(why)),
    }
}

/// Reads the colour out of a reply: `entry` is what the reply holds under
/// `color`, read as three numbers, if it holds anything there.
pub fn extract_rgb(entry: Option<Result<PickedColor, String>>) -> (r: Result<
    PickedColor,
    PickColorError,
>)
    ensures
        r == spec_extract_rgb(entry),
{
    match entry {
        None => Err(PickColorError::MissingColor),
        Some(Ok(color)) => Ok(color),
        Some(Err(why)) => Err(PickColorError::Decode(why)),
    }
}

/// A channel as a byte: cut to none and full, and to the nearest.
pub open spec fn channel_byte(c: i64) -> int {
    if c <= 0 {
        0
    } else if c >= FULL_CHANNEL {
        255
    } else {
        (2 * c * 255 + FULL_CHANNEL) / (2 * FULL_CHANNEL)
    }
}

fn to_byte(c: i64) -> (r: u8)
    ensures
        r == channel_byte(c),
{
    if c <= 0 {
        0
    } else if c >= FULL_CHANNEL {
        255
    } else {
        ((2 * c * 255 + FULL_CHANNEL) / (2 * FULL_CHANNEL)) as u8
    }
}

/// The upper-case digit for a value under sixteen.
pub open spec fn hex_digit(v: int) -> char {
    if v < 10 {
        (48 + v) as char
    } else {
        (55 + v) as char
    }
}

/// Two hex digits for a byte.
pub open spec fn hex_byte(v: int) -> Seq<char> {
    seq![hex_digit(v / 16), hex_digit(v % 16)]
}

fn hex_str(v: u8) -> (r: &'static str)
    requires
        v < 16,
    ensures
        r@ == seq![hex_digit(v as int)],
{
    proof {
        reveal_strlit("0");
        reveal_strlit("1");
        reveal_strlit("2");
        reveal_strlit("3");
        reveal_strlit("4");
        reveal_strlit("5");
        reveal_strlit("6");
        reveal_strlit("7");
        reveal_strlit("8");
        reveal_strlit("9");
        reveal_strlit("A");
        reveal_strlit("B");
        reveal_strlit("C");
        reveal_strlit("D");
        reveal_strlit("E");
        reveal_strlit("F");
    }
    let r = match v {
        0 => "0",
        1 => "1",
        2 => "2",
        3 => "3",
        4 => "4",
        5 => "5",
        6 => "6",
        7 => "7",
        8 => "8",
        9 => "9",
        10 => "A",
        11 => "B",
        12 => "C",
        13 => "D",
        14 => "E",
        _ => "F",
    };
    assert(r@ =~= seq![hex_digit(v as int)]);
    r
}

/// The colour as `#RRGGBB`.
pub open spec fn hex_text(color: PickedColor) -> Seq<char> {
    "#"@ + hex_byte(channel_byte(color.r)) + hex_byte(channel_byte(color.g)) + hex_byte(
        channel_byte(color.b),
    )
}

/// The colour as `#RRGGBB`.
pub fn rgb_to_hex(color: PickedColor) -> (r: String)
    ensures
        r@ == hex_text(color),
{
    let r: u8 = to_byte(color.r);
    let g: u8 = to_byte(color.g);
    let b: u8 = to_byte(color.b);
    let mut out: String = "#".to_owned();
    out.append(hex_str(r / 16));
    out.append(hex_str(r % 16));
    out.append(hex_str(g / 16));
    out.append(hex_str(g % 16));
    out.append(hex_str(b / 16));
    out.append(hex_str(b % 16));
    assert(out@ =~= hex_text(color));
    out
}

/// A colour is always a hash and six digits.
pub proof fn law_hex_has_seven_characters(color: PickedColor)
    ensures
        hex_text(color).len() == 7,
        hex_text(color)[0] == '#',
{
    reveal_strlit("#");
}

} // verus!
