//! Colours and the names that a configuration gives them.

use crate::text;
use vstd::prelude::*;
use vstd::slice::*;
use vstd::string::*;

verus! {

/// A colour of the terminal.
#[derive(Clone, Copy, PartialEq, Eq, Structural, Debug)]
pub enum Color {
    Black,
    Red,
    Green,
    Yellow,
    Blue,
    Magenta,
    Cyan,
    Gray,
    DarkGray,
    LightRed,
    LightGreen,
    LightYellow,
    LightBlue,
    LightMagenta,
    LightCyan,
    White,
    Rgb(u8, u8, u8),
    Indexed(u8),
}

/// The value of a hexadecimal digit.
pub open spec fn hex_digit(c: char) -> Option<nat> {
    if '0' <= c && c <= '9' {
        Some((c as u32 - 48) as nat)
    } else if 'a' <= c && c <= 'f' {
        Some((c as u32 - 87) as nat)
    } else if 'A' <= c && c <= 'F' {
        Some((c as u32 - 55) as nat)
    } else {
        None
    }
}

/// The number that hexadecimal digits write; none where one is no digit.
pub open spec fn hex_digits(s: Seq<char>) -> Option<nat>
    decreases s.len(),
{
    if s.len() == 0 {
        Some(0)
    } else {
        match (hex_digits(s.drop_last()), hex_digit(s.last())) {
            (Some(front), Some(d)) => Some(16 * front + d),
            _ => None,
        }
    }
}

/// The byte that a hexadecimal numeral writes, with a plus sign before it or
/// without, and zero where it writes none.
pub open spec fn hex_byte(s: Seq<char>) -> nat {
    let d = if s.len() > 1 && s[0] == '+' {
        s.drop_first()
    } else {
        s
    };
    match hex_digits(d) {
        Some(n) if d.len() > 0 && n <= 255 => n,
        _ => 0,
    }
}

/// The characters of `s` from byte `i` up to byte `j`.
pub open spec fn bytes_between(s: Seq<char>, i: nat, j: nat) -> Seq<char> {
    s.subrange(text::char_boundary(s, i)->0 as int, text::char_boundary(s, j)->0 as int)
}

/// `s` is written like a colour code of `n` bytes.
pub open spec fn is_code(s: Seq<char>, n: nat) -> bool {
    s.len() > 0 && s[0] == '#' && text::byte_len(s) == n
}

/// The digits of a colour code in `s`, if it holds one, can be told apart:
/// no character straddles two of them.
pub open spec fn code_splits(s: Seq<char>) -> bool {
    &&& is_code(s, 7) ==> text::char_boundary(s, 3) is Some && text::char_boundary(s, 5) is Some
    &&& is_code(s, 4) ==> text::char_boundary(s, 2) is Some && text::char_boundary(s, 3) is Some
}

/// The colour of a name in lower case; white where the name is unknown.
pub open spec fn named_color(c: Seq<char>) -> Color {
    if c == "black"@ {
        Color::Black
    } else if c == "red"@ {
        Color::Red
    } else if c == "green"@ {
        Color::Green
    } else if c == "yellow"@ {
        Color::Yellow
    } else if c == "blue"@ {
        Color::Blue
    } else if c == "magenta"@ {
        Color::Magenta
    } else if c == "cyan"@ {
        Color::Cyan
    } else if c == "gray"@ {
        Color::Gray
    } else if c == "grey"@ {
        Color::Gray
    } else if c == "dark_gray"@ {
        Color::DarkGray
    } else if c == "dark_grey"@ {
        Color::DarkGray
    } else if c == "light_red"@ {
        Color::LightRed
    } else if c == "light_green"@ {
        Color::LightGreen
    } else if c == "light_yellow"@ {
        Color::LightYellow
    } else if c == "light_blue"@ {
        Color::LightBlue
    } else if c == "light_magenta"@ {
        Color::LightMagenta
    } else if c == "light_cyan"@ {
        Color::LightCyan
    } else if c == "white"@ {
        Color::White
    } else if c == "orange"@ {
        Color::Rgb(255, 165, 0)
    } else if c == "light_orange"@ {
        Color::Rgb(255, 200, 150)
    } else {
        Color::White
    }
}

/// The colour that a text in lower case stands for.
pub open spec fn color_of(c: Seq<char>) -> Color {
    if is_code(c, 7) {
        Color::Rgb(
            hex_byte(bytes_between(c, 1, 3)) as u8,
            hex_byte(bytes_between(c, 3, 5)) as u8,
            hex_byte(bytes_between(c, 5, 7)) as u8,
        )
    } else if is_code(c, 4) {
        Color::Rgb(
            (hex_byte(bytes_between(c, 1, 2)) * 17) as u8,
            (hex_byte(bytes_between(c, 2, 3)) * 17) as u8,
            (hex_byte(bytes_between(c, 3, 4)) * 17) as u8,
        )
    } else {
        named_color(c)
    }
}

/// The value of a hexadecimal digit.
fn digit_value(c: char) -> (r: Option<u32>)
    ensures
        match r {
            Some(d) => hex_digit(c) == Some(d as nat) && d < 16,
            None => hex_digit(c) is None,
        },
{
    let n: u32 = c as u32;
    if 48 <= n && n <= 57 {
        Some(n - 48)
    } else if 97 <= n && n <= 102 {
        Some(n - 87)
    } else if 65 <= n && n <= 70 {
        Some(n - 55)
    } else {
        None
    }
}

/// The byte that a hexadecimal numeral of up to two characters writes.
fn byte_value(s: &[char]) -> (r: u8)
    requires
        s@.len() <= 2,
    ensures
        r == hex_byte(s@),
        s@.len() <= 1 ==> r <= 15,
{
    reveal_with_fuel(hex_digits, 3);
    if s.len() == 0 {
        return 0;
    }
    if s.len() == 1 {
        assert(s@.drop_last() =~= Seq::empty());
        return match digit_value(s[0]) {
            Some(d) => d as u8,
            None => 0,
        };
    }
    if s[0] == '+' {
        assert(s@.drop_first() =~= seq![s@[1]]);
        assert(s@.drop_first().drop_last() =~= Seq::empty());
        return match digit_value(s[1]) {
            Some(d) => d as u8,
            None => 0,
        };
    }
    assert(s@.drop_last() =~= seq![s@[0]]);
    assert(s@.drop_last().drop_last() =~= Seq::empty());
    match (digit_value(s[0]), digit_value(s[1])) {
        (Some(a), Some(b)) => (16 * a + b) as u8,
        _ => 0,
    }
}

/// The byte written between two byte positions, one or two bytes apart.
fn value_between(v: &[char], i: usize, j: usize) -> (r: u8)
    requires
        i < j <= i + 2,
        j <= 7,
        text::char_boundary(v@, i as nat) is Some,
        text::char_boundary(v@, j as nat) is Some,
    ensures
        r == hex_byte(bytes_between(v@, i as nat, j as nat)),
        j == i + 1 ==> r <= 15,
{
    let a: usize = text::boundary_at(v, i).unwrap();
    let b: usize = text::boundary_at(v, j).unwrap();
    proof {
        text::lemma_char_boundary(v@, i as nat);
        text::lemma_char_boundary(v@, j as nat);
        if a > b {
            text::lemma_byte_len_prefix(v@, b as int, a as int);
        } else {
            text::lemma_byte_len_prefix(v@, a as int, b as int);
        }
    }
    byte_value(slice_subrange(v, a, b))
}

/// A code's end and the position behind its mark are always boundaries.
proof fn lemma_code_ends(s: Seq<char>, n: nat)
    requires
        is_code(s, n),
    ensures
        text::char_boundary(s, 1) == Some(1nat),
        text::char_boundary(s, n) == Some(s.len()),
{
    reveal_with_fuel(text::byte_len, 2);
    assert(s.take(1).drop_last() =~= Seq::empty());
    assert(s.take(1).last() == '#');
    text::lemma_char_boundary_at(s, 1, 1);
}

/// The colour of a name in lower case.
fn name_to_color(c: &str) -> (r: Color)
    ensures
        r == named_color(c@),
{
    if text::same_text(c, "black") {
        Color::Black
    } else if text::same_text(c, "red") {
        Color::Red
    } else if text::same_text(c, "green") {
        Color::Green
    } else if text::same_text(c, "yellow") {
        Color::Yellow
    } else if text::same_text(c, "blue") {
        Color::Blue
    } else if text::same_text(c, "magenta") {
        Color::Magenta
    } else if text::same_text(c, "cyan") {
        Color::Cyan
    } else if text::same_text(c, "gray") {
        Color::Gray
    } else if text::same_text(c, "grey") {
        Color::Gray
    } else if text::same_text(c, "dark_gray") {
        Color::DarkGray
    } else if text::same_text(c, "dark_grey") {
        Color::DarkGray
    } else if text::same_text(c, "light_red") {
        Color::LightRed
    } else if text::same_text(c, "light_green") {
        Color::LightGreen
    } else if text::same_text(c, "light_yellow") {
        Color::LightYellow
    } else if text::same_text(c, "light_blue") {
        Color::LightBlue
    } else if text::same_text(c, "light_magenta") {
        Color::LightMagenta
    } else if text::same_text(c, "light_cyan") {
        Color::LightCyan
    } else if text::same_text(c, "white") {
        Color::White
    } else if text::same_text(c, "orange") {
        Color::Rgb(255, 165, 0)
    } else if text::same_text(c, "light_orange") {
        Color::Rgb(255, 200, 150)
    } else {
        Color::White
    }
}

/// The colour that a text in lower case stands for; none where a character of
/// a colour code straddles two of its digits.
pub fn lower_color(c: &str) -> (r: Option<Color>)
    ensures
        match r {
            Some(color) => code_splits(c@) && color == color_of(c@),
            None => !code_splits(c@),
        },
{
    let v = text::to_chars(c);
    let n = text::text_bytes(c);
    let s = v.as_slice();
    let marked: bool = s.len() > 0 && s[0] == '#';
    if marked && n == 7 {
        proof {
            lemma_code_ends(c@, 7);
        }
        if text::boundary_at(s, 3).is_none() || text::boundary_at(s, 5).is_none() {
            return None;
        }
        Some(Color::Rgb(value_between(s, 1, 3), value_between(s, 3, 5), value_between(s, 5, 7)))
    } else if marked && n == 4 {
        proof {
            lemma_code_ends(c@, 4);
        }
        if text::boundary_at(s, 2).is_none() || text::boundary_at(s, 3).is_none() {
            return None;
        }
        Some(
            Color::Rgb(
                value_between(s, 1, 2) * 17,
                value_between(s, 2, 3) * 17,
                value_between(s, 3, 4) * 17,
            ),
        )
    } else {
        Some(name_to_color(c))
    }
}

/// The colour that a text stands for, in upper or lower case; none where a
/// character of a colour code straddles two of its digits.
pub fn try_parse_color(color: &str) -> (r: Option<Color>)
    ensures
        match r {
            Some(c) => code_splits(text::lowercase(color@)) && c == color_of(text::lowercase(color@)),
            None => !code_splits(text::lowercase(color@)),
        },
{
    let lower = text::to_lower(color);
    match lower_color(lower.as_str()) {
        Some(_) => Some(parse_color(color)),
        None => None,
    }
}

/// The colour that a text stands for, in upper or lower case.
pub fn parse_color(color: &str) -> (r: Color)
    requires
        code_splits(text::lowercase(color@)),
    ensures
        r == color_of(text::lowercase(color@)),
{
    let lower = text::to_lower(color);
    lower_color(lower.as_str()).unwrap()
}

/// A hexadecimal digit in lower case.
pub open spec fn hex_char(n: int) -> char {
    if n < 10 {
        (48 + n) as u8 as char
    } else {
        (87 + n) as u8 as char
    }
}

proof fn lemma_ascii_boundary(s: Seq<char>, n: int)
    requires
        forall|i: int| 0 <= i < s.len() ==> (#[trigger] s[i] as u32) < 128,
        0 <= n <= s.len(),
    ensures
        text::byte_len(s.take(n)) == n,
        text::char_boundary(s, n as nat) == Some(n as nat),
    decreases n,
{
    if n > 0 {
        lemma_ascii_boundary(s, n - 1);
        assert(s.take(n).drop_last() =~= s.take(n - 1));
        assert(s.take(n).last() == s[n - 1]);
    }
    text::lemma_char_boundary_at(s, n as nat, n);
}

proof fn lemma_two_digits(a: int, b: int)
    requires
        0 <= a < 16,
        0 <= b < 16,
    ensures
        hex_byte(seq![hex_char(a), hex_char(b)]) == 16 * a + b,
        hex_byte(seq![hex_char(a)]) == a,
{
    let s = seq![hex_char(a), hex_char(b)];
    let t = seq![hex_char(a)];
    reveal_with_fuel(hex_digits, 3);
    assert(s.drop_last() =~= t);
    assert(t.drop_last() =~= Seq::empty());
    assert(hex_digit(hex_char(a)) == Some(a as nat));
    assert(hex_digit(hex_char(b)) == Some(b as nat));
}

/// A colour code of six digits gives red, green and blue, two digits each.
pub proof fn law_long_code_gives_its_colour(r: u8, g: u8, b: u8)
    ensures
        ({
            let code = seq![
                '#',
                hex_char(r as int / 16),
                hex_char(r as int % 16),
                hex_char(g as int / 16),
                hex_char(g as int % 16),
                hex_char(b as int / 16),
                hex_char(b as int % 16),
            ];
            code_splits(code) && color_of(code) == Color::Rgb(r, g, b)
        }),
{
    let code = seq![
        '#',
        hex_char(r as int / 16),
        hex_char(r as int % 16),
        hex_char(g as int / 16),
        hex_char(g as int % 16),
        hex_char(b as int / 16),
        hex_char(b as int % 16),
    ];
    assert forall|i: int| 0 <= i < code.len() implies (#[trigger] code[i] as u32) < 128 by {}
    lemma_ascii_boundary(code, 1);
    lemma_ascii_boundary(code, 3);
    lemma_ascii_boundary(code, 5);
    lemma_ascii_boundary(code, 7);
    assert(code.take(7) =~= code);
    assert(bytes_between(code, 1, 3) =~= seq![code[1], code[2]]);
    assert(bytes_between(code, 3, 5) =~= seq![code[3], code[4]]);
    assert(bytes_between(code, 5, 7) =~= seq![code[5], code[6]]);
    lemma_two_digits(r as int / 16, r as int % 16);
    lemma_two_digits(g as int / 16, g as int % 16);
    lemma_two_digits(b as int / 16, b as int % 16);
}

/// A colour code of three digits gives each of them twice.
pub proof fn law_short_code_doubles_its_digits(r: int, g: int, b: int)
    requires
        0 <= r < 16,
        0 <= g < 16,
        0 <= b < 16,
    ensures
        ({
            let code = seq!['#', hex_char(r), hex_char(g), hex_char(b)];
            code_splits(code) && color_of(code) == Color::Rgb(
                (16 * r + r) as u8,
                (16 * g + g) as u8,
                (16 * b + b) as u8,
            )
        }),
{
    let code = seq!['#', hex_char(r), hex_char(g), hex_char(b)];
    assert forall|i: int| 0 <= i < code.len() implies (#[trigger] code[i] as u32) < 128 by {}
    lemma_ascii_boundary(code, 1);
    lemma_ascii_boundary(code, 2);
    lemma_ascii_boundary(code, 3);
    lemma_ascii_boundary(code, 4);
    assert(code.take(4) =~= code);
    assert(bytes_between(code, 1, 2) =~= seq![code[1]]);
    assert(bytes_between(code, 2, 3) =~= seq![code[2]]);
    assert(bytes_between(code, 3, 4) =~= seq![code[3]]);
    lemma_two_digits(r, r);
    lemma_two_digits(g, g);
    lemma_two_digits(b, b);
}

/// A text that is no code, and longer or shorter than every name, stands for white.
pub proof fn law_unknown_names_are_white(s: Seq<char>)
    requires
        s.len() > 13 || (s.len() > 0 && s.len() < 3),
        s[0] != '#',
    ensures
        color_of(s) == Color::White,
{
    reveal_strlit("black");
    reveal_strlit("red");
    reveal_strlit("green");
    reveal_strlit("yellow");
    reveal_strlit("blue");
    reveal_strlit("magenta");
    reveal_strlit("cyan");
    reveal_strlit("gray");
    reveal_strlit("grey");
    reveal_strlit("dark_gray");
    reveal_strlit("dark_grey");
    reveal_strlit("light_red");
    reveal_strlit("light_green");
    reveal_strlit("light_yellow");
    reveal_strlit("light_blue");
    reveal_strlit("light_magenta");
    reveal_strlit("light_cyan");
    reveal_strlit("white");
    reveal_strlit("orange");
    reveal_strlit("light_orange");
}

/// The names of the colours.
pub proof fn law_names_of_colours()
    ensures
        named_color("black"@) == Color::Black,
        named_color("red"@) == Color::Red,
        named_color("green"@) == Color::Green,
        named_color("yellow"@) == Color::Yellow,
        named_color("blue"@) == Color::Blue,
        named_color("magenta"@) == Color::Magenta,
        named_color("cyan"@) == Color::Cyan,
        named_color("gray"@) == Color::Gray,
        named_color("grey"@) == Color::Gray,
        named_color("dark_gray"@) == Color::DarkGray,
        named_color("dark_grey"@) == Color::DarkGray,
        named_color("light_red"@) == Color::LightRed,
        named_color("light_green"@) == Color::LightGreen,
        named_color("light_yellow"@) == Color::LightYellow,
        named_color("light_blue"@) == Color::LightBlue,
        named_color("light_magenta"@) == Color::LightMagenta,
        named_color("light_cyan"@) == Color::LightCyan,
        named_color("white"@) == Color::White,
        named_color("orange"@) == Color::Rgb(255, 165, 0),
        named_color("light_orange"@) == Color::Rgb(255, 200, 150),
{
    reveal_strlit("black");
    reveal_strlit("red");
    reveal_strlit("green");
    reveal_strlit("yellow");
    reveal_strlit("blue");
    reveal_strlit("magenta");
    reveal_strlit("cyan");
    reveal_strlit("gray");
    reveal_strlit("grey");
    reveal_strlit("dark_gray");
    reveal_strlit("dark_grey");
    reveal_strlit("light_red");
    reveal_strlit("light_green");
    reveal_strlit("light_yellow");
    reveal_strlit("light_blue");
    reveal_strlit("light_magenta");
    reveal_strlit("light_cyan");
    reveal_strlit("white");
    reveal_strlit("orange");
    reveal_strlit("light_orange");
    assert("black"@.len() == 5);
    assert("red"@.len() == 3);
    assert("green"@.len() == 5);
    assert("yellow"@.len() == 6);
    assert("blue"@.len() == 4);
    assert("magenta"@.len() == 7);
    assert("cyan"@.len() == 4);
    assert("gray"@.len() == 4);
    assert("grey"@.len() == 4);
    assert("dark_gray"@.len() == 9);
    assert("dark_grey"@.len() == 9);
    assert("light_red"@.len() == 9);
    assert("light_green"@.len() == 11);
    assert("light_yellow"@.len() == 12);
    assert("light_blue"@.len() == 10);
    assert("light_magenta"@.len() == 13);
    assert("light_cyan"@.len() == 10);
    assert("white"@.len() == 5);
    assert("orange"@.len() == 6);
    assert("light_orange"@.len() == 12);
    assert("green"@[0] != "black"@[0]);
    assert("cyan"@[0] != "blue"@[0]);
    assert("gray"@[0] != "blue"@[0]);
    assert("gray"@[0] != "cyan"@[0]);
    assert("grey"@[0] != "blue"@[0]);
    assert("grey"@[0] != "cyan"@[0]);
    assert("grey"@[2] != "gray"@[2]);
    assert("dark_grey"@[7] != "dark_gray"@[7]);
    assert("light_red"@[0] != "dark_gray"@[0]);
    assert("light_red"@[0] != "dark_grey"@[0]);
    assert("light_cyan"@[6] != "light_blue"@[6]);
    assert("white"@[0] != "black"@[0]);
    assert("white"@[0] != "green"@[0]);
    assert("orange"@[0] != "yellow"@[0]);
    assert("light_orange"@[6] != "light_yellow"@[6]);
}

/// Every text has a colour but a code with a character of more than one byte.
pub proof fn law_texts_have_colours(s: Seq<char>)
    ensures
        s.len() == 0 || s[0] != '#' ==> code_splits(s),
        text::byte_len(s) != 7 && text::byte_len(s) != 4 ==> code_splits(s),
        (forall|i: int| 0 <= i < s.len() ==> (#[trigger] s[i] as u32) < 128) ==> code_splits(s),
{
    if forall|i: int| 0 <= i < s.len() ==> (#[trigger] s[i] as u32) < 128 {
        lemma_ascii_boundary(s, s.len() as int);
        assert(s.take(s.len() as int) =~= s);
        if s.len() == 7 {
            lemma_ascii_boundary(s, 3);
            lemma_ascii_boundary(s, 5);
        }
        if s.len() == 4 {
            lemma_ascii_boundary(s, 2);
            lemma_ascii_boundary(s, 3);
        }
    }
}

} // verus!
