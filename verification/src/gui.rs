//! The text of the debug display: frames per second, number of enemies and
//! the player's health.
use crate::resources::PlayerHealth;
use vstd::prelude::*;
use vstd::string::*;

verus! {

/// The character that stands for a digit.
pub open spec fn digit(d: int) -> char {
    if d == 0 {
        '0'
    } else if d == 1 {
        '1'
    } else if d == 2 {
        '2'
    } else if d == 3 {
        '3'
    } else if d == 4 {
        '4'
    } else if d == 5 {
        '5'
    } else if d == 6 {
        '6'
    } else if d == 7 {
        '7'
    } else if d == 8 {
        '8'
    } else {
        '9'
    }
}

/// `n` in decimal digits, without leading zeros.
pub open spec fn decimal(n: nat) -> Seq<char>
    decreases n,
{
    if n < 10 {
        seq![digit(n as int)]
    } else {
        decimal(n / 10).push(digit((n % 10) as int))
    }
}

/// `n` in decimal digits, with a minus sign before a negative number.
pub open spec fn signed_decimal(n: int) -> Seq<char> {
    if n < 0 {
        seq!['-'] + decimal((-n) as nat)
    } else {
        decimal(n as nat)
    }
}

/// A number given in hundredths, written with two decimal places.
pub open spec fn hundredths(n: nat) -> Seq<char> {
    decimal(n / 100) + seq!['.', digit((n % 100 / 10) as int), digit((n % 10) as int)]
}

/// The three lines of the debug display.
pub open spec fn debug_text(fps: nat, enemies: nat, health: int) -> Seq<char> {
    "Fps: "@ + hundredths(fps) + "\nEnemies: "@ + decimal(enemies) + "\nHealth: "@
        + signed_decimal(health)
}

/// The digit `d` as a text of one character.
fn digit_text(d: u64) -> (text: &'static str)
    requires
        d < 10,
    ensures
        text@ == seq![digit(d as int)],
{
    proof {
        reveal_strlit("0");
        reveal_strlit("1");
        reveal_strlit("2");
        reveal_strlit("3");
        reveal_strlit("4");
        reveal_strlit("5");
        reveal_strlit("6");
        reveal_strlit("7");
        reveal_strlit("8");
        reveal_strlit("9");
    }
    let text = match d {
        0 => "0",
        1 => "1",
        2 => "2",
        3 => "3",
        4 => "4",
        5 => "5",
        6 => "6",
        7 => "7",
        8 => "8",
        _ => "9",
    };
    text
}

/// Appends `n` in decimal digits to `text`.
fn push_decimal(text: &mut String, n: u64)
    ensures
        final(text)@ == old(text)@ + decimal(n as nat),
    decreases n,
{
    if n >= 10 {
        push_decimal(text, n / 10);
    }
    text.append(digit_text(n % 10));
}

/// Appends `n` in decimal digits to `text`, with a minus sign before a
/// negative number.
fn push_signed_decimal(text: &mut String, n: i64)
    ensures
        final(text)@ == old(text)@ + signed_decimal(n as int),
{
    if n < 0 {
        proof {
            reveal_strlit("-");
        }
        text.append("-");
        let magnitude: u64 = (-(n as i128)) as u64;
        push_decimal(text, magnitude);
    } else {
        push_decimal(text, n as u64);
    }
}

/// The text of the debug display for `fps` hundredths of a frame per second,
/// `enemies` enemies and a player at `health`.
pub fn format_debug_text(fps: u64, enemies: usize, health: i64) -> (text: String)
    ensures
        text@ == debug_text(fps as nat, enemies as nat, health as int),
{
    let mut text = String::from_str("Fps: ");
    push_decimal(&mut text, fps / 100);
    proof {
        reveal_strlit(".");
    }
    text.append(".");
    text.append(digit_text(fps % 100 / 10));
    text.append(digit_text(fps % 10));
    text.append("\nEnemies: ");
    push_decimal(&mut text, enemies as u64);
    text.append("\nHealth: ");
    push_signed_decimal(&mut text, health);
    text
}

/// Renews the debug display with the frame rate, the number of enemies and
/// the player's health. Nothing is written while there is no display, and
/// while no frame rate is known; then the text stays as it was.
pub fn update_debug_text(
    text: &mut Option<String>,
    fps: Option<u64>,
    num_enemies: usize,
    player_health: &PlayerHealth,
)
    ensures
        old(text).is_some() && fps.is_some() ==> final(text).is_some() && final(text).unwrap()@
            == debug_text(fps.unwrap() as nat, num_enemies as nat, player_health.value as int),
        !(old(text).is_some() && fps.is_some()) ==> *final(text) == *old(text),
{
    if text.is_none() {
        return ;
    }
    match fps {
        Some(value) => {
            *text = Some(format_debug_text(value, num_enemies, player_health.value));
        },
        None => {},
    }
}

} // verus!
