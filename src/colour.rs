use vstd::prelude::*;
use vstd::string::StringExecFns;

verus! {

/// Which way a snake turns during one frame.
#[derive(Clone, Copy, Debug, PartialEq, Eq, Structural)]
pub enum TurnDirection {
    Left,
    Right,
}

/// A trail colour: one of three channels, each with a brightness in 0..=255.
#[derive(Clone, Copy, Debug, PartialEq, Eq, Structural)]
pub enum Colour {
    Red(u8),
    Green(u8),
    Blue(u8),
}

/// The character of a decimal digit.
pub open spec fn digit_char(d: int) -> char {
    if d == 0 {
        '0'
    } else if d == 1 {
        '1'
    } else if d == 2 {
        '2'
    } else if d == 3 {
        '3'
    } else if d == 4 {
        '4'
    } else if d == 5 {
        '5'
    } else if d == 6 {
        '6'
    } else if d == 7 {
        '7'
    } else if d == 8 {
        '8'
    } else {
        '9'
    }
}

/// The decimal numeral of a natural number, without leading zeros.
pub open spec fn decimal(n: nat) -> Seq<char>
    decreases n,
{
    if n < 10 {
        seq![digit_char(n as int)]
    } else {
        decimal(n / 10) + seq![digit_char((n % 10) as int)]
    }
}

fn digit_str(d: u8) -> (r: &'static str)
    requires
        d < 10,
    ensures
        r@ == seq![digit_char(d as int)],
{
    if d == 0 {
        proof {
            reveal_strlit("0");
        }
        "0"
    } else if d == 1 {
        proof {
            reveal_strlit("1");
        }
        "1"
    } else if d == 2 {
        proof {
            reveal_strlit("2");
        }
        "2"
    } else if d == 3 {
        proof {
            reveal_strlit("3");
        }
        "3"
    } else if d == 4 {
        proof {
            reveal_strlit("4");
        }
        "4"
    } else if d == 5 {
        proof {
            reveal_strlit("5");
        }
        "5"
    } else if d == 6 {
        proof {
            reveal_strlit("6");
        }
        "6"
    } else if d == 7 {
        proof {
            reveal_strlit("7");
        }
        "7"
    } else if d == 8 {
        proof {
            reveal_strlit("8");
        }
        "8"
    } else {
        proof {
            reveal_strlit("9");
        }
        "9"
    }
}

/// Appends the decimal numeral of a byte.
fn append_decimal(s: &mut String, n: u8)
    ensures
        final(s)@ == old(s)@ + decimal(n as nat),
{
    let ghost s0 = s@;
    if n >= 100 {
        s.append(digit_str(n / 100));
        s.append(digit_str((n / 10) % 10));
        assert(decimal((n / 100) as nat) == seq![digit_char((n / 100) as int)]);
        assert(decimal((n / 10) as nat) == decimal((n / 100) as nat) + seq![digit_char(((n / 10) % 10) as int)]);
    } else if n >= 10 {
        s.append(digit_str(n / 10));
        assert(decimal((n / 10) as nat) == seq![digit_char((n / 10) as int)]);
    }
    s.append(digit_str(n % 10));
    assert(s@ =~= s0 + decimal(n as nat));
}

impl Colour {
    pub open spec fn brightness(self) -> u8 {
        match self {
            Colour::Red(b) => b,
            Colour::Green(b) => b,
            Colour::Blue(b) => b,
        }
    }

    /// The same channel with another brightness.
    pub open spec fn with_brightness(self, brightness: u8) -> Colour {
        match self {
            Colour::Red(_) => Colour::Red(brightness),
            Colour::Green(_) => Colour::Green(brightness),
            Colour::Blue(_) => Colour::Blue(brightness),
        }
    }

    pub open spec fn spec_rgb(self) -> (u8, u8, u8) {
        match self {
            Colour::Red(b) => (b, 0, 0),
            Colour::Green(b) => (0, b, 0),
            Colour::Blue(b) => (0, 0, b),
        }
    }

    /// Replaces the brightness and keeps the channel.
    pub fn set_brightness(&mut self, brightness: u8)
        ensures
            *final(self) == old(self).with_brightness(brightness),
            final(self).brightness() == brightness,
    {
        *self = match *self {
            Colour::Red(_) => Colour::Red(brightness),
            Colour::Green(_) => Colour::Green(brightness),
            Colour::Blue(_) => Colour::Blue(brightness),
        };
    }

    /// The text of the channel name.
    pub open spec fn channel_name(self) -> Seq<char> {
        match self {
            Colour::Red(_) => seq!['R', 'e', 'd'],
            Colour::Green(_) => seq!['G', 'r', 'e', 'e', 'n'],
            Colour::Blue(_) => seq!['B', 'l', 'u', 'e'],
        }
    }

    /// How the colour reads as text: channel and brightness, as `Red(255)`.
    pub open spec fn spec_describe(self) -> Seq<char> {
        self.channel_name() + seq!['('] + decimal(self.brightness() as nat) + seq![')']
    }

    /// The colour as text, in the form `Red(255)`.
    pub fn describe(&self) -> (r: String)
        ensures
            r@ == self.spec_describe(),
    {
        let mut s = match *self {
            Colour::Red(_) => {
                proof {
                    reveal_strlit("Red(");
                }
                String::from_str("Red(")
            },
            Colour::Green(_) => {
                proof {
                    reveal_strlit("Green(");
                }
                String::from_str("Green(")
            },
            Colour::Blue(_) => {
                proof {
                    reveal_strlit("Blue(");
                }
                String::from_str("Blue(")
            },
        };
        let b = match *self {
            Colour::Red(b) => b,
            Colour::Green(b) => b,
            Colour::Blue(b) => b,
        };
        append_decimal(&mut s, b);
        proof {
            reveal_strlit(")");
        }
        s.append(")");
        assert(s@ =~= self.spec_describe());
        s
    }

    /// The colour as a red, green, blue triple: its own channel at its
    /// brightness, the other two at zero.
    pub fn rgb(&self) -> (r: (u8, u8, u8))
        ensures
            r == self.spec_rgb(),
    {
        match *self {
            Colour::Red(b) => (b, 0, 0),
            Colour::Green(b) => (0, b, 0),
            Colour::Blue(b) => (0, 0, b),
        }
    }
}

} // verus!
