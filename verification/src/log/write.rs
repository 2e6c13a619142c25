use super::level::Level;
use super::logger::Logger;
use vstd::prelude::*;
use vstd::utf8::encode_utf8;

verus! {

/// Gray, the color of the `Log` label.
const GRY: u32 = 0x838383;

/// Yellow, the color of the `Warn` label.
const YEL: u32 = 0xab8704;

/// Red, the color of the `Err` label.
const RED: u32 = 0xff2100;

/// A logger that writes one line per record to standard output, with an
/// optional `[label]:` prefix that is colored with 24-bit ANSI escapes when
/// standard output is a terminal or `force_color` is set. `printed` lists, in
/// order, the lines it handed to standard output.
pub struct ANSI {
    pub labels: bool,
    pub force_color: bool,
    pub colors: [(u8, u8, u8); 3],
    pub printed: Ghost<Seq<Seq<char>>>,
}

/// The character of a decimal digit.
pub open spec fn digit_char(d: int) -> char {
    if d == 0 {
        '0'
    } else if d == 1 {
        '1'
    } else if d == 2 {
        '2'
    } else if d == 3 {
        '3'
    } else if d == 4 {
        '4'
    } else if d == 5 {
        '5'
    } else if d == 6 {
        '6'
    } else if d == 7 {
        '7'
    } else if d == 8 {
        '8'
    } else {
        '9'
    }
}

/// The decimal representation of `n`, without leading zeros.
pub open spec fn decimal(n: nat) -> Seq<char>
    decreases n,
{
    if n < 10 {
        seq![digit_char(n as int)]
    } else {
        decimal(n / 10).push(digit_char((n % 10) as int))
    }
}

/// The value of a decimal digit character.
pub open spec fn digit_value(c: char) -> int {
    if c == '0' {
        0
    } else if c == '1' {
        1
    } else if c == '2' {
        2
    } else if c == '3' {
        3
    } else if c == '4' {
        4
    } else if c == '5' {
        5
    } else if c == '6' {
        6
    } else if c == '7' {
        7
    } else if c == '8' {
        8
    } else {
        9
    }
}

/// Whether `c` is one of the characters `0` to `9`.
pub open spec fn is_digit(c: char) -> bool {
    c == '0' || c == '1' || c == '2' || c == '3' || c == '4' || c == '5' || c == '6' || c == '7'
        || c == '8' || c == '9'
}

/// The number that a string of decimal digits denotes.
pub open spec fn digits_value(s: Seq<char>) -> int
    decreases s.len(),
{
    if s.len() == 0 {
        0
    } else {
        digits_value(s.drop_last()) * 10 + digit_value(s.last())
    }
}

/// The label printed for each level.
pub open spec fn label(level: Level) -> Seq<char> {
    match level {
        Level::Log => seq!['L', 'o', 'g', ' '],
        Level::Warning => seq!['W', 'a', 'r', 'n'],
        Level::Error => seq!['E', 'r', 'r', ' '],
    }
}

/// The index of a level's color in `ANSI::colors`.
pub open spec fn color_index(level: Level) -> int {
    match level {
        Level::Log => 0,
        Level::Warning => 1,
        Level::Error => 2,
    }
}

/// The escape sequence that sets the foreground color to `rgb`.
pub open spec fn color_escape(rgb: (u8, u8, u8)) -> Seq<char> {
    seq!['\x1b', '[', '3', '8', ';', '2', ';'] + decimal(rgb.0 as nat) + seq![';']
        + decimal(rgb.1 as nat) + seq![';'] + decimal(rgb.2 as nat) + seq!['m']
}

/// The prefix that `a` prints before a record of severity `level`;
/// `terminal` tells whether standard output is a terminal.
pub open spec fn ansi_prefix(a: ANSI, level: Level, terminal: bool) -> Seq<char> {
    if !a.labels {
        Seq::empty()
    } else if terminal || a.force_color {
        seq!['['] + color_escape(a.colors@[color_index(level)]) + label(level) + seq![
            '\x1b',
            '[',
            'm',
        ] + seq![']', ':']
    } else {
        seq!['['] + label(level) + seq![']', ':']
    }
}

/// The whole line that `a` prints for `msg`: prefix, message, newline.
pub open spec fn ansi_line(a: ANSI, msg: Seq<char>, level: Level, terminal: bool) -> Seq<char> {
    ansi_prefix(a, level, terminal) + msg + seq!['\n']
}

/// `decimal(n)` is a non-empty string of decimal digits that denotes `n` and
/// starts with `0` only when `n` is `0`.
pub proof fn lemma_decimal_denotes(n: nat)
    ensures
        decimal(n).len() >= 1,
        forall|i: int| 0 <= i < decimal(n).len() ==> is_digit(#[trigger] decimal(n)[i]),
        digits_value(decimal(n)) == n,
        decimal(n)[0] == '0' ==> n == 0,
    decreases n,
{
    let d = (n % 10) as int;
    assert(digit_value(digit_char(d)) == d);
    if n >= 10 {
        lemma_decimal_denotes(n / 10);
        let s = decimal(n);
        assert(s.drop_last() =~= decimal(n / 10));
        assert(s[0] == decimal(n / 10)[0]);
        assert(s.last() == digit_char(d));
        assert(digits_value(s) == digits_value(s.drop_last()) * 10 + digit_value(s.last()));
        assert(n == (n / 10) * 10 + n % 10) by (nonlinear_arith);
    } else {
        let s = decimal(n);
        assert(s.drop_last() =~= Seq::<char>::empty());
        assert(digits_value(s.drop_last()) == 0);
        assert(s.last() == digit_char(d));
        assert(digits_value(s) == digits_value(s.drop_last()) * 10 + digit_value(s.last()));
    }
}

/// A logger with labels off prints each message followed by a newline and
/// nothing else, whatever the level and whatever the output is.
pub proof fn lemma_unlabeled_line(a: ANSI, msg: Seq<char>, level: Level, terminal: bool)
    requires
        !a.labels,
    ensures
        ansi_line(a, msg, level, terminal) == msg + seq!['\n'],
{
    assert(ansi_line(a, msg, level, terminal) =~= msg + seq!['\n']);
}

/// With labels on, colors are used only when the output is a terminal or
/// colors are forced; otherwise the line is `[label]:` and the message.
pub proof fn lemma_uncolored_line(a: ANSI, msg: Seq<char>, level: Level)
    requires
        a.labels,
        !a.force_color,
    ensures
        ansi_line(a, msg, level, false) == seq!['['] + label(level) + seq![']', ':'] + msg
            + seq!['\n'],
{
}

/// The one-character string of the decimal digit `d`.
fn digit_str(d: u8) -> (s: &'static str)
    requires
        d < 10,
    ensures
        s@ == seq![digit_char(d as int)],
{
    match d {
        0 => {
            proof {
                reveal_strlit("0");
            }
            "0"
        },
        1 => {
            proof {
                reveal_strlit("1");
            }
            "1"
        },
        2 => {
            proof {
                reveal_strlit("2");
            }
            "2"
        },
        3 => {
            proof {
                reveal_strlit("3");
            }
            "3"
        },
        4 => {
            proof {
                reveal_strlit("4");
            }
            "4"
        },
        5 => {
            proof {
                reveal_strlit("5");
            }
            "5"
        },
        6 => {
            proof {
                reveal_strlit("6");
            }
            "6"
        },
        7 => {
            proof {
                reveal_strlit("7");
            }
            "7"
        },
        8 => {
            proof {
                reveal_strlit("8");
            }
            "8"
        },
        _ => {
            proof {
                reveal_strlit("9");
            }
            "9"
        },
    }
}

/// Appends the decimal representation of `n` to `s`.
fn push_decimal(s: &mut String, n: u8)
    ensures
        final(s)@ == old(s)@ + decimal(n as nat),
{
    proof {
        reveal_with_fuel(decimal, 3);
    }
    if n >= 100 {
        s.append(digit_str(n / 100));
    }
    if n >= 10 {
        s.append(digit_str((n / 10) % 10));
    }
    s.append(digit_str(n % 10));
    assert(s@ =~= old(s)@ + decimal(n as nat));
}

impl ANSI {
    /// The lines handed to standard output so far, oldest first.
    pub open spec fn printed(&self) -> Seq<Seq<char>> {
        self.printed@
    }

    /// A logger with labels on, colors only on a terminal, and the colors
    /// gray (`Log`), yellow (`Warn`) and red (`Err`).
    pub fn new() -> (a: Self)
        ensures
            a.labels,
            !a.force_color,
            a.colors@ == seq![(0x83u8, 0x83u8, 0x83u8), (0xabu8, 0x87u8, 0x04u8), (0xffu8, 0x21u8, 0x00u8)],
            a.printed() == Seq::<Seq<char>>::empty(),
    {
        let a = ANSI {
            printed: Ghost(Seq::empty()),
            labels: true,
            force_color: false,
            colors: [
                (
                    ((GRY & 0xff0000) >> (8 * 2)) as u8,
                    ((GRY & 0x00ff00) >> (8 * 1)) as u8,
                    ((GRY & 0x0000ff) >> (8 * 0)) as u8,
                ),
                (
                    ((YEL & 0xff0000) >> (8 * 2)) as u8,
                    ((YEL & 0x00ff00) >> (8 * 1)) as u8,
                    ((YEL & 0x0000ff) >> (8 * 0)) as u8,
                ),
                (
                    ((RED & 0xff0000) >> (8 * 2)) as u8,
                    ((RED & 0x00ff00) >> (8 * 1)) as u8,
                    ((RED & 0x0000ff) >> (8 * 0)) as u8,
                ),
            ],
        };
        assert({
            &&& ((GRY & 0xff0000) >> (8 * 2)) as u8 == 0x83u8
            &&& ((GRY & 0x00ff00) >> (8 * 1)) as u8 == 0x83u8
            &&& ((GRY & 0x0000ff) >> (8 * 0)) as u8 == 0x83u8
            &&& ((YEL & 0xff0000) >> (8 * 2)) as u8 == 0xabu8
            &&& ((YEL & 0x00ff00) >> (8 * 1)) as u8 == 0x87u8
            &&& ((YEL & 0x0000ff) >> (8 * 0)) as u8 == 0x04u8
            &&& ((RED & 0xff0000) >> (8 * 2)) as u8 == 0xffu8
            &&& ((RED & 0x00ff00) >> (8 * 1)) as u8 == 0x21u8
            &&& ((RED & 0x0000ff) >> (8 * 0)) as u8 == 0x00u8
        }) by (bit_vector);
        assert(a.colors@ =~= seq![(0x83u8, 0x83u8, 0x83u8), (0xabu8, 0x87u8, 0x04u8), (0xffu8, 0x21u8, 0x00u8)]);
        a
    }

    /// The line printed for `msg` at severity `level`, when standard output
    /// is (`terminal`) or is not a terminal.
    pub fn format_line(&self, msg: &str, level: Level, terminal: bool) -> (line: String)
        ensures
            line@ == ansi_line(*self, msg@, level, terminal),
    {
        let mut line = String::new();
        if self.labels {
            let (slvl, ilvl): (&str, usize) = match level {
                Level::Log => {
                    proof {
                        reveal_strlit("Log ");
                    }
                    ("Log ", 0)
                },
                Level::Warning => {
                    proof {
                        reveal_strlit("Warn");
                    }
                    ("Warn", 1)
                },
                Level::Error => {
                    proof {
                        reveal_strlit("Err ");
                    }
                    ("Err ", 2)
                },
            };
            proof {
                reveal_strlit("[");
                reveal_strlit("]:");
            }
            line.append("[");
            if terminal || self.force_color {
                let (r, g, b) = self.colors[ilvl];
                proof {
                    reveal_strlit("\x1b[38;2;");
                    reveal_strlit(";");
                    reveal_strlit("m");
                    reveal_strlit("\x1b[m");
                }
                line.append("\x1b[38;2;");
                push_decimal(&mut line, r);
                line.append(";");
                push_decimal(&mut line, g);
                line.append(";");
                push_decimal(&mut line, b);
                line.append("m");
                line.append(slvl);
                line.append("\x1b[m");
            } else {
                line.append(slvl);
            }
            line.append("]:");
        }
        line.append(msg);
        proof {
            reveal_strlit("\n");
        }
        line.append("\n");
        assert(line@ =~= ansi_line(*self, msg@, level, terminal));
        line
    }
}

/// The standard output stream; carried through, never inspected.
#[verifier::external_type_specification]
#[verifier::external_body]
pub struct ExStdout(std::io::Stdout);

/// `std::io::stdout()`: a handle to the standard output stream. Nothing is
/// promised of it beyond its type.
#[verifier::external_body]
fn stdout_handle() -> std::io::Stdout {
    std::io::stdout()
}

/// `std::io::IsTerminal::is_terminal` on a standard output handle. Whether
/// standard output is a terminal depends on the machine, so nothing is promised.
#[verifier::external_body]
fn stdout_is_terminal(out: &std::io::Stdout) -> bool {
    std::io::IsTerminal::is_terminal(out)
}

/// `std::io::Write::write_all` of the bytes of `s` on a standard output
/// handle. Whether the write succeeds depends on the machine, so nothing is
/// promised of the result.
#[verifier::external_body]
fn stdout_write_all(out: &mut std::io::Stdout, s: &str) -> std::io::Result<()> {
    std::io::Write::write_all(out, s.as_bytes())
}

impl Logger for ANSI {
    /// The settings stay, and the line `ansi_line(msg, level, t)` is handed to
    /// standard output, for `t` the answer to whether it is a terminal; whether
    /// the write succeeds is up to the machine.
    open spec fn writes(before: &Self, after: &Self, msg: Seq<char>, level: Level, r: std::io::Result<()>) -> bool {
        &&& after.labels == before.labels
        &&& after.force_color == before.force_color
        &&& after.colors == before.colors
        &&& exists|t: bool| after.printed() == before.printed().push(#[trigger] ansi_line(*before, msg, level, t))
    }

    /// Prints `format_line(msg, level, terminal)` to standard output, where
    /// `terminal` tells whether standard output is a terminal (asked only when
    /// labels are on, as only the labels depend on it).
    fn write(&mut self, msg: String, level: Level) -> std::io::Result<()> {
        let mut out = stdout_handle();
        let terminal = if self.labels {
            stdout_is_terminal(&out)
        } else {
            false
        };
        let line = self.format_line(msg.as_str(), level, terminal);
        proof {
            self.printed@ = self.printed@.push(line@);
        }
        stdout_write_all(&mut out, line.as_str())
    }
}

/// A byte buffer is a logger: each message's UTF-8 bytes are appended as they
/// are, with no label and no newline, whatever its level.
impl Logger for Vec<u8> {
    /// The message's UTF-8 bytes are appended, and the write succeeds.
    open spec fn writes(before: &Self, after: &Self, msg: Seq<char>, level: Level, r: std::io::Result<()>) -> bool {
        &&& r is Ok
        &&& after@ == before@ + encode_utf8(msg)
    }

    fn write(&mut self, msg: String, _level: Level) -> (r: std::io::Result<()>)
        ensures
            r is Ok,
            final(self)@ == old(self)@ + encode_utf8(msg@),
    {
        let bytes = msg.as_str().as_bytes();
        self.extend_from_slice(bytes);
        assert(self@ =~= old(self)@ + encode_utf8(msg@));
        Ok(())
    }
}

} // verus!
