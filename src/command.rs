use vstd::prelude::*;

verus! {

/// Whether `c` is an ASCII decimal digit.
pub open spec fn is_digit(c: char) -> bool {
    48 <= (c as u32) <= 57
}

/// One or more ASCII decimal digits.
pub open spec fn all_digits(d: Seq<char>) -> bool {
    d.len() > 0 && forall|i: int| 0 <= i < d.len() ==> is_digit(#[trigger] d[i])
}

/// The number that the decimal digits `d` write.
pub open spec fn digits_value(d: Seq<char>) -> int
    decreases d.len(),
{
    if d.len() == 0 {
        0
    } else {
        digits_value(d.drop_last()) * 10 + ((d.last() as u32) - 48)
    }
}

/// The value of an optional `+` followed by decimal digits.
pub open spec fn unsigned_value(s: Seq<char>) -> Option<int> {
    if s.len() > 0 && s[0] == '+' && all_digits(s.skip(1)) {
        Some(digits_value(s.skip(1)))
    } else if all_digits(s) {
        Some(digits_value(s))
    } else {
        None
    }
}

/// The value of an optional `+` or `-` followed by decimal digits.
pub open spec fn signed_value(s: Seq<char>) -> Option<int> {
    if s.len() > 0 && s[0] == '-' && all_digits(s.skip(1)) {
        Some(-digits_value(s.skip(1)))
    } else {
        unsigned_value(s)
    }
}

/// The `i32` that the text writes, if it is one.
pub open spec fn i32_of(s: Seq<char>) -> Option<i32> {
    match signed_value(s) {
        Some(v) => if i32::MIN <= v <= i32::MAX { Some(v as i32) } else { None },
        None => None,
    }
}

/// The `u32` that the text writes, if it is one; a `-` sign is refused.
pub open spec fn u32_of(s: Seq<char>) -> Option<u32> {
    match unsigned_value(s) {
        Some(v) => if v <= u32::MAX { Some(v as u32) } else { None },
        None => None,
    }
}

/// The `u8` that the text writes, if it is one; a `-` sign is refused.
pub open spec fn u8_of(s: Seq<char>) -> Option<u8> {
    match unsigned_value(s) {
        Some(v) => if v <= u8::MAX { Some(v as u8) } else { None },
        None => None,
    }
}

/// Relies on `str::parse::<i32>`: an optional sign and one or more ASCII
/// digits whose value fits, else an error.
#[verifier::external_body]
fn parse_i32(s: &String) -> (r: Option<i32>)
    ensures
        r == i32_of(s@),
{
    s.parse::<i32>().ok()
}

/// Relies on `str::parse::<u32>`: an optional `+` and one or more ASCII
/// digits whose value fits, else an error.
#[verifier::external_body]
fn parse_u32(s: &String) -> (r: Option<u32>)
    ensures
        r == u32_of(s@),
{
    s.parse::<u32>().ok()
}

/// Relies on `str::parse::<u8>`: an optional `+` and one or more ASCII
/// digits whose value fits, else an error.
#[verifier::external_body]
fn parse_u8(s: &String) -> (r: Option<u8>)
    ensures
        r == u8_of(s@),
{
    s.parse::<u8>().ok()
}

/// One image operation of the command line. The blur sigma is a decimal
/// fraction, kept as written.
#[derive(Clone, Debug, PartialEq)]
pub enum Command {
    Blur { sigma: String },
    Brighten { amount: i32 },
    Crop { x: u32, y: u32, width: u32, height: u32 },
    Rotate { degrees: String },
    Invert,
    Grayscale,
    Fractal,
    Generate { red: u8, green: u8, blue: u8 },
}

/// A `Command` with its texts as character sequences.
pub enum CommandView {
    Blur { sigma: Seq<char> },
    Brighten { amount: i32 },
    Crop { x: u32, y: u32, width: u32, height: u32 },
    Rotate { degrees: Seq<char> },
    Invert,
    Grayscale,
    Fractal,
    Generate { red: u8, green: u8, blue: u8 },
}

impl Command {
    pub open spec fn view(&self) -> CommandView {
        match self {
            Command::Blur { sigma } => CommandView::Blur { sigma: sigma@ },
            Command::Brighten { amount } => CommandView::Brighten { amount: *amount },
            Command::Crop { x, y, width, height } => CommandView::Crop { x: *x, y: *y, width: *width, height: *height },
            Command::Rotate { degrees } => CommandView::Rotate { degrees: degrees@ },
            Command::Invert => CommandView::Invert,
            Command::Grayscale => CommandView::Grayscale,
            Command::Fractal => CommandView::Fractal,
            Command::Generate { red, green, blue } => CommandView::Generate { red: *red, green: *green, blue: *blue },
        }
    }
}

/// A command together with the files it reads and writes.
#[derive(Clone, Debug, PartialEq)]
pub struct Step {
    pub infile: String,
    pub outfile: String,
    pub command: Command,
}

#[derive(Clone, Copy, Debug, PartialEq, Eq)]
pub enum CommandError {
    /// No subcommand, an unknown one, or too few arguments for it.
    Usage,
    /// An argument that should be an integer of its range is not.
    BadNumber,
}

/// How many arguments the subcommand `name` takes, or `None` if it is unknown.
pub open spec fn arity(name: Seq<char>) -> Option<nat> {
    if name == "blur"@ || name == "brighten"@ || name == "rotate"@ {
        Some(1)
    } else if name == "crop"@ {
        Some(4)
    } else if name == "generate"@ {
        Some(3)
    } else if name == "invert"@ || name == "grayscale"@ || name == "fractal"@ {
        Some(0)
    } else {
        None
    }
}

/// The command that `name` with the arguments `p` stands for, or `None`
/// where a numeric argument does not parse.
pub open spec fn decode(name: Seq<char>, p: Seq<Seq<char>>) -> Option<CommandView> {
    if name == "blur"@ {
        Some(CommandView::Blur { sigma: p[0] })
    } else if name == "brighten"@ {
        match i32_of(p[0]) {
            Some(amount) => Some(CommandView::Brighten { amount }),
            None => None,
        }
    } else if name == "rotate"@ {
        Some(CommandView::Rotate { degrees: p[0] })
    } else if name == "crop"@ {
        match (u32_of(p[0]), u32_of(p[1]), u32_of(p[2]), u32_of(p[3])) {
            (Some(x), Some(y), Some(width), Some(height)) => Some(CommandView::Crop { x, y, width, height }),
            _ => None,
        }
    } else if name == "generate"@ {
        match (u8_of(p[0]), u8_of(p[1]), u8_of(p[2])) {
            (Some(red), Some(green), Some(blue)) => Some(CommandView::Generate { red, green, blue }),
            _ => None,
        }
    } else if name == "invert"@ {
        Some(CommandView::Invert)
    } else if name == "grayscale"@ {
        Some(CommandView::Grayscale)
    } else {
        Some(CommandView::Fractal)
    }
}

/// The command at the front of `args` and how many arguments it takes up,
/// or why there is none.
pub open spec fn next_command(args: Seq<String>) -> Result<(CommandView, nat), CommandError> {
    if args.len() == 0 {
        Err(CommandError::Usage)
    } else {
        match arity(args[0]@) {
            None => Err(CommandError::Usage),
            Some(k) => if args.len() < 1 + k {
                Err(CommandError::Usage)
            } else {
                match decode(args[0]@, args.subrange(1, (1 + k) as int).map_values(|s: String| s@)) {
                    None => Err(CommandError::BadNumber),
                    Some(c) => Ok((c, (1 + k) as nat)),
                }
            },
        }
    }
}

fn is_name(s: &String, name: &str) -> (r: bool)
    ensures
        r == (s@ == name@),
{
    *s == name.to_owned()
}

/// Takes the subcommand at the front of `args` and its arguments off `args`
/// and returns it, to act on `infile` and write `outfile`. A command line
/// that cannot be carried out is reported, never acted on: `Usage` where
/// the subcommand is missing or unknown or lacks arguments, `BadNumber`
/// where a numeric argument is not an integer of its range; `args` is then
/// left as it was, and the caller prints the usage or stops.
pub fn single_command(args: &mut Vec<String>, infile: String, outfile: String) -> (r: Result<Step, CommandError>)
    ensures
        match next_command(old(args)@) {
            Err(e) => r == Err::<Step, CommandError>(e) && final(args)@ == old(args)@,
            Ok((c, n)) => r matches Ok(st) && st.command.view() == c && st.infile == infile && st.outfile
                == outfile && final(args)@ == old(args)@.subrange(n as int, old(args)@.len() as int),
        },
{
    let ghost a = args@;
    if args.len() == 0 {
        return Err(CommandError::Usage);
    }
    let k: usize = if is_name(&args[0], "blur") || is_name(&args[0], "brighten") || is_name(&args[0], "rotate") {
        1
    } else if is_name(&args[0], "crop") {
        4
    } else if is_name(&args[0], "generate") {
        3
    } else if is_name(&args[0], "invert") || is_name(&args[0], "grayscale") || is_name(&args[0], "fractal") {
        0
    } else {
        return Err(CommandError::Usage);
    };
    if args.len() - 1 < k {
        return Err(CommandError::Usage);
    }
    let ghost p = a.subrange(1, 1 + k as int).map_values(|s: String| s@);
    assert(forall|i: int| 0 <= i < k ==> p[i] == #[trigger] a[1 + i]@);
    let command = if is_name(&args[0], "blur") {
        Command::Blur { sigma: args[1].clone() }
    } else if is_name(&args[0], "brighten") {
        match parse_i32(&args[1]) {
            Some(amount) => Command::Brighten { amount },
            None => return Err(CommandError::BadNumber),
        }
    } else if is_name(&args[0], "rotate") {
        Command::Rotate { degrees: args[1].clone() }
    } else if is_name(&args[0], "crop") {
        match (parse_u32(&args[1]), parse_u32(&args[2]), parse_u32(&args[3]), parse_u32(&args[4])) {
            (Some(x), Some(y), Some(width), Some(height)) => Command::Crop { x, y, width, height },
            _ => return Err(CommandError::BadNumber),
        }
    } else if is_name(&args[0], "generate") {
        match (parse_u8(&args[1]), parse_u8(&args[2]), parse_u8(&args[3])) {
            (Some(red), Some(green), Some(blue)) => Command::Generate { red, green, blue },
            _ => return Err(CommandError::BadNumber),
        }
    } else if is_name(&args[0], "invert") {
        Command::Invert
    } else if is_name(&args[0], "grayscale") {
        Command::Grayscale
    } else {
        Command::Fractal
    };
    let mut taken: usize = 0;
    while taken <= k
        invariant
            k <= 4,
            k + 1 <= a.len(),
            taken <= k + 1,
            args@ == a.subrange(taken as int, a.len() as int),
        decreases k + 1 - taken,
    {
        args.remove(0);
        taken += 1;
    }
    Ok(Step { infile, outfile, command })
}

} // verus!
