use vstd::prelude::*;

verus! {

/// Settings of a render, as given on the command line.
pub struct CommandLineArguments {
    pub output_file: String,
    pub width: usize,
    pub height: usize,
    pub oversampling_factor: usize,
}

/// Mathematical model of `CommandLineArguments`.
pub struct ArgsView {
    pub output_file: Seq<char>,
    pub width: usize,
    pub height: usize,
    pub oversampling_factor: usize,
}

impl View for CommandLineArguments {
    type V = ArgsView;

    open spec fn view(&self) -> ArgsView {
        ArgsView {
            output_file: self.output_file@,
            width: self.width,
            height: self.height,
            oversampling_factor: self.oversampling_factor,
        }
    }
}

/// The settings used where the command line gives none.
pub open spec fn default_args() -> ArgsView {
    ArgsView {
        output_file: "raymond_out.ppm"@,
        width: 1024,
        height: 768,
        oversampling_factor: 2,
    }
}

pub open spec fn is_ascii_digit(c: char) -> bool {
    '0' <= c && c <= '9'
}

/// Value of a non-empty run of decimal digits, most significant first.
pub open spec fn digits_value(s: Seq<char>) -> int
    decreases s.len(),
{
    if s.len() == 0 {
        0
    } else {
        digits_value(s.drop_last()) * 10 + (s.last() as int - '0' as int)
    }
}

/// The unsigned decimal number that `s` spells: an optional `+` followed by
/// one or more ASCII digits, and nothing else.
pub open spec fn unsigned_decimal(s: Seq<char>) -> Option<int> {
    let digits = if s.len() > 0 && s[0] == '+' {
        s.drop_first()
    } else {
        s
    };
    if digits.len() > 0 && forall|i: int| 0 <= i < digits.len() ==> is_ascii_digit(#[trigger] digits[i]) {
        Some(digits_value(digits))
    } else {
        None
    }
}

/// The `usize` that `s` spells, if it spells one that fits.
pub open spec fn usize_of(s: Seq<char>) -> Option<usize> {
    match unsigned_decimal(s) {
        Some(v) => if v <= usize::MAX {
            Some(v as usize)
        } else {
            None
        },
        None => None,
    }
}

/// Relies on `usize::from_str` (through `str::parse`): it accepts an optional
/// `+` followed by one or more ASCII digits whose value fits in a `usize`, and
/// rejects anything else.
#[verifier::external_body]
fn parse_usize(s: &str) -> (r: Option<usize>)
    ensures
        r == usize_of(s@),
{
    s.parse::<usize>().ok()
}

pub open spec fn is_output_flag(s: Seq<char>) -> bool {
    s == "-o"@ || s == "--output"@
}

pub open spec fn is_width_flag(s: Seq<char>) -> bool {
    s == "-w"@ || s == "--width"@
}

pub open spec fn is_height_flag(s: Seq<char>) -> bool {
    s == "-h"@ || s == "--height"@
}

pub open spec fn is_samples_flag(s: Seq<char>) -> bool {
    s == "-s"@ || s == "--samples"@
}

/// Applies flag / value pairs from left to right to `acc`; a later flag
/// overrides an earlier one.
pub open spec fn apply_flags(flags: Seq<Seq<char>>, acc: ArgsView) -> Result<ArgsView, Seq<char>>
    decreases flags.len(),
{
    if flags.len() == 0 {
        Ok(acc)
    } else if flags.len() == 1 {
        Err("Value expected after command line argument"@)
    } else {
        let flag = flags[0];
        let value = flags[1];
        let rest = flags.subrange(2, flags.len() as int);
        if is_output_flag(flag) {
            apply_flags(rest, ArgsView { output_file: value, ..acc })
        } else if is_width_flag(flag) {
            match usize_of(value) {
                Some(n) => apply_flags(rest, ArgsView { width: n, ..acc }),
                None => Err("Could not parse width"@),
            }
        } else if is_height_flag(flag) {
            match usize_of(value) {
                Some(n) => apply_flags(rest, ArgsView { height: n, ..acc }),
                None => Err("Could not parse height"@),
            }
        } else if is_samples_flag(flag) {
            match usize_of(value) {
                Some(n) => apply_flags(rest, ArgsView { oversampling_factor: n, ..acc }),
                None => Err("Could not parse oversampling factor"@),
            }
        } else {
            Err("Unexpected command line argument"@)
        }
    }
}

/// Outcome of reading a whole command line, program name first.
pub open spec fn parsed_args(raw_args: Seq<Seq<char>>) -> Result<ArgsView, Seq<char>> {
    if raw_args.len() == 0 {
        Ok(default_args())
    } else {
        apply_flags(raw_args.drop_first(), default_args())
    }
}

/// Whether `s` is the short or the long spelling of a flag.
fn is_flag(s: &String, short: &str, long: &str) -> (r: bool)
    ensures
        r == (s@ == short@ || s@ == long@),
{
    let short_name = String::from_str(short);
    let long_name = String::from_str(long);
    *s == short_name || *s == long_name
}

impl CommandLineArguments {
    /// The settings used where the command line gives none.
    pub fn default() -> (r: CommandLineArguments)
        ensures
            r@ == default_args(),
    {
        CommandLineArguments {
            output_file: String::from_str("raymond_out.ppm"),
            width: 1024,
            height: 768,
            oversampling_factor: 2,
        }
    }

    /// Reads the settings from a command line given as its words, program
    /// name first: flag / value pairs, each overriding the default.
    pub fn from_args(raw_args: &Vec<String>) -> (r: Result<CommandLineArguments, String>)
        ensures
            match (r, parsed_args(raw_args@.map_values(|a: String| a@))) {
                (Ok(a), Ok(v)) => a@ == v,
                (Err(e), Err(m)) => e@ == m,
                _ => false,
            },
    {
        let ghost words = raw_args@.map_values(|a: String| a@);
        let mut args = CommandLineArguments::default();
        if raw_args.len() == 0 {
            return Ok(args);
        }
        let n = raw_args.len();
        let mut i: usize = 1;
        while i < n
            invariant
                1 <= i <= n,
                n == raw_args@.len(),
                words == raw_args@.map_values(|a: String| a@),
                apply_flags(words.drop_first(), default_args()) == apply_flags(
                    words.subrange(i as int, n as int),
                    args@,
                ),
            decreases n - i,
        {
            let ghost rest = words.subrange(i as int, n as int);
            assert(i == 1 ==> rest =~= words.drop_first());
            if i + 1 >= n {
                return Err(String::from_str("Value expected after command line argument"));
            }
            let flag = &raw_args[i];
            let arg = &raw_args[i + 1];
            assert(rest[0] == flag@ && rest[1] == arg@);
            assert(rest.subrange(2, rest.len() as int) =~= words.subrange(i + 2, n as int));
            if is_flag(flag, "-o", "--output") {
                args.output_file = arg.clone();
            } else if is_flag(flag, "-w", "--width") {
                match parse_usize(arg.as_str()) {
                    Some(v) => args.width = v,
                    None => return Err(String::from_str("Could not parse width")),
                }
            } else if is_flag(flag, "-h", "--height") {
                match parse_usize(arg.as_str()) {
                    Some(v) => args.height = v,
                    None => return Err(String::from_str("Could not parse height")),
                }
            } else if is_flag(flag, "-s", "--samples") {
                match parse_usize(arg.as_str()) {
                    Some(v) => args.oversampling_factor = v,
                    None => return Err(String::from_str("Could not parse oversampling factor")),
                }
            } else {
                return Err(String::from_str("Unexpected command line argument"));
            }
            i += 2;
        }
        assert(words.subrange(i as int, n as int) =~= Seq::<Seq<char>>::empty());
        Ok(args)
    }
}

} // verus!
