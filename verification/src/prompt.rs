use vstd::prelude::*;

verus! {

/// The first character of `s`, if any.
pub open spec fn first_char(s: Seq<char>) -> Option<char> {
    if s.len() > 0 {
        Some(s[0])
    } else {
        None
    }
}

/// Directory that output images are written to.
pub open spec fn output_dir() -> Seq<char> {
    seq!['o', 'u', 't', 'p', 'u', 't', '/']
}

/// File name used when the command line names none.
pub open spec fn default_output_name() -> Seq<char> {
    seq!['t', 'e', 's', 't', '.', 'j', 'p', 'g']
}

/// The command-line flag that marks a release run.
pub open spec fn release_flag() -> Seq<char> {
    seq!['-', '-', 'r', 'e', 'l', 'e', 'a', 's', 'e']
}

/// Reads the output settings from the command line `args` (program name
/// first): the output directory, the file name (the first argument, or the
/// default), the default file name, the JPEG quality, and whether the second
/// argument is `--release`.
pub fn init_prompt(args: &Vec<String>) -> (r: (String, String, String, u8, bool))
    ensures
        r.0@ == output_dir(),
        r.1@ == if args@.len() < 2 { default_output_name() } else { args@[1]@ },
        r.2@ == default_output_name(),
        r.3 == 60,
        r.4 == (args@.len() > 2 && args@[2]@ == release_flag()),
{
    proof {
        reveal_strlit("output/");
        reveal_strlit("test.jpg");
        reveal_strlit("--release");
    }
    let path: String = "output/".to_owned();
    let default_file_name: String = "test.jpg".to_owned();
    let mut file_name: String = default_file_name.clone();
    let quality: u8 = 60;
    let mut release = false;
    if args.len() >= 2 {
        file_name = args[1].clone();
        if args.len() > 2 && args[2] == "--release".to_owned() {
            release = true;
        }
    }
    assert(path@ =~= output_dir());
    assert(default_file_name@ =~= default_output_name());
    assert("--release"@ =~= release_flag());
    (path, file_name, default_file_name, quality, release)
}

/// How an output file name gets confirmed before the image is written.
pub enum ConfirmationStep {
    /// A release run writes without asking.
    SkipRelease,
    /// The default file name is written without asking.
    SkipDefault,
    /// The user is asked.
    AskUser,
}

/// What the user's reply to the confirmation question decides.
pub enum ReplyOutcome {
    /// `y`: write to the chosen file.
    Confirmed,
    /// `n`: write to the default file instead.
    Reverted,
    /// Anything else, or no reply: write nothing.
    Canceled,
}

/// Decides whether writing to `file_name` needs the user's confirmation.
pub fn confirmation_step(file_name: &String, default_file_name: &String, is_release: bool) -> (r: ConfirmationStep)
    ensures
        r == (if is_release {
            ConfirmationStep::SkipRelease
        } else if file_name@ == default_file_name@ {
            ConfirmationStep::SkipDefault
        } else {
            ConfirmationStep::AskUser
        }),
{
    if is_release {
        ConfirmationStep::SkipRelease
    } else if *file_name == *default_file_name {
        ConfirmationStep::SkipDefault
    } else {
        ConfirmationStep::AskUser
    }
}

/// Applies the user's reply (`None` when it could not be read): a reply
/// starting with `y` confirms, one starting with `n` switches `file_name` to
/// the default, anything else cancels.
pub fn apply_reply(file_name: &mut String, default_file_name: &String, reply: Option<&str>) -> (r: ReplyOutcome)
    ensures
        r == (match reply {
            Some(s) => if first_char(s@) == Some('y') {
                ReplyOutcome::Confirmed
            } else if first_char(s@) == Some('n') {
                ReplyOutcome::Reverted
            } else {
                ReplyOutcome::Canceled
            },
            None => ReplyOutcome::Canceled,
        }),
        final(file_name)@ == if r is Reverted { default_file_name@ } else { old(file_name)@ },
{
    match reply {
        Some(s) => {
            let first = if s.unicode_len() > 0 {
                Some(s.get_char(0))
            } else {
                None
            };
            if first == Some('y') {
                ReplyOutcome::Confirmed
            } else if first == Some('n') {
                *file_name = default_file_name.clone();
                ReplyOutcome::Reverted
            } else {
                ReplyOutcome::Canceled
            }
        },
        None => ReplyOutcome::Canceled,
    }
}

/// Whether the reply outcome lets the image be written.
pub fn outcome_confirms(r: ReplyOutcome) -> (b: bool)
    ensures
        b == !(r is Canceled),
{
    match r {
        ReplyOutcome::Canceled => false,
        _ => true,
    }
}

} // verus!
