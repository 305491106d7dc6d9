//! Why an iteration failed.

use vstd::prelude::*;

verus! {

/// Why an iteration failed, over texts of type `T`. A `cause` is what the system or another crate
/// says about it.
pub enum FailureOf<T> {
    /// A cached file could not be read.
    ReadCache { path: T, cause: T },
    /// The body of a response could not be read.
    ReadBody { cause: T },
    /// There is neither a cached, nor a remote, nor a bundled file of that name.
    NoSource { name: T },
    /// `patterns.json` is not a list of pattern entries.
    ParsePatterns { cause: T },
    /// A pattern is not a regular expression.
    InvalidRegex { regex: T, cause: T },
    /// The plan phase left no `todo.md` behind.
    PlanNotCreated { path: T },
    /// `todo.md` could not be read.
    ReadTodo { path: T, cause: T },
    /// The assistant could not be started.
    Spawn { program: T, cause: T },
    /// The assistant was started without an input.
    OpenStdin,
    /// The prompt could not be handed to the assistant.
    WritePrompt { cause: T },
    /// The end of the assistant could not be waited for.
    Wait { cause: T },
    /// The assistant ended with another code than zero.
    ExitCode { code: i32 },
    /// The assistant was ended by a signal.
    Signal,
    /// The assistant failed on a task.
    Task { description: T, cause: T },
    /// The line of a task that is to be checked off is not there any more.
    LineOutOfRange,
    /// `todo.md` could not be read or written when a task was checked off.
    CheckOff { cause: T },
}

/// Why an iteration failed.
pub type Failure = FailureOf<String>;

/// What a failure holds.
pub type FailureModel = FailureOf<Seq<char>>;

impl View for FailureOf<String> {
    type V = FailureModel;

    open spec fn view(&self) -> FailureModel {
        match *self {
            FailureOf::ReadCache { path, cause } => FailureOf::ReadCache {
                path: path@,
                cause: cause@,
            },
            FailureOf::ReadBody { cause } => FailureOf::ReadBody { cause: cause@ },
            FailureOf::NoSource { name } => FailureOf::NoSource { name: name@ },
            FailureOf::ParsePatterns { cause } => FailureOf::ParsePatterns { cause: cause@ },
            FailureOf::InvalidRegex { regex, cause } => FailureOf::InvalidRegex {
                regex: regex@,
                cause: cause@,
            },
            FailureOf::PlanNotCreated { path } => FailureOf::PlanNotCreated { path: path@ },
            FailureOf::ReadTodo { path, cause } => FailureOf::ReadTodo {
                path: path@,
                cause: cause@,
            },
            FailureOf::Spawn { program, cause } => FailureOf::Spawn {
                program: program@,
                cause: cause@,
            },
            FailureOf::OpenStdin => FailureOf::OpenStdin,
            FailureOf::WritePrompt { cause } => FailureOf::WritePrompt { cause: cause@ },
            FailureOf::Wait { cause } => FailureOf::Wait { cause: cause@ },
            FailureOf::ExitCode { code } => FailureOf::ExitCode { code },
            FailureOf::Signal => FailureOf::Signal,
            FailureOf::Task { description, cause } => FailureOf::Task {
                description: description@,
                cause: cause@,
            },
            FailureOf::LineOutOfRange => FailureOf::LineOutOfRange,
            FailureOf::CheckOff { cause } => FailureOf::CheckOff { cause: cause@ },
        }
    }
}

/// The digit `d`.
pub open spec fn digit(d: int) -> char {
    (0x30 + d) as char
}

/// `n` in decimal digits.
pub open spec fn digits(n: nat) -> Seq<char>
    decreases n,
{
    if n < 10 {
        seq![digit(n as int)]
    } else {
        digits(n / 10).push(digit((n % 10) as int))
    }
}

/// `n` in decimal digits, with a sign where it is negative.
pub open spec fn decimal(n: int) -> Seq<char> {
    if n < 0 {
        "-"@ + digits((-n) as nat)
    } else {
        digits(n as nat)
    }
}

/// How a failure is reported, where `assistant` is what the assistant is called.
pub open spec fn report(f: FailureModel, assistant: Seq<char>) -> Seq<char> {
    match f {
        FailureOf::ReadCache { path, cause } => "Reading cached file "@ + path + ": "@ + cause,
        FailureOf::ReadBody { cause } => "Reading HTTP response body: "@ + cause,
        FailureOf::NoSource { name } => "No source for '"@ + name
            + "': not cached, --prompts not set or fetch failed, and no compiled-in fallback exists"@,
        FailureOf::ParsePatterns { cause } => "Parsing patterns.json: "@ + cause,
        FailureOf::InvalidRegex { regex, cause } => "Invalid regex '"@ + regex
            + "' in patterns.json: "@ + cause,
        FailureOf::PlanNotCreated { path } => "Plan phase finished but "@ + path
            + " was not created.\nCheck the plan prompt and ensure "@ + assistant
            + " has write permissions."@,
        FailureOf::ReadTodo { path, cause } => "Reading "@ + path + ": "@ + cause,
        FailureOf::Spawn { program, cause } => "Failed to spawn '"@ + program + "': "@ + cause,
        FailureOf::OpenStdin => "Failed to open "@ + assistant + " stdin"@,
        FailureOf::WritePrompt { cause } => "Writing prompt to "@ + assistant + " stdin: "@
            + cause,
        FailureOf::Wait { cause } => "Waiting for "@ + assistant + " to finish: "@ + cause,
        FailureOf::ExitCode { code } => assistant + " exited with code "@ + decimal(code as int),
        FailureOf::Signal => assistant + " exited due to signal"@,
        FailureOf::Task { description, cause } => assistant + " failed on: "@ + description
            + ": "@ + cause,
        FailureOf::LineOutOfRange => "line_index out of range when marking task done"@,
        FailureOf::CheckOff { cause } => cause,
    }
}

/// Puts the digits of `n` at the end of `s`.
fn push_digits(s: &mut String, n: u32)
    ensures
        final(s)@ == old(s)@ + digits(n as nat),
    decreases n,
{
    let ghost before = s@;
    if n >= 10 {
        push_digits(s, n / 10);
    }
    let d: u8 = (n % 10) as u8;
    s.push((0x30u8 + d) as char);
    assert(s@ == before + digits(n as nat));
}

/// The parts, one after the other.
fn concat(parts: &[&str]) -> (s: String)
    ensures
        s@ == concatenated(parts@, parts@.len()),
{
    let mut s = String::new();
    let mut i: usize = 0;
    while i < parts.len()
        invariant
            i <= parts@.len(),
            s@ == concatenated(parts@, i as nat),
        decreases parts@.len() - i,
    {
        s.append(parts[i]);
        i += 1;
    }
    s
}

/// The first `n` parts, one after the other.
spec fn concatenated(parts: Seq<&str>, n: nat) -> Seq<char>
    decreases n,
{
    if n == 0 {
        seq![]
    } else {
        concatenated(parts, (n - 1) as nat) + parts[n - 1]@
    }
}

impl FailureOf<String> {
    /// How the failure is reported, where `assistant` is what the assistant is called.
    pub fn message(&self, assistant: &str) -> (s: String)
        ensures
            s@ == report(self@, assistant@),
    {
        proof {
            reveal_with_fuel(concatenated, 6);
        }
        match self {
            FailureOf::ReadCache { path, cause } => concat(
                &["Reading cached file ", path, ": ", cause],
            ),
            FailureOf::ReadBody { cause } => concat(&["Reading HTTP response body: ", cause]),
            FailureOf::NoSource { name } => concat(
                &[
                    "No source for '",
                    name,
                    "': not cached, --prompts not set or fetch failed, and no compiled-in fallback exists",
                ],
            ),
            FailureOf::ParsePatterns { cause } => concat(&["Parsing patterns.json: ", cause]),
            FailureOf::InvalidRegex { regex, cause } => concat(
                &["Invalid regex '", regex, "' in patterns.json: ", cause],
            ),
            FailureOf::PlanNotCreated { path } => concat(
                &[
                    "Plan phase finished but ",
                    path,
                    " was not created.\nCheck the plan prompt and ensure ",
                    assistant,
                    " has write permissions.",
                ],
            ),
            FailureOf::ReadTodo { path, cause } => concat(&["Reading ", path, ": ", cause]),
            FailureOf::Spawn { program, cause } => concat(
                &["Failed to spawn '", program, "': ", cause],
            ),
            FailureOf::OpenStdin => concat(&["Failed to open ", assistant, " stdin"]),
            FailureOf::WritePrompt { cause } => concat(
                &["Writing prompt to ", assistant, " stdin: ", cause],
            ),
            FailureOf::Wait { cause } => concat(
                &["Waiting for ", assistant, " to finish: ", cause],
            ),
            FailureOf::ExitCode { code } => {
                let mut s = concat(&[assistant, " exited with code "]);
                let wide: i64 = *code as i64;
                if wide < 0 {
                    s.append("-");
                    push_digits(&mut s, (-wide) as u32);
                } else {
                    push_digits(&mut s, wide as u32);
                }
                assert(s@ == assistant@ + " exited with code "@ + decimal(*code as int));
                s
            },
            FailureOf::Signal => concat(&[assistant, " exited due to signal"]),
            FailureOf::Task { description, cause } => concat(
                &[assistant, " failed on: ", description, ": ", cause],
            ),
            FailureOf::LineOutOfRange => concat(
                &["line_index out of range when marking task done"],
            ),
            FailureOf::CheckOff { cause } => cause.clone(),
        }
    }
}

/// The number that decimal digits stand for.
pub open spec fn number(s: Seq<char>) -> int
    decreases s.len(),
{
    if s.len() == 0 {
        0
    } else {
        10 * number(s.drop_last()) + (s.last() as int - '0' as int)
    }
}

/// The digits of a number stand for it, each is one of `0` to `9`, and the first is a zero only
/// where it is the only one.
proof fn digits_are_read_back(n: nat)
    ensures
        number(digits(n)) == n,
        digits(n).len() > 0,
        forall|i: int| 0 <= i < digits(n).len() ==> '0' <= #[trigger] digits(n)[i] <= '9',
        digits(n)[0] == '0' ==> n == 0,
    decreases n,
{
    if n < 10 {
        let s = digits(n);
        assert(s.drop_last() =~= Seq::<char>::empty());
        assert(number(s.drop_last()) == 0);
        assert(s.last() as int == 0x30 + n);
    } else {
        digits_are_read_back(n / 10);
        let s = digits(n);
        assert(s.drop_last() =~= digits(n / 10));
        assert(s.last() as int == 0x30 + n % 10);
        assert forall|i: int| 0 <= i < s.len() implies '0' <= #[trigger] s[i] <= '9' by {
            if i < s.len() - 1 {
                assert(s[i] == digits(n / 10)[i]);
            }
        }
        assert(s[0] == digits(n / 10)[0]);
    }
}

/// A code in a message can be read back: its digits stand for it, with a sign in front where it
/// is negative, and without a zero in front.
pub proof fn law_code_is_read_back(n: int)
    ensures
        n >= 0 ==> number(decimal(n)) == n,
        n < 0 ==> decimal(n)[0] == '-' && number(decimal(n).skip(1)) == -n,
        n > 0 ==> decimal(n)[0] != '0',
        n < 0 ==> decimal(n)[1] != '0',
        forall|i: int|
            (if n < 0 {
                1int
            } else {
                0int
            }) <= i < decimal(n).len() ==> '0' <= #[trigger] decimal(n)[i] <= '9',
{
    reveal_strlit("-");
    if n < 0 {
        digits_are_read_back((-n) as nat);
        let s = decimal(n);
        assert(s.skip(1) =~= digits((-n) as nat));
        assert forall|i: int| 1 <= i < s.len() implies '0' <= #[trigger] s[i] <= '9' by {
            assert(s[i] == digits((-n) as nat)[i - 1]);
        }
        assert(s[1] == digits((-n) as nat)[0]);
    } else {
        digits_are_read_back(n as nat);
    }
}

/// What is reported says what could not be done, names it, and ends with the cause where there
/// is one.
pub proof fn law_what_failed_is_named(
    what: Seq<char>,
    cause: Seq<char>,
    assistant: Seq<char>,
)
    ensures
        report(FailureOf::ReadCache { path: what, cause }, assistant) == "Reading cached file "@
            + what + ": "@ + cause,
        report(FailureOf::ReadBody { cause }, assistant) == "Reading HTTP response body: "@ + cause,
        report(FailureOf::NoSource { name: what }, assistant) == "No source for '"@ + what
            + "': not cached, --prompts not set or fetch failed, and no compiled-in fallback exists"@,
        report(FailureOf::ParsePatterns { cause }, assistant) == "Parsing patterns.json: "@ + cause,
        report(FailureOf::InvalidRegex { regex: what, cause }, assistant) == "Invalid regex '"@
            + what + "' in patterns.json: "@ + cause,
        report(FailureOf::PlanNotCreated { path: what }, assistant) == "Plan phase finished but "@
            + what + " was not created.\nCheck the plan prompt and ensure "@ + assistant
            + " has write permissions."@,
        report(FailureOf::ReadTodo { path: what, cause }, assistant) == "Reading "@ + what + ": "@
            + cause,
        report(FailureOf::Task { description: what, cause }, assistant) == assistant
            + " failed on: "@ + what + ": "@ + cause,
        report(FailureOf::LineOutOfRange, assistant)
            == "line_index out of range when marking task done"@,
        report(FailureOf::CheckOff { cause }, assistant) == cause,
{
}

/// A failure is taken as it is: nothing of what it names is lost or changed.
pub proof fn law_nothing_is_lost_of_a_failure(what: String, cause: String, code: i32)
    ensures
        (FailureOf::ReadCache { path: what, cause })@ == (FailureOf::ReadCache {
            path: what@,
            cause: cause@,
        }),
        (FailureOf::ReadBody { cause })@ == (FailureOf::ReadBody { cause: cause@ }),
        (FailureOf::NoSource { name: what })@ == (FailureOf::NoSource { name: what@ }),
        (FailureOf::ParsePatterns { cause })@ == (FailureOf::ParsePatterns { cause: cause@ }),
        (FailureOf::InvalidRegex { regex: what, cause })@ == (FailureOf::InvalidRegex {
            regex: what@,
            cause: cause@,
        }),
        (FailureOf::PlanNotCreated { path: what })@ == (FailureOf::PlanNotCreated { path: what@ }),
        (FailureOf::ReadTodo { path: what, cause })@ == (FailureOf::ReadTodo {
            path: what@,
            cause: cause@,
        }),
        (FailureOf::Spawn { program: what, cause })@ == (FailureOf::Spawn {
            program: what@,
            cause: cause@,
        }),
        (FailureOf::WritePrompt { cause })@ == (FailureOf::WritePrompt { cause: cause@ }),
        (FailureOf::Wait { cause })@ == (FailureOf::Wait { cause: cause@ }),
        (FailureOf::<String>::ExitCode { code })@ == (FailureOf::<Seq<char>>::ExitCode { code }),
        (FailureOf::Task { description: what, cause })@ == (FailureOf::Task {
            description: what@,
            cause: cause@,
        }),
        (FailureOf::CheckOff { cause })@ == (FailureOf::CheckOff { cause: cause@ }),
{
}

} // verus!
