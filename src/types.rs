//! Steps, their kinds, and the outcome of one step.
use vstd::prelude::*;

verus! {

/// How a step's program is to be invoked.
#[derive(Clone, Copy, Debug, PartialEq, Eq, Structural)]
pub enum CommandType {
    /// Run the program as given.
    Normal,
    /// Run the program through the privilege-escalation tool.
    Privileged,
    /// Run through an AUR helper (paru or yay).
    Aur,
}

/// Status of one step as shown to the user.
#[derive(Clone, Copy, Debug, PartialEq, Eq, Structural)]
pub enum TaskStatus {
    /// Not started yet.
    Pending,
    /// Currently running.
    Running,
    /// Finished successfully.
    Success,
    /// Finished with an error.
    Failed,
}

/// One unit of work: a program, its arguments, how to invoke it, and a label.
#[derive(Debug)]
pub struct CommandStep {
    pub command_type: CommandType,
    pub command: String,
    pub args: Vec<String>,
    pub friendly_name: String,
}

/// Outcome of one process run.
#[derive(Clone, Copy, Debug, PartialEq, Eq, Structural)]
pub enum CommandResult {
    /// The process exited successfully.
    Success,
    /// The process failed, with its exit code when one is known.
    Failure { exit_code: Option<i32> },
}

/// The character sequences of a list of strings.
pub open spec fn strings_view(v: Seq<String>) -> Seq<Seq<char>> {
    v.map_values(|s: String| s@)
}

/// The character sequences of a list of string slices.
pub open spec fn strs_view(v: Seq<&str>) -> Seq<Seq<char>> {
    v.map_values(|s: &str| s@)
}

/// Copies a list of string slices into owned strings.
pub fn to_owned_strings(items: &[&str]) -> (r: Vec<String>)
    ensures
        strings_view(r@) == strs_view(items@),
{
    broadcast use vstd::string::to_string_from_display_ensures_for_str;

    let mut r: Vec<String> = Vec::new();
    let mut i: usize = 0;
    while i < items.len()
        invariant
            i <= items@.len(),
            strings_view(r@) == strs_view(items@.subrange(0, i as int)),
        decreases items@.len() - i,
    {
        let s = items[i].to_string();
        r.push(s);
        assert(strs_view(items@.subrange(0, i + 1)) =~= strs_view(items@.subrange(0, i as int)).push(
            items@[i as int]@,
        ));
        assert(strings_view(r@) =~= strings_view(r@.drop_last()).push(s@));
        i = i + 1;
    }
    assert(items@.subrange(0, i as int) =~= items@);
    r
}

/// Appends copies of a list of strings to another list.
pub fn extend_strings(dst: &mut Vec<String>, items: &Vec<String>)
    ensures
        strings_view(final(dst)@) == strings_view(old(dst)@) + strings_view(items@),
{
    let ghost start = dst@;
    let mut i: usize = 0;
    while i < items.len()
        invariant
            i <= items@.len(),
            strings_view(dst@) == strings_view(start) + strings_view(items@.subrange(0, i as int)),
        decreases items@.len() - i,
    {
        let s = items[i].clone();
        dst.push(s);
        assert(strings_view(items@.subrange(0, i + 1)) =~= strings_view(
            items@.subrange(0, i as int),
        ).push(items@[i as int]@));
        assert(strings_view(dst@) =~= strings_view(dst@.drop_last()).push(s@));
        assert(strings_view(start) + strings_view(items@.subrange(0, i + 1)) =~= (strings_view(
            start,
        ) + strings_view(items@.subrange(0, i as int))).push(s@));
        i = i + 1;
    }
    assert(items@.subrange(0, i as int) =~= items@);
}

/// Copies a list of strings.
pub fn clone_strings(items: &Vec<String>) -> (r: Vec<String>)
    ensures
        strings_view(r@) == strings_view(items@),
{
    let mut r: Vec<String> = Vec::new();
    extend_strings(&mut r, items);
    assert(strings_view(Seq::<String>::empty()) =~= Seq::<Seq<char>>::empty());
    assert(strings_view(r@) =~= strings_view(items@));
    r
}

impl CommandStep {
    /// The label shown for this step, as characters.
    pub open spec fn spec_label(&self) -> Seq<char> {
        self.friendly_name@
    }

    /// Creates a step with an explicit kind.
    pub fn new(command_type: CommandType, command: &str, args: &[&str], friendly_name: &str) -> (r:
        Self)
        ensures
            r.command_type == command_type,
            r.command@ == command@,
            strings_view(r.args@) == strs_view(args@),
            r.friendly_name@ == friendly_name@,
    {
        broadcast use vstd::string::to_string_from_display_ensures_for_str;

        CommandStep {
            command_type,
            command: command.to_string(),
            args: to_owned_strings(args),
            friendly_name: friendly_name.to_string(),
        }
    }

    /// A step that runs its program as given.
    pub fn normal(command: &str, args: &[&str], friendly_name: &str) -> (r: Self)
        ensures
            r.command_type == CommandType::Normal,
            r.command@ == command@,
            strings_view(r.args@) == strs_view(args@),
            r.friendly_name@ == friendly_name@,
    {
        Self::new(CommandType::Normal, command, args, friendly_name)
    }

    /// A step that runs its program through privilege escalation.
    pub fn privileged(command: &str, args: &[&str], friendly_name: &str) -> (r: Self)
        ensures
            r.command_type == CommandType::Privileged,
            r.command@ == command@,
            strings_view(r.args@) == strs_view(args@),
            r.friendly_name@ == friendly_name@,
    {
        Self::new(CommandType::Privileged, command, args, friendly_name)
    }

    /// A step that runs an AUR helper with the given arguments.
    pub fn aur(args: &[&str], friendly_name: &str) -> (r: Self)
        ensures
            r.command_type == CommandType::Aur,
            r.command@ == "aur"@,
            strings_view(r.args@) == strs_view(args@),
            r.friendly_name@ == friendly_name@,
    {
        Self::new(CommandType::Aur, "aur", args, friendly_name)
    }
}

impl CommandResult {
    /// Whether the result is a success.
    pub fn is_success(&self) -> (r: bool)
        ensures
            r == (*self is Success),
    {
        match self {
            CommandResult::Success => true,
            CommandResult::Failure { .. } => false,
        }
    }

    /// Whether the result is a failure.
    pub fn is_failure(&self) -> (r: bool)
        ensures
            r == (*self is Failure),
    {
        !self.is_success()
    }

    /// The exit code of a failure, when one is known.
    pub fn exit_code(&self) -> (r: Option<i32>)
        ensures
            r == match *self {
                CommandResult::Failure { exit_code } => exit_code,
                CommandResult::Success => None,
            },
    {
        match self {
            CommandResult::Failure { exit_code } => *exit_code,
            _ => None,
        }
    }
}

} // verus!
