//! Turning a step into the program and arguments that are actually run.
use crate::types::{clone_strings, extend_strings, strings_view, CommandStep, CommandType};
use vstd::prelude::*;
use vstd::string::*;

verus! {

/// The tool through which privileged steps run.
pub const ESCALATION_TOOL: &'static str = "pkexec";

/// The flag that asks an AUR helper to escalate through a given tool.
pub const HELPER_SUDO_FLAG: &'static str = "--sudo";

/// Why a step could not be resolved.
#[derive(Clone, Copy, Debug, PartialEq, Eq, Structural)]
pub enum ResolveError {
    /// The step needs an AUR helper and none is configured or installed.
    HelperNotFound,
}

impl ResolveError {
    /// The message shown for this error.
    pub open spec fn spec_message(self) -> Seq<char> {
        "AUR helper not initialized (paru or yay required)."@
    }

    /// The message shown for this error.
    pub fn message(&self) -> (r: String)
        ensures
            r@ == self.spec_message(),
    {
        String::from_str("AUR helper not initialized (paru or yay required).")
    }
}

/// The helper used for AUR steps: the configured one, else the detected one.
pub open spec fn chosen_helper(preferred: Option<Seq<char>>, detected: Option<Seq<char>>) -> Option<
    Seq<char>,
> {
    match preferred {
        Some(p) => Some(p),
        None => detected,
    }
}

/// The view of an optional string slice.
pub open spec fn opt_str_view(o: Option<&str>) -> Option<Seq<char>> {
    match o {
        Some(s) => Some(s@),
        None => None,
    }
}

/// The invocation of a step of the given kind, program and arguments.
pub open spec fn resolution(
    command_type: CommandType,
    program: Seq<char>,
    args: Seq<Seq<char>>,
    helper: Option<Seq<char>>,
) -> Result<(Seq<char>, Seq<Seq<char>>), ResolveError> {
    match command_type {
        CommandType::Normal => Ok((program, args)),
        CommandType::Privileged => Ok((ESCALATION_TOOL@, seq![program] + args)),
        CommandType::Aur => match helper {
            Some(h) => Ok((h, seq![HELPER_SUDO_FLAG@, ESCALATION_TOOL@] + args)),
            None => Err(ResolveError::HelperNotFound),
        },
    }
}

/// The invocation of a step, given the configured and the detected helper.
pub open spec fn step_resolution(
    step: &CommandStep,
    preferred: Option<Seq<char>>,
    detected: Option<Seq<char>>,
) -> Result<(Seq<char>, Seq<Seq<char>>), ResolveError> {
    resolution(
        step.command_type,
        step.command@,
        strings_view(step.args@),
        chosen_helper(preferred, detected),
    )
}

/// Whether an executable result matches a resolution.
pub open spec fn resolved_as(
    r: Result<(String, Vec<String>), ResolveError>,
    s: Result<(Seq<char>, Seq<Seq<char>>), ResolveError>,
) -> bool {
    match (r, s) {
        (Ok((p, a)), Ok((sp, sa))) => p@ == sp && strings_view(a@) == sa,
        (Err(e), Err(se)) => e == se,
        _ => false,
    }
}

/// Resolves a step into a program and its argument list. Privileged steps run
/// through the escalation tool; AUR steps run through the configured helper,
/// else the detected one, and fail when there is neither.
pub fn resolve_command(command: &CommandStep, preferred: Option<&str>, detected: Option<&str>) -> (r:
    Result<(String, Vec<String>), ResolveError>)
    ensures
        resolved_as(r, step_resolution(command, opt_str_view(preferred), opt_str_view(detected))),
{
    match command.command_type {
        CommandType::Normal => Ok((command.command.clone(), clone_strings(&command.args))),
        CommandType::Privileged => {
            let mut args: Vec<String> = Vec::new();
            args.push(command.command.clone());
            extend_strings(&mut args, &command.args);
            assert(strings_view(args@) =~= seq![command.command@] + strings_view(command.args@));
            Ok((String::from_str(ESCALATION_TOOL), args))
        },
        CommandType::Aur => {
            let helper = match preferred {
                Some(p) => Some(p),
                None => detected,
            };
            match helper {
                None => Err(ResolveError::HelperNotFound),
                Some(h) => {
                    let mut args: Vec<String> = Vec::new();
                    args.push(String::from_str(HELPER_SUDO_FLAG));
                    args.push(String::from_str(ESCALATION_TOOL));
                    extend_strings(&mut args, &command.args);
                    assert(strings_view(args@) =~= seq![HELPER_SUDO_FLAG@, ESCALATION_TOOL@]
                        + strings_view(command.args@));
                    Ok((String::from_str(h), args))
                },
            }
        },
    }
}

} // verus!
