//! The commands: what each of them decides, step by step. A command never
//! reads or writes anything itself. Each step takes what the outside world
//! has answered and returns what is to be asked of it next, or the end of
//! the command with the lines to show.
use vstd::prelude::*;
use crate::generate::GenerationError;
use crate::macros::{Line, LineView, Tint, line_views, paint_tint, painted, tint_code};
use crate::secret::Secret;

pub mod add;
pub mod regenerate;

verus! {

/// The command line of one command, already taken apart.
pub struct Invocation {
    /// The arguments that are no options: the command's name first.
    pub free: Vec<String>,
    /// Show the secret instead of copying it to the clipboard.
    pub show: bool,
    /// Generate from letters and digits only.
    pub alnum: bool,
    /// The length asked for a generated secret, as it was typed.
    pub length: Option<String>,
}

/// Why a command failed.
#[derive(Clone, Copy, Debug, PartialEq, Eq, Structural)]
pub enum CommandError {
    /// Arguments are missing.
    UsageError,
    /// The store has an entry of that name already.
    DuplicateName,
    /// The store has no entry of that name.
    NotFound,
    /// No entry matches the query.
    NoMatch,
    /// The user chose none of the entries that match.
    AmbiguousSelectionCanceled,
    /// The secret could not be read from the terminal.
    PromptFailed,
    /// No secret could be generated.
    Generation(GenerationError),
}

/// How a command ended.
pub enum Outcome {
    /// The store was changed, and the secret is to be shown: this is the line
    /// for the standard output, which holds the secret.
    Shown(Secret),
    /// The store was changed, and the secret is on the clipboard.
    Copied,
    /// The store was changed, but the secret could not be copied to the
    /// clipboard.
    SavedNotCopied,
    /// The command failed, and the store is as it was.
    Failed(CommandError),
}

impl Outcome {
    /// The exit status of a command that ended like this.
    pub open spec fn spec_status(&self) -> Result<(), i32> {
        match self {
            Outcome::Failed(_) => Err(1i32),
            _ => Ok(()),
        }
    }

    /// The exit status of a command that ended like this: failure is 1.
    pub fn status(&self) -> (r: Result<(), i32>)
        ensures
            r == self.spec_status(),
    {
        match self {
            Outcome::Failed(_) => Err(1i32),
            _ => Ok(()),
        }
    }
}

/// The three texts in a row.
pub(crate) fn join3(a: &str, b: &str, c: &str) -> (r: String)
    ensures
        r@ == a@ + b@ + c@,
{
    let mut r = String::from_str(a);
    r.append(b);
    r.append(c);
    r
}

/// The line that shows a secret after `label`, in green. It is a secret
/// itself.
pub(crate) fn reveal_line(label: &str, secret: &Secret) -> (r: Secret)
    ensures
        r@ == painted(tint_code(Tint::Green), label@ + secret@),
{
    let mut plain = Secret::new(String::from_str(label));
    plain.push_str(secret.expose());
    Secret::new(paint_tint(Tint::Green, plain.expose()))
}

/// `outcome` is the failure `error`, reported by the lines `lines`.
pub open spec fn is_failure(outcome: Outcome, shown: Seq<Line>, error: CommandError, lines: Seq<LineView>) -> bool {
    outcome == Outcome::Failed(error) && line_views(shown) == lines
}

} // verus!
