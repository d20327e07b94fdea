//! The command that adds an entry under a new name, with a secret that the
//! user types.
use vstd::prelude::*;
use crate::commands::{CommandError, Invocation, Outcome, is_failure, join3, reveal_line};
use crate::entry::{EntryView, PasswordEntry, Timestamp};
use crate::macros::{Line, LineView, Tint, error_line, line_views, ok_line, painted, show_error, show_ok, tint_code};
use crate::secret::Secret;
use crate::store::{PasswordStore, after_add, contains_name};

verus! {

/// What the outside world has answered, together with what the command
/// carries from one step to the next.
pub enum AddInput {
    /// Nothing yet: the command starts.
    Start,
    /// The user was asked for the secret of the entry `name`, `username`:
    /// the text that was typed, or why nothing could be read.
    SecretRead { name: String, username: String, answer: Result<String, String> },
    /// The secret of the entry `name` was handed to the clipboard: the keys
    /// that paste it, or nothing if the clipboard failed.
    Copied { name: String, paste_keys: Option<String> },
}

/// What the command asks of the outside world next.
pub enum AddOutput {
    /// Ask the user for the secret with the text `prompt`, and come back with
    /// `SecretRead` for the same `name` and `username`.
    Prompt { name: String, username: String, prompt: String },
    /// Hand `secret` to the clipboard, and come back with `Copied` for the
    /// same `name`.
    Copy { name: String, secret: Secret },
    /// Show `lines` and end the command.
    Exit { outcome: Outcome, lines: Vec<Line> },
}

/// The help of the command, line by line.
pub open spec fn help_text() -> Seq<Seq<char>> {
    seq![
        "Usage:"@,
        "    rooster add -h"@,
        "    rooster add <app_name> <username>"@,
        ""@,
        "Options:"@,
        "    -s, --show        Show the password instead of copying it to the clipboard"@,
        ""@,
        "Example:"@,
        "    rooster add YouTube me@example.com"@,
    ]
}

/// The texts of `lines`.
pub open spec fn texts(lines: Seq<&'static str>) -> Seq<Seq<char>> {
    Seq::new(lines.len(), |i: int| lines[i]@)
}

/// What is shown when the name or the user name is missing.
pub open spec fn usage_lines() -> Seq<LineView> {
    seq![
        error_line(
            "Woops, seems like the app name or the username is missing here. For help, try:"@,
        ),
        error_line("    rooster add -h"@),
    ]
}

/// What is shown when the name is taken.
pub open spec fn duplicate_lines() -> Seq<LineView> {
    seq![error_line("Woops, there is already an app with that name."@)]
}

/// What is shown when the store refuses the new entry.
pub open spec fn refused_lines() -> Seq<LineView> {
    seq![error_line("Woops, I couldn't add the password (reason: DuplicateName)."@)]
}

/// What is shown when the secret could not be read, for the reason `reason`.
pub open spec fn unread_lines(reason: Seq<char>) -> Seq<LineView> {
    seq![error_line("\nI couldn't read the app's password (reason: "@ + reason + ")."@)]
}

/// The text that asks for the secret of the entry `name`.
pub open spec fn prompt_text(name: Seq<char>) -> Seq<char> {
    "What password do you want for \""@ + name + "\"? "@
}

/// The line that shows the new secret.
pub open spec fn reveal_text(secret: Seq<char>) -> Seq<char> {
    painted(tint_code(Tint::Green), "Alright! Here is your password: "@ + secret)
}

/// What is shown when the secret is on the clipboard and `keys` paste it.
pub open spec fn copied_lines(keys: Seq<char>) -> Seq<LineView> {
    seq![
        ok_line(
            "Alright! I've saved your new password. You can paste it anywhere with "@ + keys + "."@,
        ),
    ]
}

/// What is shown when the entry `name` is saved but the clipboard failed.
pub open spec fn not_copied_lines(name: Seq<char>) -> Seq<LineView> {
    seq![
        ok_line(
            "Hmm, I tried to copy your new password to your clipboard, but something went wrong. Don't worry, it's saved, and you can see it with `rooster get "@
                + name + " --show`"@,
        ),
    ]
}

/// The entry that the command adds.
pub open spec fn new_entry(name: Seq<char>, username: Seq<char>, secret: Seq<char>, now: int) -> EntryView {
    EntryView { name, username, secret, created_at: now, updated_at: now }
}

impl AddOutput {
    /// The command ends with the failure `error` and shows `lines`.
    pub open spec fn fails_with(self, error: CommandError, lines: Seq<LineView>) -> bool {
        self matches AddOutput::Exit { outcome, lines: shown } && is_failure(outcome, shown@, error, lines)
    }

    /// The command asks for the secret of the entry `name`, `username`.
    pub open spec fn prompts(self, name: Seq<char>, username: Seq<char>) -> bool {
        self matches AddOutput::Prompt { name: n, username: u, prompt } && n@ == name && u@ == username
            && prompt@ == prompt_text(name)
    }

    /// The command hands `secret`, of the entry `name`, to the clipboard.
    pub open spec fn copies(self, name: Seq<char>, secret: Seq<char>) -> bool {
        self matches AddOutput::Copy { name: n, secret: s } && n@ == name && s@ == secret
    }

    /// The command ends well and shows `secret`.
    pub open spec fn shows(self, secret: Seq<char>) -> bool {
        self matches AddOutput::Exit { outcome: Outcome::Shown(line), lines } && line@ == reveal_text(secret)
            && lines@.len() == 0
    }

    /// The command ends well, the secret on the clipboard, and shows `lines`.
    pub open spec fn ends_copied(self, lines: Seq<LineView>) -> bool {
        self matches AddOutput::Exit { outcome: Outcome::Copied, lines: shown } && line_views(shown@) == lines
    }

    /// The command ends well, but for the clipboard, and shows `lines`.
    pub open spec fn ends_not_copied(self, lines: Seq<LineView>) -> bool {
        self matches AddOutput::Exit { outcome: Outcome::SavedNotCopied, lines: shown } && line_views(shown@)
            == lines
    }
}

/// The help of the command, line by line.
pub fn callback_help() -> (lines: Vec<&'static str>)
    ensures
        texts(lines@) == help_text(),
{
    let mut lines: Vec<&'static str> = Vec::new();
    lines.push("Usage:");
    lines.push("    rooster add -h");
    lines.push("    rooster add <app_name> <username>");
    lines.push("");
    lines.push("Options:");
    lines.push("    -s, --show        Show the password instead of copying it to the clipboard");
    lines.push("");
    lines.push("Example:");
    lines.push("    rooster add YouTube me@example.com");
    assert(texts(lines@) =~= help_text());
    lines
}

/// Whether the command line names an application and a user: if not, the
/// exit status of the command.
pub fn check_args(matches: &Invocation) -> (r: Result<(), i32>)
    ensures
        r == if matches.free@.len() < 3 {
            Err::<(), i32>(1i32)
        } else {
            Ok::<(), i32>(())
        },
{
    if matches.free.len() < 3 {
        Err(1i32)
    } else {
        Ok(())
    }
}

/// What is shown when the name or the user name is missing.
pub fn usage() -> (lines: Vec<Line>)
    ensures
        line_views(lines@) == usage_lines(),
{
    let mut lines: Vec<Line> = Vec::new();
    lines.push(
        show_error("Woops, seems like the app name or the username is missing here. For help, try:"),
    );
    lines.push(show_error("    rooster add -h"));
    assert(line_views(lines@) =~= usage_lines());
    lines
}

/// The end of the command with the failure `error`, reported by `lines`.
fn fail(error: CommandError, lines: Vec<Line>) -> (out: AddOutput)
    ensures
        out.fails_with(error, line_views(lines@)),
{
    AddOutput::Exit { outcome: Outcome::Failed(error), lines }
}

/// One line, as a list of lines.
fn single(line: Line) -> (lines: Vec<Line>)
    ensures
        line_views(lines@) == seq![line@],
{
    let mut lines: Vec<Line> = Vec::new();
    lines.push(line);
    assert(line_views(lines@) =~= seq![line@]);
    lines
}

/// One step of the command.
///
/// At the start the command checks the arguments and that the name is free,
/// and asks for the secret. With the secret it adds the entry, created at
/// `now`: this is the one point at which the store changes. Then it shows
/// the secret or hands it to the clipboard. A clipboard that fails leaves
/// the entry saved.
pub fn callback_exec(matches: &Invocation, store: &mut PasswordStore, input: AddInput, now: Timestamp) -> (out:
    AddOutput)
    ensures
        match input {
            AddInput::Start => final(store)@ == old(store)@ && (if matches.free@.len() < 3 {
                out.fails_with(CommandError::UsageError, usage_lines())
            } else if contains_name(old(store)@, matches.free@[1]@) {
                out.fails_with(CommandError::DuplicateName, duplicate_lines())
            } else {
                out.prompts(matches.free@[1]@, matches.free@[2]@)
            }),
            AddInput::SecretRead { name, username, answer } => match answer {
                Err(reason) => final(store)@ == old(store)@ && out.fails_with(
                    CommandError::PromptFailed,
                    unread_lines(reason@),
                ),
                Ok(text) => final(store)@ == after_add(
                    old(store)@,
                    new_entry(name@, username@, text@, now as int),
                ) && (if contains_name(old(store)@, name@) {
                    out.fails_with(CommandError::DuplicateName, refused_lines())
                } else if matches.show {
                    out.shows(text@)
                } else {
                    out.copies(name@, text@)
                }),
            },
            AddInput::Copied { name, paste_keys } => final(store)@ == old(store)@ && (match paste_keys {
                Some(keys) => out.ends_copied(copied_lines(keys@)),
                None => out.ends_not_copied(not_copied_lines(name@)),
            }),
        },
{
    match input {
        AddInput::Start => {
            if check_args(matches).is_err() {
                return fail(CommandError::UsageError, usage());
            }
            let name = matches.free[1].clone();
            let username = matches.free[2].clone();
            if store.has(name.as_str()) {
                return fail(
                    CommandError::DuplicateName,
                    single(show_error("Woops, there is already an app with that name.")),
                );
            }
            let prompt = join3("What password do you want for \"", name.as_str(), "\"? ");
            AddOutput::Prompt { name, username, prompt }
        },
        AddInput::SecretRead { name, username, answer } => {
            let text = match answer {
                Ok(text) => text,
                Err(reason) => {
                    let message = join3("\nI couldn't read the app's password (reason: ", reason.as_str(), ").");
                    return fail(CommandError::PromptFailed, single(show_error(message.as_str())));
                },
            };
            let secret = Secret::new(text);
            let kept = secret.clone();
            let entry = PasswordEntry::new(name.clone(), username, secret, now);
            match store.add(entry) {
                Ok(()) => {
                    if matches.show {
                        let line = reveal_line("Alright! Here is your password: ", &kept);
                        AddOutput::Exit { outcome: Outcome::Shown(line), lines: Vec::new() }
                    } else {
                        AddOutput::Copy { name, secret: kept }
                    }
                },
                Err(_) => fail(
                    CommandError::DuplicateName,
                    single(show_error("Woops, I couldn't add the password (reason: DuplicateName).")),
                ),
            }
        },
        AddInput::Copied { name, paste_keys } => {
            match paste_keys {
                Some(keys) => {
                    let message = join3(
                        "Alright! I've saved your new password. You can paste it anywhere with ",
                        keys.as_str(),
                        ".",
                    );
                    AddOutput::Exit { outcome: Outcome::Copied, lines: single(show_ok(message.as_str())) }
                },
                None => {
                    let message = join3(
                        "Hmm, I tried to copy your new password to your clipboard, but something went wrong. Don't worry, it's saved, and you can see it with `rooster get ",
                        name.as_str(),
                        " --show`",
                    );
                    AddOutput::Exit {
                        outcome: Outcome::SavedNotCopied,
                        lines: single(show_ok(message.as_str())),
                    }
                },
            }
        },
    }
}

} // verus!
