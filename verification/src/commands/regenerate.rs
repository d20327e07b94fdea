//! The command that gives an entry a new, generated secret. The entry is
//! found by a fuzzy search for its name.
use vstd::prelude::*;
use crate::commands::{CommandError, Invocation, Outcome, is_failure, join3, reveal_line};
use crate::entry::{EntryView, PasswordEntry, Timestamp};
use crate::generate::{GenerationError, GenerationSpec, GenerationSpecView, normalized_length, parsed_length};
use crate::macros::{
    Line,
    LineView,
    Tint,
    error_line,
    line_views,
    ok_line,
    painted,
    show_error,
    show_ok,
    show_title_1,
    tint_code,
    title_line,
};
use crate::secret::Secret;
use crate::store::{
    PasswordStore,
    contains_name,
    index_of,
    is_find_result,
    picked,
    ranking,
    views,
};

verus! {

/// What the outside world has answered, together with what the command
/// carries from one step to the next.
pub enum RegenerateInput {
    /// Nothing yet: the command starts.
    Start,
    /// The user was shown the entries named `candidates`: the place of the
    /// one that was chosen, or nothing if none was.
    Chosen { candidates: Vec<String>, choice: Option<usize> },
    /// A secret was asked for the entry `name`: the secret, or why there is
    /// none.
    Generated { name: String, generated: Result<Secret, GenerationError> },
    /// The secret of the entry `name` was handed to the clipboard: the keys
    /// that paste it, or nothing if the clipboard failed.
    Copied { name: String, paste_keys: Option<String> },
}

/// What the command asks of the outside world next.
pub enum RegenerateOutput {
    /// Show `title` and the entries named `candidates`, best match first,
    /// let the user choose one, and come back with `Chosen` for the same
    /// `candidates`.
    Choose { title: Line, candidates: Vec<String> },
    /// Generate a secret under the policy `spec`, and come back with
    /// `Generated` for the same `name`.
    Generate { name: String, spec: GenerationSpec },
    /// Hand `secret` to the clipboard, and come back with `Copied` for the
    /// same `name`.
    Copy { name: String, secret: Secret },
    /// Show `lines` and end the command.
    Exit { outcome: Outcome, lines: Vec<Line> },
}

/// The help of the command, line by line.
pub open spec fn help_text() -> Seq<Seq<char>> {
    seq![
        "Usage:"@,
        "    rooster regenerate -h"@,
        "    rooster regenerate <query>"@,
        ""@,
        "Options:"@,
        "    -a, --alnum       Only use alpha numeric (a-z, A-Z, 0-9) in generated passwords"@,
        "    -l, --length      Set a custom length for the generated password, default is 32"@,
        "    -s, --show        Show the password instead of copying it to the clipboard"@,
        ""@,
        "Examples:"@,
        "    rooster regenerate youtube"@,
        "    rooster regenerate ytb     # fuzzy-searching works too"@,
    ]
}

/// The texts of `lines`.
pub open spec fn texts(lines: Seq<&'static str>) -> Seq<Seq<char>> {
    Seq::new(lines.len(), |i: int| lines[i]@)
}

/// The texts of `names`.
pub open spec fn name_views(names: Seq<String>) -> Seq<Seq<char>> {
    Seq::new(names.len(), |i: int| names[i]@)
}

/// The names of `entries`.
pub open spec fn names_of(entries: Seq<EntryView>) -> Seq<Seq<char>> {
    Seq::new(entries.len(), |i: int| entries[i].name)
}

/// What is shown when the query is missing.
pub open spec fn usage_lines() -> Seq<LineView> {
    seq![
        error_line("Woops, seems like the app name is missing here. For help, try:"@),
        error_line("    rooster regenerate -h"@),
    ]
}

/// What is shown when no entry matches `query`.
pub open spec fn no_match_lines(query: Seq<char>) -> Seq<LineView> {
    seq![error_line("Woops, I can't find any app that matches \""@ + query + "\"."@)]
}

/// The title above the entries to choose from.
pub open spec fn choice_title() -> LineView {
    title_line("Which password would you like to regenerate?"@)
}

/// What is shown when the user chose no entry.
pub open spec fn canceled_lines() -> Seq<LineView> {
    seq![error_line("Woops, no password was chosen, so nothing was changed."@)]
}

/// The name of an error of generation.
pub open spec fn reason_text(error: GenerationError) -> Seq<char> {
    match error {
        GenerationError::EntropyUnavailable => "EntropyUnavailable"@,
        GenerationError::EntropyExhausted => "EntropyExhausted"@,
    }
}

/// What is shown when no secret could be generated.
pub open spec fn not_generated_lines(error: GenerationError) -> Seq<LineView> {
    seq![
        error_line("Woops, I could not generate the password (reason: "@ + reason_text(error) + ")."@),
    ]
}

/// What is shown when the entry is no longer there.
pub open spec fn not_saved_lines() -> Seq<LineView> {
    seq![error_line("Woops, I couldn't save the new password (reason: NotFound)."@)]
}

/// The line that shows the new secret of the entry `name`.
pub open spec fn reveal_text(name: Seq<char>, secret: Seq<char>) -> Seq<char> {
    painted(tint_code(Tint::Green), "Alright! Here is your password for "@ + name + ": "@ + secret)
}

/// What is shown when the secret of the entry `name` is on the clipboard and
/// `keys` paste it.
pub open spec fn copied_lines(name: Seq<char>, keys: Seq<char>) -> Seq<LineView> {
    seq![
        ok_line("Alright! You can paste your "@ + name + " password anywhere with "@ + keys + "."@),
    ]
}

/// What is shown when the entry `name` is saved but the clipboard failed.
pub open spec fn not_copied_lines(name: Seq<char>) -> Seq<LineView> {
    seq![
        ok_line(
            "Hmm, I tried to copy your new password to your clipboard, but something went wrong. You can see it with `rooster get '"@
                + name + "' --show`"@,
        ),
    ]
}

/// The policy that the command line asks for.
pub open spec fn requested_spec(matches: Invocation) -> GenerationSpecView {
    GenerationSpecView {
        alnum_only: matches.alnum,
        length: normalized_length(
            match matches.length {
                Some(text) => parsed_length(text@),
                None => None,
            },
        ) as nat,
    }
}

impl RegenerateOutput {
    /// The command ends with the failure `error` and shows `lines`.
    pub open spec fn fails_with(self, error: CommandError, lines: Seq<LineView>) -> bool {
        self matches RegenerateOutput::Exit { outcome, lines: shown } && is_failure(
            outcome,
            shown@,
            error,
            lines,
        )
    }

    /// The command lets the user choose among the entries named `names`.
    pub open spec fn chooses(self, names: Seq<Seq<char>>) -> bool {
        self matches RegenerateOutput::Choose { title, candidates } && title@ == choice_title() && name_views(
            candidates@,
        ) == names
    }

    /// The command asks for a secret for the entry `name` under `spec`.
    pub open spec fn generates(self, name: Seq<char>, spec: GenerationSpecView) -> bool {
        self matches RegenerateOutput::Generate { name: n, spec: s } && n@ == name && s@ == spec
    }

    /// The command hands `secret`, of the entry `name`, to the clipboard.
    pub open spec fn copies(self, name: Seq<char>, secret: Seq<char>) -> bool {
        self matches RegenerateOutput::Copy { name: n, secret: s } && n@ == name && s@ == secret
    }

    /// The command ends well and shows `secret`, of the entry `name`.
    pub open spec fn shows(self, name: Seq<char>, secret: Seq<char>) -> bool {
        self matches RegenerateOutput::Exit { outcome: Outcome::Shown(line), lines } && line@ == reveal_text(
            name,
            secret,
        ) && lines@.len() == 0
    }

    /// The command ends well, the secret on the clipboard, and shows `lines`.
    pub open spec fn ends_copied(self, lines: Seq<LineView>) -> bool {
        self matches RegenerateOutput::Exit { outcome: Outcome::Copied, lines: shown } && line_views(shown@)
            == lines
    }

    /// The command ends well, but for the clipboard, and shows `lines`.
    pub open spec fn ends_not_copied(self, lines: Seq<LineView>) -> bool {
        self matches RegenerateOutput::Exit { outcome: Outcome::SavedNotCopied, lines: shown }
            && line_views(shown@) == lines
    }
}

/// The help of the command, line by line.
pub fn callback_help() -> (lines: Vec<&'static str>)
    ensures
        texts(lines@) == help_text(),
{
    let mut lines: Vec<&'static str> = Vec::new();
    lines.push("Usage:");
    lines.push("    rooster regenerate -h");
    lines.push("    rooster regenerate <query>");
    lines.push("");
    lines.push("Options:");
    lines.push("    -a, --alnum       Only use alpha numeric (a-z, A-Z, 0-9) in generated passwords");
    lines.push("    -l, --length      Set a custom length for the generated password, default is 32");
    lines.push("    -s, --show        Show the password instead of copying it to the clipboard");
    lines.push("");
    lines.push("Examples:");
    lines.push("    rooster regenerate youtube");
    lines.push("    rooster regenerate ytb     # fuzzy-searching works too");
    assert(texts(lines@) =~= help_text());
    lines
}

/// Whether the command line holds a query: if not, the exit status of the
/// command.
pub fn check_args(matches: &Invocation) -> (r: Result<(), i32>)
    ensures
        r == if matches.free@.len() < 2 {
            Err::<(), i32>(1i32)
        } else {
            Ok::<(), i32>(())
        },
{
    if matches.free.len() < 2 {
        Err(1i32)
    } else {
        Ok(())
    }
}

/// What is shown when the query is missing.
pub fn usage() -> (lines: Vec<Line>)
    ensures
        line_views(lines@) == usage_lines(),
{
    let mut lines: Vec<Line> = Vec::new();
    lines.push(show_error("Woops, seems like the app name is missing here. For help, try:"));
    lines.push(show_error("    rooster regenerate -h"));
    assert(line_views(lines@) =~= usage_lines());
    lines
}

/// The end of the command with the failure `error`, reported by `lines`.
fn fail(error: CommandError, lines: Vec<Line>) -> (out: RegenerateOutput)
    ensures
        out.fails_with(error, line_views(lines@)),
{
    RegenerateOutput::Exit { outcome: Outcome::Failed(error), lines }
}

/// One line, as a list of lines.
fn single(line: Line) -> (lines: Vec<Line>)
    ensures
        line_views(lines@) == seq![line@],
{
    let mut lines: Vec<Line> = Vec::new();
    lines.push(line);
    assert(line_views(lines@) =~= seq![line@]);
    lines
}

/// The request for a secret for the entry `name`, under the policy that the
/// command line asks for.
fn ask_for_secret(matches: &Invocation, name: String) -> (out: RegenerateOutput)
    ensures
        out.generates(name@, requested_spec(*matches)),
{
    let spec = match &matches.length {
        Some(text) => GenerationSpec::from_request(matches.alnum, Some(text.as_str())),
        None => GenerationSpec::from_request(matches.alnum, None),
    };
    RegenerateOutput::Generate { name, spec }
}

/// The name of an error of generation.
fn reason(error: GenerationError) -> (r: &'static str)
    ensures
        r@ == reason_text(error),
{
    match error {
        GenerationError::EntropyUnavailable => "EntropyUnavailable",
        GenerationError::EntropyExhausted => "EntropyExhausted",
    }
}

/// One step of the command.
///
/// At the start the command checks the arguments and searches the store for
/// the query. Of one entry found it asks for a new secret at once; of
/// several it lets the user choose first. With the new secret it replaces
/// the secret of the entry and sets the time of its last change to `now`:
/// this is the one point at which the store changes. Then it shows the
/// secret or hands it to the clipboard. A clipboard that fails leaves the
/// new secret saved.
pub fn callback_exec(
    matches: &Invocation,
    store: &mut PasswordStore,
    input: RegenerateInput,
    now: Timestamp,
) -> (out: RegenerateOutput)
    ensures
        match input {
            RegenerateInput::Start => final(store)@ == old(store)@ && (if matches.free@.len() < 2 {
                out.fails_with(CommandError::UsageError, usage_lines())
            } else {
                let found = picked(old(store)@, ranking(old(store)@, matches.free@[1]@));
                is_find_result(old(store)@, matches.free@[1]@, ranking(old(store)@, matches.free@[1]@)) && if found.len()
                    == 0 {
                    out.fails_with(CommandError::NoMatch, no_match_lines(matches.free@[1]@))
                } else if found.len() == 1 {
                    out.generates(found[0].name, requested_spec(*matches))
                } else {
                    out.chooses(names_of(found))
                }
            }),
            RegenerateInput::Chosen { candidates, choice } => final(store)@ == old(store)@ && (match choice {
                Some(k) => if k < candidates@.len() {
                    out.generates(candidates@[k as int]@, requested_spec(*matches))
                } else {
                    out.fails_with(CommandError::AmbiguousSelectionCanceled, canceled_lines())
                },
                None => out.fails_with(CommandError::AmbiguousSelectionCanceled, canceled_lines()),
            }),
            RegenerateInput::Generated { name, generated } => match generated {
                Err(error) => final(store)@ == old(store)@ && out.fails_with(
                    CommandError::Generation(error),
                    not_generated_lines(error),
                ),
                Ok(secret) => if contains_name(old(store)@, name@) {
                    let i = index_of(old(store)@, name@);
                    final(store)@ == old(store)@.update(
                        i,
                        old(store)@[i].revised(old(store)@[i].username, secret@, now as int),
                    ) && (if matches.show {
                        out.shows(name@, secret@)
                    } else {
                        out.copies(name@, secret@)
                    })
                } else {
                    final(store)@ == old(store)@ && out.fails_with(CommandError::NotFound, not_saved_lines())
                },
            },
            RegenerateInput::Copied { name, paste_keys } => final(store)@ == old(store)@ && (match paste_keys {
                Some(keys) => out.ends_copied(copied_lines(name@, keys@)),
                None => out.ends_not_copied(not_copied_lines(name@)),
            }),
        },
{
    match input {
        RegenerateInput::Start => {
            if check_args(matches).is_err() {
                return fail(CommandError::UsageError, usage());
            }
            let query = matches.free[1].as_str();
            let found = store.find_all(query);
            let ghost entries = picked(store@, ranking(store@, query@));
            if found.len() == 0 {
                let message = join3("Woops, I can't find any app that matches \"", query, "\".");
                return fail(CommandError::NoMatch, single(show_error(message.as_str())));
            }
            if found.len() == 1 {
                assert(views(found@)[0] == found@[0]@);
                let name = String::from_str(found[0].name());
                return ask_for_secret(matches, name);
            }
            let mut candidates: Vec<String> = Vec::new();
            let mut k: usize = 0;
            while k < found.len()
                invariant
                    0 <= k <= found@.len(),
                    candidates@.len() == k,
                    views(found@) == entries,
                    forall|m: int| 0 <= m < k ==> (#[trigger] candidates@[m])@ == entries[m].name,
                decreases found@.len() - k,
            {
                assert(views(found@)[k as int] == found@[k as int]@);
                candidates.push(String::from_str(found[k].name()));
                k += 1;
            }
            assert(name_views(candidates@) =~= names_of(entries));
            RegenerateOutput::Choose {
                title: show_title_1("Which password would you like to regenerate?"),
                candidates,
            }
        },
        RegenerateInput::Chosen { candidates, choice } => {
            match choice {
                Some(k) => {
                    if k < candidates.len() {
                        return ask_for_secret(matches, candidates[k].clone());
                    }
                },
                None => {},
            }
            fail(
                CommandError::AmbiguousSelectionCanceled,
                single(show_error("Woops, no password was chosen, so nothing was changed.")),
            )
        },
        RegenerateInput::Generated { name, generated } => {
            let secret = match generated {
                Ok(secret) => secret,
                Err(error) => {
                    let message = join3(
                        "Woops, I could not generate the password (reason: ",
                        reason(error),
                        ").",
                    );
                    return fail(CommandError::Generation(error), single(show_error(message.as_str())));
                },
            };
            let kept = secret.clone();
            let ghost text = secret@;
            let renew = |old: PasswordEntry| -> (new: PasswordEntry)
                ensures
                    new@ == old@.revised(old@.username, text, now as int),
                {
                    let username = String::from_str(old.username());
                    old.revise(username, secret, now)
                };
            match store.update(name.as_str(), renew) {
                Ok(_) => {
                    if matches.show {
                        let label = join3("Alright! Here is your password for ", name.as_str(), ": ");
                        let line = reveal_line(label.as_str(), &kept);
                        RegenerateOutput::Exit { outcome: Outcome::Shown(line), lines: Vec::new() }
                    } else {
                        RegenerateOutput::Copy { name, secret: kept }
                    }
                },
                Err(_) => fail(
                    CommandError::NotFound,
                    single(show_error("Woops, I couldn't save the new password (reason: NotFound).")),
                ),
            }
        },
        RegenerateInput::Copied { name, paste_keys } => {
            match paste_keys {
                Some(keys) => {
                    let head = join3("Alright! You can paste your ", name.as_str(), " password anywhere with ");
                    let message = join3(head.as_str(), keys.as_str(), ".");
                    RegenerateOutput::Exit { outcome: Outcome::Copied, lines: single(show_ok(message.as_str())) }
                },
                None => {
                    let message = join3(
                        "Hmm, I tried to copy your new password to your clipboard, but something went wrong. You can see it with `rooster get '",
                        name.as_str(),
                        "' --show`",
                    );
                    RegenerateOutput::Exit {
                        outcome: Outcome::SavedNotCopied,
                        lines: single(show_ok(message.as_str())),
                    }
                },
            }
        },
    }
}

} // verus!
