use rooster::commands::add::{callback_exec, callback_help, check_args, AddInput, AddOutput};
use rooster::commands::{CommandError, Invocation, Outcome};
use rooster::entry::PasswordEntry;
use rooster::macros::{Line, Stream};
use rooster::secret::Secret;
use rooster::store::PasswordStore;

fn invocation(free: &[&str], show: bool) -> Invocation {
    Invocation {
        free: free.iter().map(|s| s.to_string()).collect(),
        show,
        alnum: false,
        length: None,
    }
}

fn store_with(name: &str) -> PasswordStore {
    let mut store = PasswordStore::new();
    store
        .add(PasswordEntry::new(
            name.to_string(),
            "first@example.com".to_string(),
            Secret::new("first secret".to_string()),
            1,
        ))
        .unwrap();
    store
}

fn red(text: &str) -> String {
    format!("\x1b[31m{}\x1b[0m", text)
}

fn green(text: &str) -> String {
    format!("\x1b[32m{}\x1b[0m", text)
}

fn failure(out: AddOutput) -> (CommandError, Vec<Line>) {
    match out {
        AddOutput::Exit { outcome: Outcome::Failed(error), lines } => {
            assert_eq!(Outcome::Failed(error).status(), Err(1));
            (error, lines)
        }
        _ => panic!("the command did not fail"),
    }
}

#[test]
fn add_help_names_the_command() {
    let lines = callback_help();
    assert_eq!(
        lines,
        vec![
            "Usage:",
            "    rooster add -h",
            "    rooster add <app_name> <username>",
            "",
            "Options:",
            "    -s, --show        Show the password instead of copying it to the clipboard",
            "",
            "Example:",
            "    rooster add YouTube me@example.com",
        ]
    );
}

#[test]
fn add_needs_a_name_and_a_user() {
    assert_eq!(check_args(&invocation(&[], false)), Err(1));
    assert_eq!(check_args(&invocation(&["add"], false)), Err(1));
    assert_eq!(check_args(&invocation(&["add", "YouTube"], false)), Err(1));
    assert_eq!(check_args(&invocation(&["add", "YouTube", "me"], false)), Ok(()));
    assert_eq!(check_args(&invocation(&["add", "YouTube", "me", "more"], false)), Ok(()));
}

#[test]
fn add_without_arguments_is_a_usage_error() {
    let mut store = store_with("YouTube");
    let out = callback_exec(&invocation(&["add", "Yahoo"], false), &mut store, AddInput::Start, 5);
    let (error, lines) = failure(out);
    assert_eq!(error, CommandError::UsageError);
    assert_eq!(lines.len(), 2);
    assert_eq!(lines[0].stream, Stream::Stderr);
    assert_eq!(
        lines[0].text,
        red("Woops, seems like the app name or the username is missing here. For help, try:")
    );
    assert_eq!(lines[1].stream, Stream::Stderr);
    assert_eq!(lines[1].text, red("    rooster add -h"));
    assert_eq!(store.len(), 1);
}

#[test]
fn add_of_a_taken_name_fails_before_the_prompt() {
    let mut store = store_with("YouTube");
    let out = callback_exec(
        &invocation(&["add", "YouTube", "me@example.com"], false),
        &mut store,
        AddInput::Start,
        5,
    );
    let (error, lines) = failure(out);
    assert_eq!(error, CommandError::DuplicateName);
    assert_eq!(lines.len(), 1);
    assert_eq!(lines[0].stream, Stream::Stderr);
    assert_eq!(lines[0].text, red("Woops, there is already an app with that name."));
    assert_eq!(store.len(), 1);
    assert_eq!(store.get("YouTube").unwrap().secret().expose(), "first secret");
}

#[test]
fn add_asks_for_the_secret_of_a_free_name() {
    let mut store = store_with("YouTube");
    let out = callback_exec(
        &invocation(&["add", "youtube", "me@example.com"], false),
        &mut store,
        AddInput::Start,
        5,
    );
    match out {
        AddOutput::Prompt { name, username, prompt } => {
            assert_eq!(name, "youtube");
            assert_eq!(username, "me@example.com");
            assert_eq!(prompt, "What password do you want for \"youtube\"? ");
        }
        _ => panic!("the command did not ask for the secret"),
    }
    assert_eq!(store.len(), 1);
}

#[test]
fn add_saves_the_entry_and_hands_the_secret_to_the_clipboard() {
    let mut store = PasswordStore::new();
    let matches = invocation(&["add", "YouTube", "me@example.com"], false);
    let out = callback_exec(
        &matches,
        &mut store,
        AddInput::SecretRead {
            name: "YouTube".to_string(),
            username: "me@example.com".to_string(),
            answer: Ok("hunter2".to_string()),
        },
        77,
    );
    match out {
        AddOutput::Copy { name, secret } => {
            assert_eq!(name, "YouTube");
            assert_eq!(secret.expose(), "hunter2");
        }
        _ => panic!("the command did not hand the secret to the clipboard"),
    }
    assert_eq!(store.len(), 1);
    let saved = store.get("YouTube").unwrap();
    assert_eq!(saved.username(), "me@example.com");
    assert_eq!(saved.secret().expose(), "hunter2");
    assert_eq!(saved.created_at(), 77);
    assert_eq!(saved.updated_at(), 77);
}

#[test]
fn add_shows_the_secret_when_asked_to() {
    let mut store = PasswordStore::new();
    let matches = invocation(&["add", "YouTube", "me@example.com"], true);
    let out = callback_exec(
        &matches,
        &mut store,
        AddInput::SecretRead {
            name: "YouTube".to_string(),
            username: "me@example.com".to_string(),
            answer: Ok("hunter2".to_string()),
        },
        77,
    );
    match out {
        AddOutput::Exit { outcome, lines } => {
            assert_eq!(outcome.status(), Ok(()));
            assert!(lines.is_empty());
            match outcome {
                Outcome::Shown(line) => {
                    assert_eq!(line.expose(), green("Alright! Here is your password: hunter2"));
                    assert_eq!(line.redacted(), "********");
                }
                _ => panic!("the command did not show the secret"),
            }
        }
        _ => panic!("the command did not end"),
    }
    assert!(store.has("YouTube"));
}

#[test]
fn add_fails_when_the_secret_cannot_be_read() {
    let mut store = store_with("Yahoo");
    let matches = invocation(&["add", "YouTube", "me@example.com"], false);
    let out = callback_exec(
        &matches,
        &mut store,
        AddInput::SecretRead {
            name: "YouTube".to_string(),
            username: "me@example.com".to_string(),
            answer: Err("UnexpectedEof".to_string()),
        },
        77,
    );
    let (error, lines) = failure(out);
    assert_eq!(error, CommandError::PromptFailed);
    assert_eq!(lines.len(), 1);
    assert_eq!(lines[0].stream, Stream::Stderr);
    assert_eq!(
        lines[0].text,
        red("\nI couldn't read the app's password (reason: UnexpectedEof).")
    );
    assert_eq!(store.len(), 1);
    assert!(!store.has("YouTube"));
}

#[test]
fn add_is_refused_when_the_name_was_taken_meanwhile() {
    let mut store = store_with("YouTube");
    let matches = invocation(&["add", "YouTube", "me@example.com"], true);
    let out = callback_exec(
        &matches,
        &mut store,
        AddInput::SecretRead {
            name: "YouTube".to_string(),
            username: "me@example.com".to_string(),
            answer: Ok("hunter2".to_string()),
        },
        77,
    );
    let (error, lines) = failure(out);
    assert_eq!(error, CommandError::DuplicateName);
    assert_eq!(lines.len(), 1);
    assert_eq!(
        lines[0].text,
        red("Woops, I couldn't add the password (reason: DuplicateName).")
    );
    assert_eq!(store.len(), 1);
    let kept = store.get("YouTube").unwrap();
    assert_eq!(kept.username(), "first@example.com");
    assert_eq!(kept.secret().expose(), "first secret");
    assert_eq!(kept.updated_at(), 1);
}

#[test]
fn add_reports_the_keys_that_paste() {
    let mut store = store_with("YouTube");
    let matches = invocation(&["add", "YouTube", "me@example.com"], false);
    let out = callback_exec(
        &matches,
        &mut store,
        AddInput::Copied { name: "YouTube".to_string(), paste_keys: Some("Ctrl+V".to_string()) },
        78,
    );
    match out {
        AddOutput::Exit { outcome, lines } => {
            assert!(matches!(outcome, Outcome::Copied));
            assert_eq!(outcome.status(), Ok(()));
            assert_eq!(lines.len(), 1);
            assert_eq!(lines[0].stream, Stream::Stdout);
            assert_eq!(
                lines[0].text,
                green("Alright! I've saved your new password. You can paste it anywhere with Ctrl+V.")
            );
        }
        _ => panic!("the command did not end"),
    }
    assert_eq!(store.len(), 1);
}

#[test]
fn add_keeps_the_entry_when_the_clipboard_fails() {
    let mut store = store_with("YouTube");
    let matches = invocation(&["add", "YouTube", "me@example.com"], false);
    let out = callback_exec(
        &matches,
        &mut store,
        AddInput::Copied { name: "YouTube".to_string(), paste_keys: None },
        78,
    );
    match out {
        AddOutput::Exit { outcome, lines } => {
            assert!(matches!(outcome, Outcome::SavedNotCopied));
            assert_eq!(outcome.status(), Ok(()));
            assert_eq!(lines.len(), 1);
            assert_eq!(lines[0].stream, Stream::Stdout);
            assert_eq!(
                lines[0].text,
                green(
                    "Hmm, I tried to copy your new password to your clipboard, but something went wrong. Don't worry, it's saved, and you can see it with `rooster get YouTube --show`"
                )
            );
        }
        _ => panic!("the command did not end"),
    }
    assert!(store.has("YouTube"));
    assert_eq!(store.get("YouTube").unwrap().secret().expose(), "first secret");
}

#[test]
fn add_from_start_to_end() {
    let mut store = PasswordStore::new();
    let matches = invocation(&["add", "YouTube", "me@example.com"], false);
    let (name, username) = match callback_exec(&matches, &mut store, AddInput::Start, 1) {
        AddOutput::Prompt { name, username, .. } => (name, username),
        _ => panic!("the command did not ask for the secret"),
    };
    assert!(!store.has("YouTube"));
    let input = AddInput::SecretRead { name, username, answer: Ok("hunter2".to_string()) };
    let name = match callback_exec(&matches, &mut store, input, 2) {
        AddOutput::Copy { name, secret } => {
            assert_eq!(secret.expose(), "hunter2");
            name
        }
        _ => panic!("the command did not hand the secret to the clipboard"),
    };
    assert!(store.has("YouTube"));
    let input = AddInput::Copied { name, paste_keys: None };
    match callback_exec(&matches, &mut store, input, 3) {
        AddOutput::Exit { outcome, .. } => assert!(matches!(outcome, Outcome::SavedNotCopied)),
        _ => panic!("the command did not end"),
    }
    assert!(store.has("YouTube"));
    let again = callback_exec(&matches, &mut store, AddInput::Start, 4);
    assert_eq!(failure(again).0, CommandError::DuplicateName);
    assert_eq!(store.len(), 1);
}
