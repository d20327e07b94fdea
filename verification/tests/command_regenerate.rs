use rooster::commands::regenerate::{
    callback_exec, callback_help, check_args, RegenerateInput, RegenerateOutput,
};
use rooster::commands::{CommandError, Invocation, Outcome};
use rooster::entry::PasswordEntry;
use rooster::generate::{generate, generate_from, GenerationError, GenerationSpec};
use rooster::macros::{Line, Stream};
use rooster::secret::Secret;
use rooster::store::PasswordStore;

fn invocation(free: &[&str], show: bool, alnum: bool, length: Option<&str>) -> Invocation {
    Invocation {
        free: free.iter().map(|s| s.to_string()).collect(),
        show,
        alnum,
        length: length.map(|s| s.to_string()),
    }
}

fn store_of(names: &[&str]) -> PasswordStore {
    let mut store = PasswordStore::new();
    for (i, name) in names.iter().enumerate() {
        store
            .add(PasswordEntry::new(
                name.to_string(),
                format!("{}@example.com", name),
                Secret::new(format!("secret of {}", name)),
                10 + i as i64,
            ))
            .unwrap();
    }
    store
}

fn red(text: &str) -> String {
    format!("\x1b[31m{}\x1b[0m", text)
}

fn green(text: &str) -> String {
    format!("\x1b[32m{}\x1b[0m", text)
}

fn failure(out: RegenerateOutput) -> (CommandError, Vec<Line>) {
    match out {
        RegenerateOutput::Exit { outcome: Outcome::Failed(error), lines } => {
            assert_eq!(Outcome::Failed(error).status(), Err(1));
            (error, lines)
        }
        _ => panic!("the command did not fail"),
    }
}

fn unchanged(store: &PasswordStore, names: &[&str]) {
    assert_eq!(store.len(), names.len());
    for (i, name) in names.iter().enumerate() {
        let e = store.entry_at(i).unwrap();
        assert_eq!(e.name(), *name);
        assert_eq!(e.username(), format!("{}@example.com", name));
        assert_eq!(e.secret().expose(), format!("secret of {}", name));
        assert_eq!(e.created_at(), 10 + i as i64);
        assert_eq!(e.updated_at(), 10 + i as i64);
    }
}

#[test]
fn regenerate_help_names_the_command() {
    assert_eq!(
        callback_help(),
        vec![
            "Usage:",
            "    rooster regenerate -h",
            "    rooster regenerate <query>",
            "",
            "Options:",
            "    -a, --alnum       Only use alpha numeric (a-z, A-Z, 0-9) in generated passwords",
            "    -l, --length      Set a custom length for the generated password, default is 32",
            "    -s, --show        Show the password instead of copying it to the clipboard",
            "",
            "Examples:",
            "    rooster regenerate youtube",
            "    rooster regenerate ytb     # fuzzy-searching works too",
        ]
    );
}

#[test]
fn regenerate_needs_a_query() {
    assert_eq!(check_args(&invocation(&[], false, false, None)), Err(1));
    assert_eq!(
        check_args(&invocation(&["regenerate"], false, false, None)),
        Err(1)
    );
    assert_eq!(check_args(&invocation(&["regenerate", "ytb"], false, false, None)), Ok(()));
}

#[test]
fn regenerate_without_a_query_is_a_usage_error() {
    let mut store = store_of(&["YouTube", "Yahoo"]);
    let matches = invocation(&["regenerate"], false, false, None);
    let (error, lines) = failure(callback_exec(&matches, &mut store, RegenerateInput::Start, 99));
    assert_eq!(error, CommandError::UsageError);
    assert_eq!(lines.len(), 2);
    assert_eq!(lines[0].stream, Stream::Stderr);
    assert_eq!(lines[0].text, red("Woops, seems like the app name is missing here. For help, try:"));
    assert_eq!(lines[1].stream, Stream::Stderr);
    assert_eq!(lines[1].text, red("    rooster regenerate -h"));
    unchanged(&store, &["YouTube", "Yahoo"]);
}

#[test]
fn regenerate_reports_a_query_that_matches_nothing() {
    let mut store = store_of(&["YouTube", "Yahoo"]);
    let matches = invocation(&["regenerate", "zzz"], false, false, None);
    let (error, lines) = failure(callback_exec(&matches, &mut store, RegenerateInput::Start, 99));
    assert_eq!(error, CommandError::NoMatch);
    assert_eq!(lines.len(), 1);
    assert_eq!(lines[0].stream, Stream::Stderr);
    assert_eq!(lines[0].text, red("Woops, I can't find any app that matches \"zzz\"."));
    unchanged(&store, &["YouTube", "Yahoo"]);
}

#[test]
fn regenerate_takes_the_one_entry_that_matches() {
    let mut store = store_of(&["YouTube", "Yahoo"]);
    let matches = invocation(&["regenerate", "ytb"], false, true, Some("12"));
    match callback_exec(&matches, &mut store, RegenerateInput::Start, 99) {
        RegenerateOutput::Generate { name, spec } => {
            assert_eq!(name, "YouTube");
            assert!(spec.alnum_only());
            assert_eq!(spec.length(), 12);
        }
        _ => panic!("the command did not ask for a secret"),
    }
    unchanged(&store, &["YouTube", "Yahoo"]);
}

#[test]
fn regenerate_takes_an_exact_name_without_asking() {
    let mut store = store_of(&["Yahoo Mail", "Yahoo", "yahoo"]);
    let matches = invocation(&["regenerate", "Yahoo"], false, false, Some("three"));
    match callback_exec(&matches, &mut store, RegenerateInput::Start, 99) {
        RegenerateOutput::Generate { name, spec } => {
            assert_eq!(name, "Yahoo");
            assert!(!spec.alnum_only());
            assert_eq!(spec.length(), 32);
        }
        _ => panic!("the command did not ask for a secret"),
    }
}

#[test]
fn regenerate_lets_the_user_choose_among_several() {
    let mut store = store_of(&["YouTube", "Yahoo"]);
    let matches = invocation(&["regenerate", "y"], false, false, None);
    match callback_exec(&matches, &mut store, RegenerateInput::Start, 99) {
        RegenerateOutput::Choose { title, candidates } => {
            assert_eq!(title.stream, Stream::Stdout);
            assert_eq!(
                title.text,
                "\x1b[1;4mWhich password would you like to regenerate?\x1b[0m"
            );
            assert_eq!(candidates, vec!["Yahoo", "YouTube"]);
        }
        _ => panic!("the command did not let the user choose"),
    }
    unchanged(&store, &["YouTube", "Yahoo"]);
}

#[test]
fn regenerate_goes_on_with_the_chosen_entry() {
    let mut store = store_of(&["YouTube", "Yahoo"]);
    let matches = invocation(&["regenerate", "y"], false, false, Some("3"));
    let input = RegenerateInput::Chosen {
        candidates: vec!["Yahoo".to_string(), "YouTube".to_string()],
        choice: Some(1),
    };
    match callback_exec(&matches, &mut store, input, 99) {
        RegenerateOutput::Generate { name, spec } => {
            assert_eq!(name, "YouTube");
            assert!(!spec.alnum_only());
            assert_eq!(spec.length(), 32);
        }
        _ => panic!("the command did not ask for a secret"),
    }
    unchanged(&store, &["YouTube", "Yahoo"]);
}

#[test]
fn regenerate_ends_when_nothing_is_chosen() {
    let mut store = store_of(&["YouTube", "Yahoo"]);
    let matches = invocation(&["regenerate", "y"], false, false, None);
    for choice in [None, Some(2), Some(usize::MAX)] {
        let input = RegenerateInput::Chosen {
            candidates: vec!["Yahoo".to_string(), "YouTube".to_string()],
            choice,
        };
        let (error, lines) = failure(callback_exec(&matches, &mut store, input, 99));
        assert_eq!(error, CommandError::AmbiguousSelectionCanceled);
        assert_eq!(lines.len(), 1);
        assert_eq!(lines[0].stream, Stream::Stderr);
        assert_eq!(lines[0].text, red("Woops, no password was chosen, so nothing was changed."));
        unchanged(&store, &["YouTube", "Yahoo"]);
    }
}

#[test]
fn regenerate_leaves_the_secret_when_the_entropy_source_fails() {
    let mut store = store_of(&["YouTube", "Yahoo"]);
    let matches = invocation(&["regenerate", "YouTube"], false, false, None);
    let spec = GenerationSpec::from_request(false, None);
    let input = RegenerateInput::Generated {
        name: "YouTube".to_string(),
        generated: generate_from(&spec, None),
    };
    let (error, lines) = failure(callback_exec(&matches, &mut store, input, 99));
    assert_eq!(error, CommandError::Generation(GenerationError::EntropyUnavailable));
    assert_eq!(lines.len(), 1);
    assert_eq!(lines[0].stream, Stream::Stderr);
    assert_eq!(
        lines[0].text,
        red("Woops, I could not generate the password (reason: EntropyUnavailable).")
    );
    unchanged(&store, &["YouTube", "Yahoo"]);
    assert_eq!(store.get("YouTube").unwrap().secret().expose(), "secret of YouTube");
}

#[test]
fn regenerate_leaves_the_secret_when_the_entropy_runs_out() {
    let mut store = store_of(&["YouTube"]);
    let matches = invocation(&["regenerate", "YouTube"], true, false, None);
    let spec = GenerationSpec::from_request(false, None);
    let input = RegenerateInput::Generated {
        name: "YouTube".to_string(),
        generated: generate_from(&spec, Some(vec![255u8; 500])),
    };
    let (error, lines) = failure(callback_exec(&matches, &mut store, input, 99));
    assert_eq!(error, CommandError::Generation(GenerationError::EntropyExhausted));
    assert_eq!(
        lines[0].text,
        red("Woops, I could not generate the password (reason: EntropyExhausted).")
    );
    unchanged(&store, &["YouTube"]);
}

#[test]
fn regenerate_replaces_the_secret_and_keeps_the_rest() {
    let mut store = store_of(&["YouTube", "Yahoo"]);
    let matches = invocation(&["regenerate", "yah"], false, true, None);
    let input = RegenerateInput::Generated {
        name: "Yahoo".to_string(),
        generated: Ok(Secret::new("brandnew".to_string())),
    };
    match callback_exec(&matches, &mut store, input, 99) {
        RegenerateOutput::Copy { name, secret } => {
            assert_eq!(name, "Yahoo");
            assert_eq!(secret.expose(), "brandnew");
        }
        _ => panic!("the command did not hand the secret to the clipboard"),
    }
    assert_eq!(store.len(), 2);
    let changed = store.entry_at(1).unwrap();
    assert_eq!(changed.name(), "Yahoo");
    assert_eq!(changed.username(), "Yahoo@example.com");
    assert_eq!(changed.secret().expose(), "brandnew");
    assert_eq!(changed.created_at(), 11);
    assert_eq!(changed.updated_at(), 99);
    let other = store.entry_at(0).unwrap();
    assert_eq!(other.name(), "YouTube");
    assert_eq!(other.secret().expose(), "secret of YouTube");
    assert_eq!(other.updated_at(), 10);
}

#[test]
fn regenerate_never_moves_the_last_change_backwards() {
    let mut store = store_of(&["YouTube"]);
    let matches = invocation(&["regenerate", "YouTube"], false, false, None);
    let input = RegenerateInput::Generated {
        name: "YouTube".to_string(),
        generated: Ok(Secret::new("brandnew".to_string())),
    };
    callback_exec(&matches, &mut store, input, 3);
    let changed = store.get("YouTube").unwrap();
    assert_eq!(changed.secret().expose(), "brandnew");
    assert_eq!(changed.created_at(), 10);
    assert_eq!(changed.updated_at(), 10);
}

#[test]
fn regenerate_shows_the_secret_when_asked_to() {
    let mut store = store_of(&["YouTube", "Yahoo"]);
    let matches = invocation(&["regenerate", "ytb"], true, false, None);
    let input = RegenerateInput::Generated {
        name: "YouTube".to_string(),
        generated: Ok(Secret::new("brandnew".to_string())),
    };
    match callback_exec(&matches, &mut store, input, 99) {
        RegenerateOutput::Exit { outcome, lines } => {
            assert_eq!(outcome.status(), Ok(()));
            assert!(lines.is_empty());
            match outcome {
                Outcome::Shown(line) => assert_eq!(
                    line.expose(),
                    green("Alright! Here is your password for YouTube: brandnew")
                ),
                _ => panic!("the command did not show the secret"),
            }
        }
        _ => panic!("the command did not end"),
    }
    assert_eq!(store.get("YouTube").unwrap().secret().expose(), "brandnew");
}

#[test]
fn regenerate_fails_when_the_entry_is_gone() {
    let mut store = store_of(&["YouTube", "Yahoo"]);
    let matches = invocation(&["regenerate", "ytb"], true, false, None);
    let input = RegenerateInput::Generated {
        name: "Vimeo".to_string(),
        generated: Ok(Secret::new("brandnew".to_string())),
    };
    let (error, lines) = failure(callback_exec(&matches, &mut store, input, 99));
    assert_eq!(error, CommandError::NotFound);
    assert_eq!(lines.len(), 1);
    assert_eq!(lines[0].stream, Stream::Stderr);
    assert_eq!(lines[0].text, red("Woops, I couldn't save the new password (reason: NotFound)."));
    unchanged(&store, &["YouTube", "Yahoo"]);
}

#[test]
fn regenerate_reports_the_keys_that_paste() {
    let mut store = store_of(&["YouTube"]);
    let matches = invocation(&["regenerate", "ytb"], false, false, None);
    let input =
        RegenerateInput::Copied { name: "YouTube".to_string(), paste_keys: Some("Cmd+V".to_string()) };
    match callback_exec(&matches, &mut store, input, 99) {
        RegenerateOutput::Exit { outcome, lines } => {
            assert!(matches!(outcome, Outcome::Copied));
            assert_eq!(lines.len(), 1);
            assert_eq!(lines[0].stream, Stream::Stdout);
            assert_eq!(
                lines[0].text,
                green("Alright! You can paste your YouTube password anywhere with Cmd+V.")
            );
        }
        _ => panic!("the command did not end"),
    }
    unchanged(&store, &["YouTube"]);
}

#[test]
fn regenerate_keeps_the_new_secret_when_the_clipboard_fails() {
    let mut store = store_of(&["YouTube"]);
    let matches = invocation(&["regenerate", "ytb"], false, false, None);
    let input = RegenerateInput::Copied { name: "YouTube".to_string(), paste_keys: None };
    match callback_exec(&matches, &mut store, input, 99) {
        RegenerateOutput::Exit { outcome, lines } => {
            assert!(matches!(outcome, Outcome::SavedNotCopied));
            assert_eq!(outcome.status(), Ok(()));
            assert_eq!(lines.len(), 1);
            assert_eq!(lines[0].stream, Stream::Stdout);
            assert_eq!(
                lines[0].text,
                green(
                    "Hmm, I tried to copy your new password to your clipboard, but something went wrong. You can see it with `rooster get 'YouTube' --show`"
                )
            );
        }
        _ => panic!("the command did not end"),
    }
    unchanged(&store, &["YouTube"]);
}

#[test]
fn regenerate_from_start_to_end() {
    let mut store = store_of(&["YouTube", "Yahoo"]);
    let matches = invocation(&["regenerate", "y"], false, true, Some("20"));
    let candidates = match callback_exec(&matches, &mut store, RegenerateInput::Start, 50) {
        RegenerateOutput::Choose { candidates, .. } => candidates,
        _ => panic!("the command did not let the user choose"),
    };
    let input = RegenerateInput::Chosen { candidates, choice: Some(0) };
    let (name, spec) = match callback_exec(&matches, &mut store, input, 51) {
        RegenerateOutput::Generate { name, spec } => (name, spec),
        _ => panic!("the command did not ask for a secret"),
    };
    assert_eq!(name, "Yahoo");
    unchanged(&store, &["YouTube", "Yahoo"]);
    let input = RegenerateInput::Generated { name, generated: generate(&spec) };
    let (name, copied) = match callback_exec(&matches, &mut store, input, 52) {
        RegenerateOutput::Copy { name, secret } => (name, secret),
        _ => panic!("the command did not hand the secret to the clipboard"),
    };
    assert_eq!(copied.len(), 20);
    assert!(copied.expose().chars().all(|c| c.is_ascii_alphanumeric()));
    let saved = store.get("Yahoo").unwrap();
    assert!(saved.secret() == &copied);
    assert_eq!(saved.username(), "Yahoo@example.com");
    assert_eq!(saved.created_at(), 11);
    assert_eq!(saved.updated_at(), 52);
    assert_eq!(store.get("YouTube").unwrap().secret().expose(), "secret of YouTube");
    let input = RegenerateInput::Copied { name, paste_keys: Some("Ctrl+V".to_string()) };
    match callback_exec(&matches, &mut store, input, 53) {
        RegenerateOutput::Exit { outcome, .. } => assert!(matches!(outcome, Outcome::Copied)),
        _ => panic!("the command did not end"),
    }
    assert_eq!(store.get("Yahoo").unwrap().updated_at(), 52);
}
