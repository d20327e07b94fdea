use rooster::macros::{show_error, show_ok, show_title_1, Stream};

#[test]
fn an_error_is_red_on_the_standard_error() {
    let line = show_error("Woops");
    assert_eq!(line.stream, Stream::Stderr);
    assert_eq!(line.text, "\x1b[31mWoops\x1b[0m");
}

#[test]
fn a_success_is_green_on_the_standard_output() {
    let line = show_ok("Alright!");
    assert_eq!(line.stream, Stream::Stdout);
    assert_eq!(line.text, "\x1b[32mAlright!\x1b[0m");
}

#[test]
fn a_title_is_bold_and_underlined() {
    let line = show_title_1("Passwords");
    assert_eq!(line.stream, Stream::Stdout);
    assert_eq!(line.text, "\x1b[1;4mPasswords\x1b[0m");
}

#[test]
fn empty_text_is_painted_too() {
    assert_eq!(show_error("").text, "\x1b[31m\x1b[0m");
    assert_eq!(show_ok("").text, "\x1b[32m\x1b[0m");
    assert_eq!(show_title_1("").text, "\x1b[1;4m\x1b[0m");
}
