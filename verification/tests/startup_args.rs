use edit_core::startup::{extension_hint, startup_path, ArgsError};

fn chars(s: &str) -> Vec<char> {
    s.chars().collect()
}

fn to_string(v: Vec<char>) -> String {
    v.into_iter().collect()
}

#[test]
fn no_argument_means_a_new_unnamed_buffer() {
    let args: Vec<Vec<char>> = vec![];
    assert_eq!(startup_path(&args), Ok(None));
}

#[test]
fn one_argument_names_the_file_to_open() {
    let args = vec![chars("notes.txt")];
    let r = startup_path(&args).unwrap().unwrap();
    assert_eq!(to_string(r), "notes.txt");
}

#[test]
fn more_than_one_argument_is_rejected() {
    let args = vec![chars("a"), chars("b")];
    assert_eq!(startup_path(&args), Err(ArgsError::TooMany));
    let args = vec![chars("a"), chars("b"), chars("c")];
    assert_eq!(startup_path(&args), Err(ArgsError::TooMany));
}

#[test]
fn the_extension_hint_is_what_follows_the_first_dot() {
    assert_eq!(to_string(extension_hint(&chars("main.rs"))), "rs");
    assert_eq!(to_string(extension_hint(&chars("archive.tar.gz"))), "tar.gz");
    assert_eq!(to_string(extension_hint(&chars(".hidden"))), "hidden");
    assert_eq!(to_string(extension_hint(&chars("trailing."))), "");
}

#[test]
fn a_name_without_a_dot_hints_plain_text() {
    assert_eq!(to_string(extension_hint(&chars("Makefile"))), "txt");
    assert_eq!(to_string(extension_hint(&chars(""))), "txt");
}
