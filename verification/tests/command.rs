use sysup::command::{strings, CommandSpec};

fn spec_of(program: &str, arguments: &[&str]) -> CommandSpec {
    CommandSpec::new(program.to_string(), strings(arguments)).unwrap()
}

#[test]
fn display_without_arguments_keeps_the_space() {
    assert_eq!(spec_of("x", &[]).display(), "x ");
}

#[test]
fn display_with_one_argument() {
    assert_eq!(spec_of("brew", &["update"]).display(), "brew update");
}

#[test]
fn display_joins_arguments_with_single_spaces() {
    let spec = spec_of("sudo", &["apt-get", "upgrade", "-y"]);
    assert_eq!(spec.display(), "sudo apt-get upgrade -y");
}

#[test]
fn display_keeps_arguments_as_they_are() {
    let spec = spec_of("nvim", &["-c", "autocmd User PackerComplete quitall", ""]);
    assert_eq!(spec.display(), "nvim -c autocmd User PackerComplete quitall ");
}

#[test]
fn an_empty_program_makes_no_command() {
    assert!(CommandSpec::new(String::new(), Vec::new()).is_none());
    assert!(CommandSpec::new(String::new(), strings(&["a"])).is_none());
    assert!(CommandSpec::new(" ".to_string(), Vec::new()).is_some());
}

#[test]
fn a_command_holds_what_it_was_made_of() {
    let spec = spec_of("pacman", &["-Qtdq", "x"]);
    assert_eq!(spec.program(), "pacman");
    assert_eq!(spec.arguments(), &vec!["-Qtdq".to_string(), "x".to_string()]);
}

#[test]
fn commands_are_equal_by_what_they_hold() {
    assert_eq!(spec_of("rm", &["-f", "a"]), spec_of("rm", &["-f", "a"]));
    assert_ne!(spec_of("rm", &["-f", "a"]), spec_of("rm", &["-f", "b"]));
    assert_ne!(spec_of("rm", &["-f", "a"]), spec_of("rm", &["-f"]));
    assert_ne!(spec_of("rm", &["-f"]), spec_of("mv", &["-f"]));
    assert_ne!(spec_of("rm", &["a", "-f"]), spec_of("rm", &["-f", "a"]));
}

#[test]
fn a_clone_is_equal_to_its_source() {
    let spec = spec_of("cargo", &["install", "--list"]);
    assert_eq!(spec.clone(), spec);
}

#[test]
fn with_arguments_appends_in_order() {
    let spec = spec_of("rm", &["-f"]);
    let longer = spec.with_arguments(&strings(&["a", "b"]));
    assert_eq!(longer, spec_of("rm", &["-f", "a", "b"]));
    assert_eq!(spec, spec_of("rm", &["-f"]));
    assert_eq!(spec.with_arguments(&Vec::new()), spec);
}

#[test]
fn banner_has_four_lines() {
    let spec = spec_of("sudo", &["apt-get", "update"]);
    assert_eq!(
        spec.banner(),
        vec![
            "".to_string(),
            "========================".to_string(),
            "$ sudo apt-get update".to_string(),
            "========================".to_string(),
        ]
    );
}

#[test]
fn banner_of_a_command_without_arguments() {
    assert_eq!(spec_of("x", &[]).banner()[2], "$ x ");
}

#[test]
fn strings_copies_each_item() {
    assert_eq!(strings(&["a", "", "b c"]), vec!["a".to_string(), "".to_string(), "b c".to_string()]);
    assert_eq!(strings(&[]), Vec::<String>::new());
}
