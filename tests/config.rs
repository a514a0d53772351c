use minigrep::{
    is_listed_command, same_text, search_command_output, search_contents, Argument, Config,
    ConfigError,
};

fn args(items: &[&str]) -> Vec<String> {
    items.iter().map(|s| s.to_string()).collect()
}

#[test]
fn build_takes_query_and_path() {
    let config = Config::build(&args(&["minigrep", "duct", "poem.txt"]), true).unwrap();
    assert_eq!("duct", config.query);
    assert_eq!("poem.txt", config.file_path);
    assert!(config.ignore_case);
}

#[test]
fn build_ignores_extra_arguments() {
    let config = Config::build(&args(&["minigrep", "a", "b", "c"]), false).unwrap();
    assert_eq!("a", config.query);
    assert_eq!("b", config.file_path);
    assert!(!config.ignore_case);
}

#[test]
fn build_without_file_path_fails() {
    let err = Config::build(&args(&["minigrep", "duct"]), false).err().unwrap();
    assert_eq!(ConfigError::MissingArgument(Argument::FilePath), err);
    assert_eq!("file path", Argument::FilePath.name());
}

#[test]
fn build_without_query_fails() {
    let err = Config::build(&args(&["minigrep"]), false).err().unwrap();
    assert_eq!(ConfigError::MissingArgument(Argument::Query), err);
    let err = Config::build(&args(&[]), false).err().unwrap();
    assert_eq!(ConfigError::MissingArgument(Argument::Query), err);
    assert_eq!("query string", Argument::Query.name());
}

#[test]
fn listed_commands() {
    assert!(is_listed_command("ls"));
    assert!(is_listed_command("pwd"));
    assert!(!is_listed_command("rm"));
    assert!(!is_listed_command("LS"));
    assert!(!is_listed_command("ls "));
    assert!(!is_listed_command(""));
}

#[test]
fn same_text_compares_characters() {
    assert!(same_text("", ""));
    assert!(same_text("héllo", "héllo"));
    assert!(!same_text("hello", "hell"));
    assert!(!same_text("hello", "hellO"));
}

#[test]
fn command_output_is_matched_exactly_even_when_ignoring_case() {
    let config = Config {
        query: "ls".to_string(),
        file_path: "src".to_string(),
        ignore_case: true,
    };
    assert!(is_listed_command(&config.query));
    let output = "Cargo.toml\nsrc\nSRC_OLD\ntests_src\n";
    assert_eq!(vec!["src", "tests_src"], search_command_output(&config, output));
}

#[test]
fn file_contents_follow_the_case_setting() {
    let contents = "Rust:\nsafe, fast, productive.\nPick three.\nTrust me.";
    let mut config = Config {
        query: "rUsT".to_string(),
        file_path: "poem.txt".to_string(),
        ignore_case: true,
    };
    assert_eq!(vec!["Rust:", "Trust me."], search_contents(&config, contents));
    config.ignore_case = false;
    let empty: Vec<&str> = Vec::new();
    assert_eq!(empty, search_contents(&config, contents));
}
