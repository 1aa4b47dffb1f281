use cita_shell::parsed::{get_command_chain, ParsedArgs, ParsedCommand};

fn words(list: &[&str]) -> Vec<String> {
    list.iter().map(|word| word.to_string()).collect()
}

fn command(name: &str, matches: ParsedArgs) -> Option<Box<ParsedCommand>> {
    Some(Box::new(ParsedCommand { name: name.to_string(), matches }))
}

#[test]
fn chain_of_no_subcommand_is_empty() {
    assert!(get_command_chain(&ParsedArgs::new()).is_empty());
}

#[test]
fn chain_lists_subcommands_outermost_first() {
    let function = ParsedArgs { present: words(&["detail"]), values: Vec::new(), subcommand: None };
    let encode = ParsedArgs {
        present: Vec::new(),
        values: Vec::new(),
        subcommand: command("function", function),
    };
    let abi = ParsedArgs { present: Vec::new(), values: Vec::new(), subcommand: command("encode", encode) };
    let line = ParsedArgs { present: Vec::new(), values: Vec::new(), subcommand: command("abi", abi) };
    assert_eq!(get_command_chain(&line), words(&["abi", "encode", "function"]));
}

#[test]
fn presence_goes_by_the_whole_name() {
    let matches = ParsedArgs {
        present: words(&["color", "host"]),
        values: vec![("host".to_string(), "http://x".to_string())],
        subcommand: None,
    };
    assert!(matches.is_present("color"));
    assert!(matches.is_present("host"));
    assert!(!matches.is_present("json"));
    assert!(!matches.is_present("colo"));
    assert!(!matches.is_present("Color"));
    assert!(!matches.is_present(""));
}

#[test]
fn value_is_that_of_the_first_pair() {
    let matches = ParsedArgs {
        present: words(&["host"]),
        values: vec![
            ("height".to_string(), "5".to_string()),
            ("host".to_string(), "http://first".to_string()),
            ("host".to_string(), "http://second".to_string()),
        ],
        subcommand: None,
    };
    assert_eq!(matches.value_of("host"), Some(&"http://first".to_string()));
    assert_eq!(matches.value_of("height"), Some(&"5".to_string()));
    assert_eq!(matches.value_of("color"), None);
    assert_eq!(ParsedArgs::new().value_of("host"), None);
}
