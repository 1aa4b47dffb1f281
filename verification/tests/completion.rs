use cita_shell::complete::{complete_in, get_complete_strings, select, CitaCompleter, Folded};
use cita_shell::tokenize::TokenizeError;
use cita_shell::tree::{ArgDef, CommandNode};

fn words(list: &[&str]) -> Vec<String> {
    list.iter().map(|word| word.to_string()).collect()
}

fn node(name: &str) -> CommandNode {
    CommandNode::new(name.to_string())
}

fn long(name: &str) -> ArgDef {
    ArgDef { short: None, long: Some(name.to_string()) }
}

fn short(letter: char) -> ArgDef {
    ArgDef { short: Some(letter), long: None }
}

fn both(letter: char, name: &str) -> ArgDef {
    ArgDef { short: Some(letter), long: Some(name.to_string()) }
}

fn top_level() -> CommandNode {
    let function = node("function").flag(long("detail")).option(long("edit"));
    let encode = node("encode").subcommand(function).unwrap();
    let abi = node("abi").subcommand(encode).unwrap();
    let rpc = node("rpc")
        .subcommand(
            node("blockNumber")
                .flag(both('d', "debug"))
                .flag(short('q'))
                .option(both('u', "url"))
                .option(long("height")),
        )
        .unwrap();
    let switch = node("switch")
        .option(long("host"))
        .flag(long("color"))
        .flag(long("json"))
        .flag(long("debug"))
        .flag(long("algorithm"));
    CommandNode::root()
        .subcommand(rpc)
        .unwrap()
        .subcommand(abi)
        .unwrap()
        .subcommand(node("key"))
        .unwrap()
        .subcommand(node("info"))
        .unwrap()
        .subcommand(node("exit"))
        .unwrap()
        .subcommand(switch)
        .unwrap()
}

fn folded(list: &[&str]) -> Vec<Folded> {
    list.iter()
        .map(|text| Folded { text: text.to_string(), lower: text.to_lowercase() })
        .collect()
}

fn pick(pool: &[&str], word: &str) -> Option<Vec<String>> {
    select(&folded(pool), word, &word.to_lowercase())
}

#[test]
fn pool_lists_names_then_flags_then_options() {
    let command = node("blockNumber")
        .option(both('u', "url"))
        .flag(both('d', "debug"))
        .subcommand(node("latest"))
        .unwrap()
        .flag(short('q'))
        .option(long("height"));
    assert_eq!(
        get_complete_strings(&command, &Vec::new()),
        words(&["latest", "-d", "--debug", "-q", "-u", "--url", "--height"])
    );
}

#[test]
fn pool_of_a_bare_node_is_empty() {
    assert!(get_complete_strings(&node("info"), &Vec::new()).is_empty());
    assert!(get_complete_strings(&node("info"), &words(&["--x"])).is_empty());
}

#[test]
fn pool_leaves_out_what_was_typed() {
    let command = node("blockNumber").flag(both('d', "debug")).option(both('u', "url"));
    assert_eq!(
        get_complete_strings(&command, &words(&["--debug", "-u", "--other"])),
        words(&["-d", "--url"])
    );
}

#[test]
fn pool_holds_each_string_once() {
    let command = node("x")
        .flag(both('v', "verbose"))
        .flag(long("verbose"))
        .option(short('v'))
        .option(long("value"));
    assert_eq!(
        get_complete_strings(&command, &Vec::new()),
        words(&["-v", "--verbose", "--value"])
    );
}

#[test]
fn single_substring_match_is_taken_alone() {
    assert_eq!(
        pick(&["--detail", "--edit", "--height"], "it"),
        Some(words(&["--edit"]))
    );
}

#[test]
fn single_match_ignores_letter_case() {
    assert_eq!(pick(&["rpc", "abi", "key"], "RPC"), Some(words(&["rpc"])));
    assert_eq!(pick(&["getBlock", "abi"], "block"), Some(words(&["getBlock"])));
    assert_eq!(pick(&["getBlock", "abi"], "BLOCK"), Some(words(&["getBlock"])));
}

#[test]
fn top_level_pool_with_r_gives_rpc() {
    assert_eq!(
        pick(&["rpc", "abi", "key", "info", "exit", "switch"], "r"),
        Some(words(&["rpc"]))
    );
}

#[test]
fn several_substring_matches_fall_back_to_prefixes() {
    assert_eq!(
        pick(&["rpc", "abi", "key", "info", "exit", "switch"], "i"),
        Some(words(&["info"]))
    );
    assert_eq!(
        pick(&["--detail", "--debug", "--edit"], "--de"),
        Some(words(&["--detail", "--debug"]))
    );
}

#[test]
fn prefixes_are_matched_with_letter_case() {
    assert_eq!(pick(&["Rpc", "rpm", "abi"], "R"), Some(words(&["Rpc"])));
    assert_eq!(pick(&["Rpc", "rpm", "abi"], "r"), Some(words(&["rpm"])));
}

#[test]
fn no_prefix_match_offers_nothing() {
    assert_eq!(pick(&["exit", "edit"], "it"), None);
    assert_eq!(pick(&["rpc", "abi"], "zzz"), None);
}

#[test]
fn empty_word_gets_the_whole_pool() {
    assert_eq!(
        pick(&["rpc", "abi", "key", "info", "exit", "switch"], ""),
        Some(words(&["rpc", "abi", "key", "info", "exit", "switch"]))
    );
    assert_eq!(pick(&["only"], ""), Some(words(&["only"])));
}

#[test]
fn empty_pool_offers_nothing() {
    assert_eq!(pick(&[], ""), None);
    assert_eq!(pick(&[], "x"), None);
}

#[test]
fn select_reads_the_lowercase_forms_it_is_given() {
    let candidates = vec![
        Folded { text: "Alpha".to_string(), lower: "one".to_string() },
        Folded { text: "Beta".to_string(), lower: "two".to_string() },
    ];
    assert_eq!(select(&candidates, "Q", "tw"), Some(words(&["Beta"])));
    assert_eq!(select(&candidates, "Al", "o"), Some(words(&["Alpha"])));
}

#[test]
fn node_completion_folds_case_by_itself() {
    let root = top_level();
    assert_eq!(complete_in(&root, &Vec::new(), "SWI"), Some(words(&["switch"])));
    assert_eq!(complete_in(&root, &Vec::new(), "Ey"), Some(words(&["key"])));
    assert_eq!(
        complete_in(&root, &Vec::new(), ""),
        Some(words(&["rpc", "abi", "key", "info", "exit", "switch"]))
    );
}

#[test]
fn completion_at_the_start_of_a_line() {
    let completer = CitaCompleter::new(top_level());
    assert_eq!(completer.complete("r", ""), Ok(Some(words(&["rpc"]))));
    assert_eq!(
        completer.complete("", ""),
        Ok(Some(words(&["rpc", "abi", "key", "info", "exit", "switch"])))
    );
}

#[test]
fn completion_below_a_command() {
    let completer = CitaCompleter::new(top_level());
    assert_eq!(
        completer.complete("", "rpc blockNumber "),
        Ok(Some(words(&["-d", "--debug", "-q", "-u", "--url", "--height"])))
    );
    assert_eq!(
        completer.complete("--h", "rpc blockNumber "),
        Ok(Some(words(&["--height"])))
    );
    assert_eq!(completer.complete("", "switch "), Ok(Some(words(&[
        "--color",
        "--json",
        "--debug",
        "--algorithm",
        "--host"
    ]))));
}

#[test]
fn completion_never_repeats_a_typed_flag() {
    let completer = CitaCompleter::new(top_level());
    assert_eq!(
        completer.complete("", "rpc blockNumber --debug -u http://x "),
        Ok(Some(words(&["-d", "-q", "--url", "--height"])))
    );
    assert_eq!(
        completer.complete("--", "rpc blockNumber --url --height "),
        Ok(Some(words(&["--debug"])))
    );
}

#[test]
fn a_flag_among_the_words_read_fails_resolution() {
    let completer = CitaCompleter::new(top_level());
    assert_eq!(completer.complete("--", "switch --color "), Ok(None));
    assert_eq!(completer.complete("", "rpc --debug blockNumber "), Ok(None));
}

#[test]
fn completion_ignores_words_beyond_the_depth() {
    let completer = CitaCompleter::new(top_level());
    assert_eq!(
        completer.complete("", "abi encode function extra tokens "),
        Ok(Some(words(&["--detail", "--edit"])))
    );
    assert_eq!(
        completer.complete("it", "abi encode function extra tokens "),
        Ok(Some(words(&["--edit"])))
    );
    assert_eq!(
        completer.complete("--he", "rpc blockNumber nonsense more "),
        Ok(Some(words(&["--height"])))
    );
}

#[test]
fn completion_reads_three_words_only_below_abi() {
    let deep = node("rpc")
        .subcommand(node("a").subcommand(node("b").flag(long("deep"))).unwrap().flag(long("mid")))
        .unwrap();
    let completer = CitaCompleter::new(CommandNode::root().subcommand(deep).unwrap());
    assert_eq!(completer.complete("", "rpc a b "), Ok(Some(words(&["b", "--mid"]))));
}

#[test]
fn completion_fails_where_resolution_fails() {
    let completer = CitaCompleter::new(top_level());
    assert_eq!(completer.complete("", "nope "), Ok(None));
    assert_eq!(completer.complete("x", "rpc nope "), Ok(None));
    assert_eq!(completer.complete("", "info "), Ok(None));
}

#[test]
fn completion_of_an_open_quote_is_an_error() {
    let completer = CitaCompleter::new(top_level());
    assert_eq!(
        completer.complete("x", "rpc \"open "),
        Err(TokenizeError::MissingClosingQuote)
    );
}

#[test]
fn completion_over_words_given() {
    let completer = CitaCompleter::new(top_level());
    assert_eq!(
        completer.complete_tokens(&words(&["rpc", "blockNumber", "--height"]), "-"),
        Ok::<Option<Vec<String>>, ()>(Some(words(&["-d", "--debug", "-q", "-u", "--url"]))).unwrap()
    );
}
