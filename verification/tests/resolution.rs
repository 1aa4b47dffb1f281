use cita_shell::complete::{resolution_depth, truncate_prefix, used_flags, CitaCompleter};
use cita_shell::tree::{find_child, ArgDef, CommandNode};

fn words(list: &[&str]) -> Vec<String> {
    list.iter().map(|word| word.to_string()).collect()
}

fn node(name: &str) -> CommandNode {
    CommandNode::new(name.to_string())
}

fn long(name: &str) -> ArgDef {
    ArgDef { short: None, long: Some(name.to_string()) }
}

fn both(letter: char, name: &str) -> ArgDef {
    ArgDef { short: Some(letter), long: Some(name.to_string()) }
}

fn grammar() -> CommandNode {
    let function = node("function").flag(long("detail"));
    let encode = node("encode")
        .subcommand(function)
        .unwrap()
        .subcommand(node("params"))
        .unwrap();
    let abi = node("abi")
        .subcommand(encode)
        .unwrap()
        .subcommand(node("decode"))
        .unwrap();
    let rpc = node("rpc")
        .subcommand(node("blockNumber").option(both('u', "url")))
        .unwrap()
        .subcommand(node("getBlockByNumber").option(long("height")))
        .unwrap();
    let key = node("key").subcommand(node("create")).unwrap();
    let switch = node("switch")
        .option(long("host"))
        .flag(long("color"))
        .flag(long("json"))
        .flag(long("debug"))
        .flag(long("algorithm"));
    CommandNode::root()
        .subcommand(rpc)
        .unwrap()
        .subcommand(abi)
        .unwrap()
        .subcommand(key)
        .unwrap()
        .subcommand(node("info"))
        .unwrap()
        .subcommand(node("exit"))
        .unwrap()
        .subcommand(switch)
        .unwrap()
}

fn resolved_name(root: &CommandNode, tokens: &[&str]) -> Option<String> {
    CitaCompleter::find_subcommand(root, &words(tokens)).map(|found| found.name().clone())
}

#[test]
fn no_words_resolve_to_the_root() {
    let root = grammar();
    let found = CitaCompleter::find_subcommand(&root, &Vec::new()).unwrap();
    assert_eq!(found.name(), "");
    assert_eq!(found.children().len(), 6);
}

#[test]
fn words_walk_down_the_tree() {
    let root = grammar();
    assert_eq!(resolved_name(&root, &["rpc"]), Some("rpc".to_string()));
    assert_eq!(
        resolved_name(&root, &["rpc", "blockNumber"]),
        Some("blockNumber".to_string())
    );
    assert_eq!(
        resolved_name(&root, &["abi", "encode", "function"]),
        Some("function".to_string())
    );
}

#[test]
fn an_unknown_word_fails_resolution() {
    let root = grammar();
    assert_eq!(resolved_name(&root, &["nope"]), None);
    assert_eq!(resolved_name(&root, &["rpc", "nope"]), None);
    assert_eq!(resolved_name(&root, &["rpc", "blockNumber", "deeper"]), None);
}

#[test]
fn names_are_matched_exactly() {
    let root = grammar();
    assert_eq!(resolved_name(&root, &["RPC"]), None);
    assert_eq!(resolved_name(&root, &["rp"]), None);
    assert_eq!(resolved_name(&root, &["rpc", "blocknumber"]), None);
}

#[test]
fn resolving_twice_gives_the_same_node() {
    let root = grammar();
    let tokens = words(&["abi", "encode"]);
    let first = CitaCompleter::find_subcommand(&root, &tokens).unwrap();
    let second = CitaCompleter::find_subcommand(&root, &tokens).unwrap();
    assert!(std::ptr::eq(first, second));
    let failing = words(&["abi", "nope"]);
    assert!(CitaCompleter::find_subcommand(&root, &failing).is_none());
    assert!(CitaCompleter::find_subcommand(&root, &failing).is_none());
}

#[test]
fn depth_is_three_below_abi_and_two_elsewhere() {
    assert_eq!(resolution_depth(&"abi".to_string()), 3);
    assert_eq!(resolution_depth(&"rpc".to_string()), 2);
    assert_eq!(resolution_depth(&"ABI".to_string()), 2);
    assert_eq!(resolution_depth(&"".to_string()), 2);
    assert_eq!(resolution_depth(&"--abi".to_string()), 2);
}

#[test]
fn abi_prefix_keeps_three_words() {
    let mut tokens = words(&["abi", "encode", "function", "extra", "tokens"]);
    truncate_prefix(&mut tokens);
    assert_eq!(tokens, words(&["abi", "encode", "function"]));
    let root = grammar();
    assert_eq!(
        CitaCompleter::find_subcommand(&root, &tokens).unwrap().name(),
        "function"
    );
}

#[test]
fn other_prefix_keeps_two_words() {
    let mut tokens = words(&["rpc", "blockNumber", "--url", "http://x", "more"]);
    truncate_prefix(&mut tokens);
    assert_eq!(tokens, words(&["rpc", "blockNumber"]));
}

#[test]
fn short_prefix_is_left_alone() {
    let mut none: Vec<String> = Vec::new();
    truncate_prefix(&mut none);
    assert!(none.is_empty());
    let mut one = words(&["abi"]);
    truncate_prefix(&mut one);
    assert_eq!(one, words(&["abi"]));
    let mut two = words(&["abi", "encode"]);
    truncate_prefix(&mut two);
    assert_eq!(two, words(&["abi", "encode"]));
    let mut exact = words(&["key", "create"]);
    truncate_prefix(&mut exact);
    assert_eq!(exact, words(&["key", "create"]));
}

#[test]
fn used_flags_are_the_words_with_a_dash() {
    let tokens = words(&["rpc", "blockNumber", "--url", "http://x", "-u", "-", "a-b", ""]);
    assert_eq!(used_flags(&tokens), words(&["--url", "-u", "-"]));
}

#[test]
fn a_second_child_of_one_name_is_refused() {
    let parent = node("rpc").subcommand(node("call")).unwrap();
    let refused = parent.subcommand(node("call").flag(long("x")));
    let parent = refused.unwrap_err();
    assert_eq!(parent.children().len(), 1);
    assert!(parent.has_child(&"call".to_string()));
    assert!(!parent.has_child(&"Call".to_string()));
    assert!(parent.children()[0].flags().is_empty());
}

#[test]
fn find_child_gives_the_named_child() {
    let root = grammar();
    assert_eq!(find_child(&root, &"key".to_string()).unwrap().name(), "key");
    assert!(find_child(&root, &"".to_string()).is_none());
}

#[test]
fn the_root_of_a_completer_has_no_name() {
    let named = node("cita-cli").flag(long("help")).subcommand(node("rpc")).unwrap();
    let completer = CitaCompleter::new(named);
    assert_eq!(completer.root().name(), "");
    assert_eq!(completer.root().children().len(), 1);
    assert_eq!(completer.root().flags().len(), 1);
    assert_eq!(completer.complete("", ""), Ok(Some(words(&["rpc", "--help"]))));
    assert_eq!(completer.complete("", "cita-cli "), Ok(None));
    let root = node("x").option(both('a', "all")).into_root();
    assert_eq!(root.name(), "");
    assert_eq!(root.options().len(), 1);
}
