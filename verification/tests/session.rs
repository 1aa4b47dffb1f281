use ansi_term::Colour::Yellow;
use cita_shell::config::{render_rows, GlobalConfig};

fn fresh() -> GlobalConfig {
    GlobalConfig::new("http://127.0.0.1:1337".to_string(), "/home/user".to_string())
}

fn pairs(list: &[(&str, &str)]) -> Vec<(String, String)> {
    list.iter().map(|(label, value)| (label.to_string(), value.to_string())).collect()
}

#[test]
fn session_starts_with_its_defaults() {
    let config = fresh();
    assert!(config.color());
    assert!(config.json_format());
    assert!(!config.debug());
    assert!(!config.blake2b());
    assert_eq!(config.url(), "http://127.0.0.1:1337");
    assert_eq!(config.path(), "/home/user");
}

#[test]
fn each_switch_flips_one_value() {
    let mut config = fresh();
    config.switch_color();
    assert!(!config.color());
    assert!(config.json_format() && !config.debug() && !config.blake2b());
    config.switch_debug();
    assert!(config.debug());
    assert!(!config.color() && config.json_format() && !config.blake2b());
    config.switch_format();
    assert!(!config.json_format());
    assert!(!config.color() && config.debug() && !config.blake2b());
    config.switch_encryption();
    assert!(config.blake2b());
    assert!(!config.color() && config.debug() && !config.json_format());
    assert_eq!(config.url(), "http://127.0.0.1:1337");
    assert_eq!(config.path(), "/home/user");
}

#[test]
fn switching_twice_restores_the_value() {
    let mut config = fresh();
    config.switch_color();
    config.switch_color();
    config.switch_debug();
    config.switch_debug();
    config.switch_format();
    config.switch_format();
    config.switch_encryption();
    config.switch_encryption();
    assert_eq!(config.rows(), fresh().rows());
    assert_eq!(config.render(), fresh().render());
}

#[test]
fn set_url_changes_the_address_only() {
    let mut config = fresh();
    config.set_url("http://other:80".to_string());
    assert_eq!(config.url(), "http://other:80");
    assert_eq!(config.path(), "/home/user");
    assert!(config.color() && config.json_format() && !config.debug() && !config.blake2b());
}

#[test]
fn rows_come_in_a_fixed_order() {
    let mut config = fresh();
    assert_eq!(
        config.rows(),
        pairs(&[
            ("url", "http://127.0.0.1:1337"),
            ("pwd", "/home/user"),
            ("color", "true"),
            ("debug", "false"),
            ("json", "true"),
            ("encryption", "sha3_hash"),
        ])
    );
    config.switch_encryption();
    config.switch_color();
    assert_eq!(config.rows()[2], ("color".to_string(), "false".to_string()));
    assert_eq!(config.rows()[5], ("encryption".to_string(), "blake2b_hash".to_string()));
}

#[test]
fn listing_is_centred_and_yellow() {
    let expected = "[    url     ]: \u{1b}[33mhttp://127.0.0.1:1337\u{1b}[0m\n\
                    [    pwd     ]: \u{1b}[33m/home/user\u{1b}[0m\n\
                    [   color    ]: \u{1b}[33mtrue\u{1b}[0m\n\
                    [   debug    ]: \u{1b}[33mfalse\u{1b}[0m\n\
                    [    json    ]: \u{1b}[33mtrue\u{1b}[0m\n\
                    [ encryption ]: \u{1b}[33msha3_hash\u{1b}[0m";
    assert_eq!(fresh().render(), expected);
}

#[test]
fn listing_agrees_with_the_formatter() {
    let config = fresh();
    let lines: Vec<String> = config
        .rows()
        .iter()
        .map(|(label, value)| format!("[{:^width$}]: {}", label, Yellow.paint(value.as_str()), width = 12))
        .collect();
    assert_eq!(config.render(), lines.join("\n"));
}

#[test]
fn rendering_leaves_the_session_alone() {
    let config = fresh();
    let first = config.render();
    let second = config.render();
    assert_eq!(first, second);
    assert!(config.color() && config.json_format() && !config.debug() && !config.blake2b());
}

#[test]
fn label_field_is_two_wider_than_the_longest_label() {
    assert_eq!(
        render_rows(&pairs(&[("a", "1"), ("abcd", "2"), ("ab", "")])),
        "[  a   ]: \u{1b}[33m1\u{1b}[0m\n[ abcd ]: \u{1b}[33m2\u{1b}[0m\n[  ab  ]: \u{1b}[33m\u{1b}[0m"
    );
    assert_eq!(render_rows(&pairs(&[("", "v")])), "[  ]: \u{1b}[33mv\u{1b}[0m");
    assert_eq!(render_rows(&Vec::new()), "");
}
