use cita_shell::tokenize::{tokenize, TokenizeError};

fn words(list: &[&str]) -> Vec<String> {
    list.iter().map(|word| word.to_string()).collect()
}

#[test]
fn splits_at_blanks() {
    assert_eq!(
        tokenize("rpc  blockNumber --height 5"),
        Ok(words(&["rpc", "blockNumber", "--height", "5"]))
    );
}

#[test]
fn blank_line_has_no_words() {
    assert_eq!(tokenize(""), Ok(Vec::new()));
    assert_eq!(tokenize("   \t "), Ok(Vec::new()));
}

#[test]
fn quotes_keep_blanks_and_are_removed() {
    assert_eq!(
        tokenize("key 'a b' \"c d\" e\\ f"),
        Ok(words(&["key", "a b", "c d", "e f"]))
    );
}

#[test]
fn double_quotes_keep_some_backslashes() {
    assert_eq!(tokenize("\"a\\\"b\" \"c\\d\""), Ok(words(&["a\"b", "c\\d"])));
}

#[test]
fn unterminated_double_quote_is_an_error() {
    assert_eq!(
        tokenize("echo \"unterminated"),
        Err(TokenizeError::MissingClosingQuote)
    );
}

#[test]
fn unterminated_single_quote_is_an_error() {
    assert_eq!(tokenize("echo 'open"), Err(TokenizeError::MissingClosingQuote));
}

#[test]
fn a_comment_ends_the_line() {
    assert_eq!(tokenize("info # rest"), Ok(words(&["info"])));
}
