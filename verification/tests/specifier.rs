use npm_powertoys::classify::declared_minimum;
use npm_powertoys::specifier::parsable;

/// Every text of up to `length` characters out of `alphabet`, each behind `prefix`.
fn texts(prefix: &str, alphabet: &[char], length: usize) -> Vec<String> {
    let mut all = vec![prefix.to_string()];
    let mut last = vec![prefix.to_string()];
    for _ in 0..length {
        let mut next = Vec::new();
        for text in &last {
            for c in alphabet {
                let mut longer = text.clone();
                longer.push(*c);
                next.push(longer);
            }
        }
        all.extend(next.iter().cloned());
        last = next;
    }
    all
}

/// Hands every text that can be parsed to the parser, which must return.
fn parse_all(prefix: &str, alphabet: &[char], length: usize) -> usize {
    let mut parsed = 0;
    for text in texts(prefix, alphabet, length) {
        if parsable(&text) {
            let _ = declared_minimum(&text);
            parsed += 1;
        }
    }
    parsed
}

#[test]
fn parser_returns_on_short_texts() {
    let alphabet = [
        '=', '~', '>', '<', '^', 'v', 'x', 'X', '*', '0', '1', '.', ' ', '\t', '|', '-', '+', 'a',
    ];
    assert!(parse_all("", &alphabet, 4) > 0);
}

#[test]
fn parser_returns_behind_equals() {
    let alphabet = ['1', '3', 'x', '*', '.', 'v', ' ', '-', '='];
    for prefix in ["=", "= ", "=v", "1 =", "1||=", "1 || =", ">=", "<="] {
        assert!(parse_all(prefix, &alphabet, 4) > 0);
    }
}

#[test]
fn parser_returns_behind_tilde() {
    let alphabet = ['1', '3', 'x', '*', '.', 'v', ' ', '>'];
    for prefix in ["~", "~>", "~ ", "~> ", "1 ~", "1||~", "~1", "~1.", "~1.x", "~1.x."] {
        assert!(parse_all(prefix, &alphabet, 4) > 0);
    }
}

#[test]
fn parser_returns_behind_other_operators() {
    let alphabet = ['1', 'x', '*', '.', 'v', ' ', '~', '=', '-'];
    for prefix in ["^", ">", "<", "1 - ", " - ", "1.x -", "x ", "v"] {
        assert!(parse_all(prefix, &alphabet, 4) > 0);
    }
}

#[test]
fn refused_texts_are_few() {
    // Of the texts of two characters, only those that put `=` or `~` right
    // before a wildcard are refused.
    let alphabet = ['=', '~', '>', '<', '^', 'v', 'x', 'X', '*', '1', '.', ' ', '|'];
    let mut refused = Vec::new();
    for text in texts("", &alphabet, 2) {
        if !parsable(&text) {
            refused.push(text);
        }
    }
    refused.sort();
    assert_eq!(refused, vec!["=*", "=X", "=x", "~*", "~X", "~x"]);
}
