use civa::alias::{parse_alias_line, AliasSystem};
use civa::text::{decimal_text, split_char, trim_end_str, trim_str, unquote_str};
use civa::tokenizer::tokenize;

#[test]
fn tokenize_quotes_and_white_space() {
    assert_eq!(tokenize("  ls\t-la  "), vec!["ls", "-la"]);
    assert_eq!(tokenize("echo \"a b\" c"), vec!["echo", "\"a b\"", "c"]);
    assert_eq!(tokenize("echo \"a b"), vec!["echo", "\"a", "b"]);
    assert_eq!(tokenize("x\"a b\""), vec!["x\"a", "b\""]);
    assert_eq!(tokenize("\"a\" \"b\""), vec!["\"a\" \"b\""]);
    assert!(tokenize("").is_empty());
}

#[test]
fn text_helpers() {
    assert_eq!(trim_str("  a b \t"), "a b");
    assert_eq!(trim_str("   "), "");
    assert_eq!(trim_end_str("master\n"), "master");
    assert_eq!(unquote_str("\"x y\""), "x y");
    assert_eq!(unquote_str("\""), "\"");
    assert_eq!(split_char("a\nb", '\n'), vec!["a", "b"]);
    assert_eq!(decimal_text(0), "0");
    assert_eq!(decimal_text(1207), "1207");
}

#[test]
fn alias_lines() {
    assert_eq!(
        parse_alias_line("alias ll='ls -l'"),
        Some((String::from("ll"), String::from("ls -l")))
    );
    assert_eq!(
        parse_alias_line("alias g.s = \"git status\" # note"),
        Some((String::from("g.s"), String::from("git status")))
    );
    assert_eq!(parse_alias_line("alias ll=ls"), None);
    assert_eq!(parse_alias_line("alias ='x'"), None);
    assert_eq!(parse_alias_line("unalias x='y'"), None);
}

#[test]
fn alias_config_reads_definitions() {
    let text = "# aliases\n\nalias ll='ls -l'\n   alias la=\"ls -a\"  \nalias ll='ls -la'\n";
    let table = AliasSystem::from_config(text).unwrap();
    assert_eq!(table.get_alias(String::from("ll")), Some(&String::from("ls -la")));
    assert_eq!(table.get_alias(String::from("la")), Some(&String::from("ls -a")));
}

#[test]
fn alias_config_names_the_bad_line() {
    let text = "alias ll='ls -l'\n\nthis is wrong\nalso wrong";
    match AliasSystem::from_config(text) {
        Err(err) => assert_eq!(err.message, "Error on line 2"),
        Ok(_) => panic!("the third line is not a definition"),
    }
}
