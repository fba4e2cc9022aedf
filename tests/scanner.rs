use parrot::scanner::{Scanner, Token};
use parrot::script::{Filter, Parser, Script, Target};

#[test]
fn scan() {
    let mut scanner = Scanner::new();
    assert_eq!(
        vec![Token::Show, Token::Star, Token::EOS],
        scanner.scan(String::from("show    *"))
    );
    assert_eq!(
        vec![Token::Quit, Token::Quit, Token::EOS],
        scanner.scan(String::from("q quit"))
    );
    assert_eq!(
        vec![Token::Filter, Token::Sha(String::from("test")), Token::EOS],
        scanner.scan(String::from("f #test"))
    );
}

#[test]
fn scan_words_and_stars() {
    let mut scanner = Scanner::new();
    assert_eq!(
        scanner.scan(String::from("run*name#tag  update")),
        vec![
            Token::Run,
            Token::Star,
            Token::Lit(String::from("name")),
            Token::Sha(String::from("tag")),
            Token::Update,
            Token::EOS
        ]
    );
    assert_eq!(scanner.scan(String::from("")), vec![Token::EOS]);
}

fn parse(text: &str) -> Result<Script, String> {
    let mut scanner = Scanner::new();
    let mut parser = Parser::new();
    parser
        .parse(scanner.scan(String::from(text)))
        .map_err(|e| e.message)
}

#[test]
fn script_commands() {
    assert!(matches!(parse("quit"), Ok(Script::Quit)));
    assert!(matches!(parse("run"), Ok(Script::Run(Target::Selected))));
    assert!(matches!(parse("r *"), Ok(Script::Run(Target::All))));
    assert!(matches!(parse("show*"), Ok(Script::Show(Target::All))));
    match parse("f #tag") {
        Ok(Script::Filter(Filter::Tag(t))) => assert_eq!(t, "tag"),
        _ => panic!("expected a tag filter"),
    }
    match parse("filter name") {
        Ok(Script::Filter(Filter::Name(n))) => assert_eq!(n, "name"),
        _ => panic!("expected a name filter"),
    }
}

#[test]
fn script_errors() {
    assert_eq!(parse("quit now").err().unwrap(), "Quit takes no argument.");
    assert_eq!(parse("").err().unwrap(), "Please enter a valid command.");
    assert_eq!(parse("update").err().unwrap(), "Unexpected token: update.");
    assert_eq!(parse("run x").err().unwrap(), "Unexpected argument: x.");
    assert_eq!(
        parse("f *").err().unwrap(),
        "Filter expects a name or a tag as argument."
    );
    assert_eq!(parse("f a b").err().unwrap(), "Filter takes only one argument.");
    assert_eq!(parse("show * *").err().unwrap(), "Show takes one or zero argument.");
}
