use parrot::parser::{
    command, command_keyword, filter_arg, no_args_left, parse, target, Command, CommandKeyword,
    ErrorKind, Filter, Target,
};

#[test]
fn test_no_args_left() {
    let cmd = Command::Quit;
    let error = Err(ErrorKind::TooManyArguments(cmd.clone()));

    // Should succeed
    assert_eq!(no_args_left("", cmd.clone()), Ok(("", cmd.clone())));
    assert_eq!(no_args_left("    ", cmd.clone()), Ok(("", cmd.clone())));
    assert_eq!(no_args_left(" \t \n", cmd.clone()), Ok(("", cmd.clone())));

    // Should return an error
    assert_eq!(no_args_left("+", cmd.clone()), error);
    assert_eq!(no_args_left("  arg", cmd.clone()), error);
    assert_eq!(no_args_left("#tag ", cmd.clone()), error);
    assert_eq!(no_args_left(" ~ ", cmd.clone()), error);
}

#[test]
fn test_target() {
    let cmd = CommandKeyword::Run;

    // Should succeed
    assert_eq!(target("", cmd.clone()), Ok(("", Target::Selected)));
    assert_eq!(target("  ", cmd.clone()), Ok(("", Target::Selected)));
    assert_eq!(target("*", cmd.clone()), Ok(("", Target::All)));
    assert_eq!(target("  * ", cmd.clone()), Ok((" ", Target::All)));

    // Should return an error
    assert_eq!(
        target("a *", cmd.clone()),
        Err(ErrorKind::UnexpectedArgument(CommandKeyword::Run))
    )
}

#[test]
fn test_filter_arg() {
    // Should succeed
    assert_eq!(filter_arg("#test"), Ok(("", Filter::Tag(String::from("test")))));
    assert_eq!(filter_arg("test-2"), Ok(("", Filter::Name(String::from("test-2")))));
    assert_eq!(filter_arg("+"), Ok(("", Filter::Passed)));
    assert_eq!(filter_arg("-"), Ok(("", Filter::Failed)));
    assert_eq!(filter_arg("~"), Ok(("", Filter::Waiting)));
    assert_eq!(filter_arg(" #test "), Ok((" ", Filter::Tag(String::from("test")))));

    // Should return an error
    assert_eq!(
        filter_arg("@test"),
        Err(ErrorKind::UnexpectedArgument(CommandKeyword::Filter))
    );
}

#[test]
fn test_command_keyword() {
    let quit = |i| command_keyword(i, "quit", "q", CommandKeyword::Quit);

    // Should succeed
    assert_eq!(quit("q"), Ok(("", CommandKeyword::Quit)));
    assert_eq!(quit("quit"), Ok(("", CommandKeyword::Quit)));
    assert_eq!(quit(" \t \n\rquit"), Ok(("", CommandKeyword::Quit)));

    // Should return an error
    if let Ok((i, _)) = quit("qt") {
        panic!("Should have failed matching 'quit', got: {}", i);
    }
}

#[test]
fn test_command() {
    let ts = Target::Selected;
    let ta = Target::All;

    // Should succeed
    assert_eq!(command("q"), Ok(("", Command::Quit)));
    assert_eq!(command("quit"), Ok(("", Command::Quit)));
    assert_eq!(command("c"), Ok(("", Command::Clear)));
    assert_eq!(command("clear"), Ok(("", Command::Clear)));
    assert_eq!(command("h"), Ok(("", Command::Help)));
    assert_eq!(command("help"), Ok(("", Command::Help)));
    assert_eq!(command("e"), Ok(("", Command::Edit)));
    assert_eq!(command("edit"), Ok(("", Command::Edit)));
    assert_eq!(command(" \t \n\rquit "), Ok(("", Command::Quit)));
    assert_eq!(command("run"), Ok(("", Command::Run(Target::Selected))));
    assert_eq!(command("run *"), Ok(("", Command::Run(Target::All))));
    assert_eq!(command("r*"), Ok(("", Command::Run(Target::All))));
    assert_eq!(command("show"), Ok(("", Command::Show(Target::Selected))));
    assert_eq!(command("s*"), Ok(("", Command::Show(Target::All))));
    assert_eq!(command("update"), Ok(("", Command::Update(ts.clone()))));
    assert_eq!(command("u*"), Ok(("", Command::Update(ta.clone()))));
    assert_eq!(command("delete"), Ok(("", Command::Delete(ts.clone()))));
    assert_eq!(command("d*"), Ok(("", Command::Delete(ta.clone()))));
    assert_eq!(command("filter-"), Ok(("", Command::Filter(Filter::Failed))));
    assert_eq!(command("f-"), Ok(("", Command::Filter(Filter::Failed))));
    assert_eq!(command("f+"), Ok(("", Command::Filter(Filter::Passed))));
    assert_eq!(command("f~"), Ok(("", Command::Filter(Filter::Waiting))));
    assert_eq!(
        command("f#tag"),
        Ok(("", Command::Filter(Filter::Tag(String::from("tag")))))
    );
    assert_eq!(
        command("f name"),
        Ok(("", Command::Filter(Filter::Name(String::from("name")))))
    );

    // Should return an error
    assert_eq!(command("qt"), Err(ErrorKind::UnknownCommand));
    assert_eq!(
        command("quit *"),
        Err(ErrorKind::TooManyArguments(Command::Quit))
    );
    assert_eq!(
        command("run * *"),
        Err(ErrorKind::TooManyArguments(Command::Run(Target::All)))
    );
}

#[test]
fn parse_quit_forms() {
    assert_eq!(parse("q"), Ok(Command::Quit));
    assert_eq!(parse("quit"), Ok(Command::Quit));
    assert_eq!(parse("qt"), Err(String::from("Unknown command")));
    assert_eq!(parse("quit *"), Err(String::from("Too many arguments in quit")));
}

#[test]
fn parse_run_targets() {
    assert_eq!(parse("run"), Ok(Command::Run(Target::Selected)));
    assert_eq!(parse("run *"), Ok(Command::Run(Target::All)));
    assert_eq!(parse("r*"), Ok(Command::Run(Target::All)));
    assert_eq!(parse("run * *"), Err(String::from("Too many arguments in run")));
    assert_eq!(
        command("run * *"),
        Err(ErrorKind::TooManyArguments(Command::Run(Target::All)))
    );
}

#[test]
fn parse_filters() {
    assert_eq!(parse("f#abc"), Ok(Command::Filter(Filter::Tag(String::from("abc")))));
    assert_eq!(parse("f abc-1"), Ok(Command::Filter(Filter::Name(String::from("abc-1")))));
    assert_eq!(parse("f-"), Ok(Command::Filter(Filter::Failed)));
    assert_eq!(parse("f+"), Ok(Command::Filter(Filter::Passed)));
    assert_eq!(parse("f~"), Ok(Command::Filter(Filter::Waiting)));
    assert_eq!(parse("f @x"), Err(String::from("Unexpected argument in filter")));
    assert_eq!(
        command("f @x"),
        Err(ErrorKind::UnexpectedArgument(CommandKeyword::Filter))
    );
    // `@` is no separator, so no keyword stands at the start.
    assert_eq!(parse("f@x"), Err(String::from("Unknown command")));
}

#[test]
fn parse_errors_and_messages() {
    assert_eq!(parse(""), Err(String::from("Unknown command")));
    assert_eq!(parse("show x"), Err(String::from("Unexpected argument in show")));
    assert_eq!(parse("filter"), Err(String::from("Unexpected argument in filter")));
    assert_eq!(parse("f # x"), Err(String::from("Unexpected argument in filter")));
    assert_eq!(parse("f -x"), Err(String::from("Too many arguments in filter")));
    assert_eq!(parse("delete *"), Ok(Command::Delete(Target::All)));
    assert_eq!(parse("u"), Ok(Command::Update(Target::Selected)));
    assert_eq!(
        ErrorKind::TooManyArguments(Command::Edit).message(),
        "Too many arguments in edit"
    );
}
