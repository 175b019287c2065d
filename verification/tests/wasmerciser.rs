use krustlet::wasmerciser::{
    Command, CommandToken, DataSource, Environment, ExerciseError, ParseError, TestContext,
    Variable,
};

fn parse_command(text: &str) -> Result<Command, ParseError> {
    Command::parse(text.to_owned())
}

fn parse_tokens(text: &str) -> Result<Vec<CommandToken>, ParseError> {
    CommandToken::parse(text.to_owned())
}

struct FakeEnv;

impl Environment for FakeEnv {
    fn get_env_var(&self, name: &str) -> Option<String> {
        if name == "test1" {
            Some("one".to_owned())
        } else {
            None
        }
    }

    fn file_exists(&self, path: &str) -> bool {
        path == "/fizz/buzz.txt"
    }

    fn file_content(&self, path: &str) -> Option<String> {
        if path == "/fizz/buzz.txt" {
            Some("fizzbuzz!".to_owned())
        } else {
            None
        }
    }
}

fn fake_env() -> FakeEnv {
    FakeEnv
}

#[test]
fn tokenise_one_plain() {
    let tokens = parse_tokens("fie").expect("Unexpected parsing error");
    assert_eq!(1, tokens.len());
    assert_eq!(CommandToken::Plain("fie".to_owned()), tokens[0]);
}

#[test]
fn tokenise_one_bracketed() {
    let tokens = parse_tokens("(fie)").expect("Unexpected parsing error");
    assert_eq!(1, tokens.len());
    assert_eq!(CommandToken::Bracketed("fie".to_owned()), tokens[0]);
}

#[test]
fn tokenise_two() {
    let tokens = parse_tokens("assert_exists(file:foo)").expect("Unexpected parsing error");
    assert_eq!(2, tokens.len());
    assert_eq!(CommandToken::Plain("assert_exists".to_owned()), tokens[0]);
    assert_eq!(CommandToken::Bracketed("file:foo".to_owned()), tokens[1]);
}

#[test]
fn tokenise_three() {
    let tokens = parse_tokens("foo(bar)quux").expect("Unexpected parsing error");
    assert_eq!(3, tokens.len());
    assert_eq!(CommandToken::Plain("foo".to_owned()), tokens[0]);
    assert_eq!(CommandToken::Bracketed("bar".to_owned()), tokens[1]);
    assert_eq!(CommandToken::Plain("quux".to_owned()), tokens[2]);
}

#[test]
fn tokenise_four() {
    let tokens = parse_tokens("read(file:foo)to(var:ftext)").expect("Unexpected parsing error");
    assert_eq!(4, tokens.len());
    assert_eq!(CommandToken::Plain("read".to_owned()), tokens[0]);
    assert_eq!(CommandToken::Bracketed("file:foo".to_owned()), tokens[1]);
    assert_eq!(CommandToken::Plain("to".to_owned()), tokens[2]);
    assert_eq!(CommandToken::Bracketed("var:ftext".to_owned()), tokens[3]);
}

#[test]
fn parse_single_assert() {
    let command = parse_command("assert_exists(file:foo)").expect("Unexpected parsing error");
    match command {
        Command::AssertExists(DataSource::File(f)) => {
            assert_eq!(f, "foo", "Expected file 'foo' but got {}", f)
        }
        _ => assert!(false, "Expected AssertExists but got {:?}", command),
    }
}

#[test]
fn parse_single_read() {
    let command = parse_command("read(file:foo)to(var:ftext)").expect("Unexpected parsing error");
    match command {
        Command::Read(DataSource::File(f), Variable(v)) => {
            assert_eq!(f, "foo", "Expected source file 'foo' but got {}", f);
            assert_eq!(v, "ftext", "Expected dest var 'ftext' but got {}", v);
        }
        _ => assert!(false, "Expected Read but got {:?}", command),
    }
}

#[test]
fn process_assert_file_exists_ok_when_exists() {
    let mut context = TestContext::new(fake_env());
    context
        .process_command_text("assert_exists(file:/fizz/buzz.txt)".to_owned())
        .unwrap();
}

#[test]
#[should_panic]
fn process_assert_file_exists_panics_when_doesnt_exist() {
    let mut context = TestContext::new(fake_env());
    context
        .process_command_text("assert_exists(file:/nope/nope/nope)".to_owned())
        .unwrap();
}

#[test]
fn process_assert_env_var_exists_ok_when_exists() {
    let mut context = TestContext::new(fake_env());
    context
        .process_command_text("assert_exists(env:test1)".to_owned())
        .unwrap();
}

#[test]
#[should_panic]
fn process_assert_env_var_exists_panics_when_doesnt_exist() {
    let mut context = TestContext::new(fake_env());
    context
        .process_command_text("assert_exists(env:nope)".to_owned())
        .unwrap();
}

#[test]
fn process_read_file_updates_when_exists() {
    let mut context = TestContext::new(fake_env());
    context
        .process_command_text("read(file:/fizz/buzz.txt)to(var:ftest)".to_owned())
        .unwrap();
    assert_eq!(context.variable("ftest").unwrap(), "fizzbuzz!");
}

#[test]
fn process_read_env_var_updates_when_exists() {
    let mut context = TestContext::new(fake_env());
    context
        .process_command_text("read(env:test1)to(var:etest)".to_owned())
        .unwrap();
    assert_eq!(context.variable("etest").unwrap(), "one");
}

#[test]
fn tokenise_empty_text_is_one_empty_plain_token() {
    let tokens = parse_tokens("").unwrap();
    assert_eq!(tokens, vec![CommandToken::Plain(String::new())]);
}

#[test]
fn tokenise_adjacent_brackets() {
    let tokens = parse_tokens("(a)(b)").unwrap();
    assert_eq!(
        tokens,
        vec![
            CommandToken::Bracketed("a".to_owned()),
            CommandToken::Bracketed("b".to_owned())
        ]
    );
}

#[test]
fn tokenise_closing_bracket_in_plain_text_stays() {
    let tokens = parse_tokens("(a)b)c").unwrap();
    assert_eq!(
        tokens,
        vec![
            CommandToken::Bracketed("a".to_owned()),
            CommandToken::Plain("b)c".to_owned())
        ]
    );
}

#[test]
fn tokenise_counts_characters_not_bytes() {
    let tokens = parse_tokens("é(ü)ß").unwrap();
    assert_eq!(
        tokens,
        vec![
            CommandToken::Plain("é".to_owned()),
            CommandToken::Bracketed("ü".to_owned()),
            CommandToken::Plain("ß".to_owned())
        ]
    );
}

#[test]
fn tokenise_unmatched_parenthesis_names_the_rest() {
    match parse_tokens("read(file:foo)to(var") {
        Err(ParseError::UnmatchedParenthesis(at)) => assert_eq!(at, "(var"),
        other => panic!("expected an unmatched parenthesis, got {:?}", other),
    }
    let e = parse_tokens("(x").unwrap_err();
    assert_eq!(e.message(), "unmatched opening parenthesis: (x");
}

#[test]
fn tokens_spell_the_text_again() {
    for text in ["fie", "(fie)", "foo(bar)quux", "read(file:foo)to(var:ftext)", "(a)(b)", ""] {
        let tokens = parse_tokens(text).unwrap();
        let mut again = String::new();
        for token in &tokens {
            match token {
                CommandToken::Plain(t) => again.push_str(t),
                CommandToken::Bracketed(t) => {
                    again.push('(');
                    again.push_str(t);
                    again.push(')');
                }
            }
        }
        assert_eq!(again, text);
    }
}

#[test]
fn command_in_brackets_is_refused() {
    match parse_command("(read)(file:foo)") {
        Err(ParseError::BracketedCommand(t)) => assert_eq!(t, "read"),
        other => panic!("expected a bracketed command, got {:?}", other),
    }
    assert_eq!(
        parse_command("(read)").unwrap_err().message(),
        "don't put commands in brackets: read"
    );
}

#[test]
fn unknown_command_is_refused() {
    match parse_command("write(file:foo)") {
        Err(ParseError::UnrecognisedCommand(t)) => assert_eq!(t, "write"),
        other => panic!("expected an unrecognised command, got {:?}", other),
    }
    assert_eq!(
        parse_command("exit").unwrap_err().message(),
        "unrecognised command: exit"
    );
}

#[test]
fn assert_exists_syntax_errors() {
    assert!(matches!(
        parse_command("assert_exists"),
        Err(ParseError::AssertExistsSyntax)
    ));
    assert!(matches!(
        parse_command("assert_exists(file:a)(file:b)"),
        Err(ParseError::AssertExistsSyntax)
    ));
    assert_eq!(
        ParseError::AssertExistsSyntax.message(),
        "unexpected assert_exists command syntax"
    );
}

#[test]
fn read_syntax_errors() {
    assert!(matches!(parse_command("read(file:a)"), Err(ParseError::ReadSyntax)));
    assert!(matches!(
        parse_command("read(file:a)(var:b)"),
        Err(ParseError::ReadSyntax)
    ));
    assert!(matches!(
        parse_command("read(file:a)to(var:b)x"),
        Err(ParseError::ReadSyntax)
    ));
    assert_eq!(ParseError::ReadSyntax.message(), "unexpected read command syntax");
}

#[test]
fn read_accepts_any_separator_word() {
    let command = parse_command("read(env:HOME)into(var:h)").unwrap();
    assert_eq!(
        command,
        Command::Read(DataSource::Env("HOME".to_owned()), Variable("h".to_owned()))
    );
}

#[test]
fn data_source_parsing() {
    assert_eq!(
        DataSource::parse("file:/a/b".to_owned()).unwrap(),
        DataSource::File("/a/b".to_owned())
    );
    assert_eq!(
        DataSource::parse("env:X".to_owned()).unwrap(),
        DataSource::Env("X".to_owned())
    );
    assert_eq!(
        DataSource::parse("file:".to_owned()).unwrap(),
        DataSource::File(String::new())
    );
    for bad in ["file", "var:x", "file:a:b", "", ":", "File:a"] {
        match DataSource::parse(bad.to_owned()) {
            Err(ParseError::InvalidDataSource) => {}
            other => panic!("expected an invalid data source for {:?}, got {:?}", bad, other),
        }
    }
    assert_eq!(ParseError::InvalidDataSource.message(), "invalid data source");
}

#[test]
fn variable_parsing() {
    assert_eq!(Variable::parse("var:x".to_owned()).unwrap(), Variable("x".to_owned()));
    for bad in ["var", "file:x", "var:a:b", ""] {
        match Variable::parse(bad.to_owned()) {
            Err(ParseError::InvalidVariable) => {}
            other => panic!("expected an invalid variable for {:?}, got {:?}", bad, other),
        }
    }
    assert_eq!(ParseError::InvalidVariable.message(), "invalid variable reference");
}

#[test]
fn bad_source_is_reported_before_bad_variable() {
    assert!(matches!(
        parse_command("read(nope)to(nope)"),
        Err(ParseError::InvalidDataSource)
    ));
    assert!(matches!(
        parse_command("read(file:a)to(nope)"),
        Err(ParseError::InvalidVariable)
    ));
}

#[test]
fn failed_commands_leave_the_variables_alone() {
    let mut context = TestContext::new(fake_env());
    context
        .process_command_text("read(env:test1)to(var:v)".to_owned())
        .unwrap();
    let missing = context.process_command_text("read(env:nope)to(var:v)".to_owned());
    match missing {
        Err(ExerciseError::MissingEnvVar(name)) => assert_eq!(name, "nope"),
        other => panic!("expected a missing variable, got {:?}", other),
    }
    let unreadable = context.process_command_text("read(file:/nope)to(var:v)".to_owned());
    match unreadable {
        Err(ExerciseError::UnreadableFile(path)) => assert_eq!(path, "/nope"),
        other => panic!("expected an unreadable file, got {:?}", other),
    }
    let garbled = context.process_command_text("read(".to_owned());
    match &garbled {
        Err(ExerciseError::Parse(text, ParseError::UnmatchedParenthesis(at))) => {
            assert_eq!(text, "read(");
            assert_eq!(at, "(");
        }
        other => panic!("expected a parse error, got {:?}", other),
    }
    assert_eq!(
        garbled.unwrap_err().message(),
        "Error parsing command 'read(': unmatched opening parenthesis: ("
    );
    assert_eq!(context.variable("v").unwrap(), "one");
    assert!(context.variable("w").is_none());
}

#[test]
fn missing_file_message() {
    let context = TestContext::new(fake_env());
    let e = context
        .assert_exists(DataSource::File("/nope.nope.nope.txt".to_owned()))
        .unwrap_err();
    assert_eq!(
        e.message(),
        "File /nope.nope.nope.txt was expected to exist but did not"
    );
}

#[test]
fn a_later_read_replaces_the_variable() {
    let mut context = TestContext::new(fake_env());
    context
        .process_command(Command::Read(
            DataSource::Env("test1".to_owned()),
            Variable("v".to_owned()),
        ))
        .unwrap();
    context
        .process_command(Command::Read(
            DataSource::File("/fizz/buzz.txt".to_owned()),
            Variable("v".to_owned()),
        ))
        .unwrap();
    assert_eq!(context.variable("v").unwrap(), "fizzbuzz!");
}
