//! The command language of the exerciser workload: a command is a run of
//! plain words and bracketed arguments, such as `read(file:foo)to(var:x)`.

use vstd::prelude::*;
use vstd::string::*;

use crate::object::option_text;
use crate::table::Table;
use crate::text::{find_char, lemma_position, position, same_text};

verus! {

/// One lexical piece of a command.
#[derive(Debug, PartialEq)]
pub enum CommandToken {
    /// Text outside brackets.
    Plain(String),
    /// Text that stood between `(` and the next `)`.
    Bracketed(String),
}

/// A token as plain characters.
pub enum TokenView {
    Plain(Seq<char>),
    Bracketed(Seq<char>),
}

impl View for CommandToken {
    type V = TokenView;

    open spec fn view(&self) -> TokenView {
        match self {
            CommandToken::Plain(t) => TokenView::Plain(t@),
            CommandToken::Bracketed(t) => TokenView::Bracketed(t@),
        }
    }
}

/// Why a command was refused.
#[derive(Debug)]
pub enum ParseError {
    /// A `(` without a `)` after it; holds the text from that `(` on.
    UnmatchedParenthesis(String),
    /// The command's name stood in brackets; holds the bracketed text.
    BracketedCommand(String),
    /// No command of this name exists.
    UnrecognisedCommand(String),
    /// `assert_exists` was not followed by exactly one bracketed source.
    AssertExistsSyntax,
    /// `read` was not of the shape `read(source)word(variable)`.
    ReadSyntax,
    /// A source that is neither `file:..` nor `env:..`.
    InvalidDataSource,
    /// A variable reference that is not `var:..`.
    InvalidVariable,
}

/// An error as plain characters.
pub enum ParseErrorView {
    UnmatchedParenthesis(Seq<char>),
    BracketedCommand(Seq<char>),
    UnrecognisedCommand(Seq<char>),
    AssertExistsSyntax,
    ReadSyntax,
    InvalidDataSource,
    InvalidVariable,
}

impl View for ParseError {
    type V = ParseErrorView;

    open spec fn view(&self) -> ParseErrorView {
        match self {
            ParseError::UnmatchedParenthesis(t) => ParseErrorView::UnmatchedParenthesis(t@),
            ParseError::BracketedCommand(t) => ParseErrorView::BracketedCommand(t@),
            ParseError::UnrecognisedCommand(t) => ParseErrorView::UnrecognisedCommand(t@),
            ParseError::AssertExistsSyntax => ParseErrorView::AssertExistsSyntax,
            ParseError::ReadSyntax => ParseErrorView::ReadSyntax,
            ParseError::InvalidDataSource => ParseErrorView::InvalidDataSource,
            ParseError::InvalidVariable => ParseErrorView::InvalidVariable,
        }
    }
}

/// The tokens of a command text, or the text at which an opening bracket
/// stayed unmatched. A text that opens with `(` gives a bracketed token up to
/// the first `)`; any other text gives a plain token up to the first `(`.
pub open spec fn tokens_of(text: Seq<char>) -> Result<Seq<TokenView>, Seq<char>>
    decreases text.len(),
    via tokens_of_decreases
{
    if text.len() > 0 && text[0] == '(' {
        match position(text, ')') {
            None => Err(text),
            Some(close) => {
                let head = seq![TokenView::Bracketed(text.subrange(1, close))];
                let rest = text.subrange(close + 1, text.len() as int);
                if rest.len() == 0 {
                    Ok(head)
                } else {
                    match tokens_of(rest) {
                        Ok(tail) => Ok(head + tail),
                        Err(at) => Err(at),
                    }
                }
            },
        }
    } else {
        match position(text, '(') {
            None => Ok(seq![TokenView::Plain(text)]),
            Some(open) => {
                let head = seq![TokenView::Plain(text.subrange(0, open))];
                match tokens_of(text.subrange(open, text.len() as int)) {
                    Ok(tail) => Ok(head + tail),
                    Err(at) => Err(at),
                }
            },
        }
    }
}

#[via_fn]
proof fn tokens_of_decreases(text: Seq<char>) {
    if text.len() > 0 && text[0] == '(' {
        lemma_position(text, ')');
    } else {
        lemma_position(text, '(');
        if position(text, '(') is Some {
            let open = position(text, '(')->0;
            assert(open != 0);
        }
    }
}

/// The tokens of a slice as plain characters.
pub open spec fn token_views(tokens: Seq<CommandToken>) -> Seq<TokenView> {
    tokens.map_values(|t: CommandToken| t@)
}

/// The tokens of a command text, or the error that names the text at which
/// an opening bracket stayed unmatched.
pub open spec fn tokenised(text: Seq<char>) -> Result<Seq<TokenView>, ParseErrorView> {
    match tokens_of(text) {
        Ok(tokens) => Ok(tokens),
        Err(at) => Err(ParseErrorView::UnmatchedParenthesis(at)),
    }
}

/// A token as it is written in a command.
pub open spec fn spelled_token(token: TokenView) -> Seq<char> {
    match token {
        TokenView::Plain(t) => t,
        TokenView::Bracketed(t) => seq!['('] + t + seq![')'],
    }
}

/// A run of tokens as it is written in a command.
pub open spec fn spelled(tokens: Seq<TokenView>) -> Seq<char>
    decreases tokens.len(),
{
    if tokens.len() == 0 {
        Seq::empty()
    } else {
        spelled_token(tokens[0]) + spelled(tokens.drop_first())
    }
}

/// A token of the right make: plain text holds no opening bracket, bracketed
/// text no closing one.
pub open spec fn well_made(token: TokenView) -> bool {
    match token {
        TokenView::Plain(t) => !t.contains('('),
        TokenView::Bracketed(t) => !t.contains(')'),
    }
}

/// Tokenising loses nothing: the tokens of a text, written one after the
/// other, are the text again; every token is of the right make; there is a
/// first token; and no plain token follows another.
pub proof fn lemma_tokens_spell_text(text: Seq<char>)
    ensures
        match tokens_of(text) {
            Ok(tokens) => {
                &&& tokens.len() >= 1
                &&& spelled(tokens) == text
                &&& forall|i: int| 0 <= i < tokens.len() ==> well_made(#[trigger] tokens[i])
                &&& forall|i: int|
                    0 <= i < tokens.len() - 1 ==> !((#[trigger] tokens[i]) is Plain && tokens[i
                        + 1] is Plain)
                &&& (tokens[0] is Bracketed <==> (text.len() > 0 && text[0] == '('))
            },
            Err(_) => true,
        },
    decreases text.len(),
{
    let n = text.len() as int;
    if text.len() > 0 && text[0] == '(' {
        lemma_position(text, ')');
        match position(text, ')') {
            None => {},
            Some(close) => {
                let inner = text.subrange(1, close);
                let head = seq![TokenView::Bracketed(inner)];
                let rest = text.subrange(close + 1, n);
                assert(!inner.contains(')')) by {
                    if inner.contains(')') {
                        let j = choose|j: int| 0 <= j < inner.len() && inner[j] == ')';
                        assert(text[j + 1] == ')');
                    }
                }
                if rest.len() == 0 {
                    assert(head.drop_first() =~= Seq::<TokenView>::empty());
                    assert(spelled(Seq::<TokenView>::empty()) =~= Seq::<char>::empty());
                    assert(spelled(head) == spelled_token(head[0]) + spelled(head.drop_first()));
                    assert(spelled(head) =~= seq!['('] + inner + seq![')']);
                    assert(seq!['('] + inner + seq![')'] =~= text);
                } else {
                    lemma_tokens_spell_text(rest);
                    match tokens_of(rest) {
                        Ok(tail) => {
                            let tokens = head + tail;
                            assert(tokens.drop_first() =~= tail);
                            assert(spelled(tokens) == spelled_token(tokens[0]) + spelled(tail));
                            assert(seq!['('] + inner + seq![')'] + rest =~= text);
                            assert forall|i: int| 0 <= i < tokens.len() implies well_made(
                                #[trigger] tokens[i],
                            ) by {
                                if i > 0 {
                                    assert(tokens[i] == tail[i - 1]);
                                }
                            }
                            assert forall|i: int| 0 <= i < tokens.len() - 1 implies !((
                            #[trigger] tokens[i]) is Plain && tokens[i + 1] is Plain) by {
                                if i > 0 {
                                    assert(tokens[i] == tail[i - 1]);
                                    assert(tokens[i + 1] == tail[i]);
                                }
                            }
                        },
                        Err(_) => {},
                    }
                }
            },
        }
    } else {
        lemma_position(text, '(');
        match position(text, '(') {
            None => {
                let tokens = seq![TokenView::Plain(text)];
                assert(tokens.drop_first() =~= Seq::<TokenView>::empty());
                assert(spelled(Seq::<TokenView>::empty()) =~= Seq::<char>::empty());
                assert(spelled(tokens) == spelled_token(tokens[0]) + spelled(tokens.drop_first()));
                assert(spelled(tokens) =~= text);
                assert(!text.contains('('));
            },
            Some(open) => {
                let plain = text.subrange(0, open);
                let head = seq![TokenView::Plain(plain)];
                let rest = text.subrange(open, n);
                assert(open != 0);
                assert(!plain.contains('(')) by {
                    if plain.contains('(') {
                        let j = choose|j: int| 0 <= j < plain.len() && plain[j] == '(';
                        assert(text[j] == '(');
                    }
                }
                lemma_tokens_spell_text(rest);
                assert(rest[0] == '(');
                match tokens_of(rest) {
                    Ok(tail) => {
                        let tokens = head + tail;
                        assert(tokens.drop_first() =~= tail);
                        assert(spelled(tokens) == spelled_token(tokens[0]) + spelled(tail));
                        assert(plain + rest =~= text);
                        assert(tokens[1] == tail[0]);
                        assert forall|i: int| 0 <= i < tokens.len() implies well_made(
                            #[trigger] tokens[i],
                        ) by {
                            if i > 0 {
                                assert(tokens[i] == tail[i - 1]);
                            }
                        }
                        assert forall|i: int| 0 <= i < tokens.len() - 1 implies !((
                        #[trigger] tokens[i]) is Plain && tokens[i + 1] is Plain) by {
                            if i > 0 {
                                assert(tokens[i] == tail[i - 1]);
                                assert(tokens[i + 1] == tail[i]);
                            }
                        }
                    },
                    Err(_) => {},
                }
            },
        }
    }
}

impl CommandToken {
    /// Splits a command text into its tokens.
    pub fn parse(text: String) -> (parsed: Result<Vec<CommandToken>, ParseError>)
        ensures
            match parsed {
                Ok(tokens) => tokenised(text@) == Ok::<Seq<TokenView>, ParseErrorView>(
                    token_views(tokens@),
                ),
                Err(e) => tokenised(text@) == Err::<Seq<TokenView>, ParseErrorView>(e@),
            },
    {
        Self::parse_text(text.as_str())
    }

    /// Splits a command text, given as a slice, into its tokens.
    pub fn parse_text(text: &str) -> (parsed: Result<Vec<CommandToken>, ParseError>)
        ensures
            match parsed {
                Ok(tokens) => tokenised(text@) == Ok::<Seq<TokenView>, ParseErrorView>(
                    token_views(tokens@),
                ),
                Err(e) => tokenised(text@) == Err::<Seq<TokenView>, ParseErrorView>(e@),
            },
        decreases text@.len(),
    {
        let n: usize = text.unicode_len();
        if n > 0 && text.get_char(0) == '(' {
            match find_char(text, ')') {
                None => Err(ParseError::UnmatchedParenthesis(text.to_owned())),
                Some(close) => {
                    proof {
                        lemma_position(text@, ')');
                    }
                    let bracketed = text.substring_char(1, close).to_owned();
                    let rest = text.substring_char(close + 1, n);
                    let mut tokens: Vec<CommandToken> = Vec::new();
                    tokens.push(CommandToken::Bracketed(bracketed));
                    if rest.unicode_len() != 0 {
                        let mut tail = Self::parse_text(rest)?;
                        let ghost tail_view = tail@.map_values(|t: CommandToken| t@);
                        tokens.append(&mut tail);
                        assert(tokens@.map_values(|t: CommandToken| t@) =~= seq![
                            TokenView::Bracketed(text@.subrange(1, close as int)),
                        ] + tail_view);
                    } else {
                        assert(tokens@.map_values(|t: CommandToken| t@) =~= seq![
                            TokenView::Bracketed(text@.subrange(1, close as int)),
                        ]);
                    }
                    Ok(tokens)
                },
            }
        } else {
            match find_char(text, '(') {
                None => {
                    let mut tokens: Vec<CommandToken> = Vec::new();
                    tokens.push(CommandToken::Plain(text.to_owned()));
                    assert(tokens@.map_values(|t: CommandToken| t@) =~= seq![
                        TokenView::Plain(text@),
                    ]);
                    Ok(tokens)
                },
                Some(open) => {
                    proof {
                        lemma_position(text@, '(');
                    }
                    let plain = text.substring_char(0, open).to_owned();
                    let rest = text.substring_char(open, n);
                    let mut tokens: Vec<CommandToken> = Vec::new();
                    tokens.push(CommandToken::Plain(plain));
                    let mut tail = Self::parse_text(rest)?;
                    let ghost tail_view = tail@.map_values(|t: CommandToken| t@);
                    tokens.append(&mut tail);
                    assert(tokens@.map_values(|t: CommandToken| t@) =~= seq![
                        TokenView::Plain(text@.subrange(0, open as int)),
                    ] + tail_view);
                    Ok(tokens)
                },
            }
        }
    }
}

/// A text of the shape `tag:value` with a single colon, as its two parts.
pub open spec fn tagged(text: Seq<char>) -> Option<(Seq<char>, Seq<char>)> {
    match position(text, ':') {
        Some(i) => {
            let value = text.subrange(i + 1, text.len() as int);
            if position(value, ':') is None {
                Some((text.subrange(0, i), value))
            } else {
                None
            }
        },
        None => None,
    }
}

/// Splits a text of the shape `tag:value`; any other count of colons gives
/// nothing.
pub fn split_tagged(text: &str) -> (parts: Option<(String, String)>)
    ensures
        match parts {
            Some((tag, value)) => tagged(text@) == Some((tag@, value@)),
            None => tagged(text@) is None,
        },
{
    match find_char(text, ':') {
        None => None,
        Some(i) => {
            proof {
                lemma_position(text@, ':');
            }
            let n: usize = text.unicode_len();
            let value = text.substring_char(i + 1, n);
            match find_char(value, ':') {
                Some(_) => None,
                None => Some((text.substring_char(0, i).to_owned(), value.to_owned())),
            }
        },
    }
}

/// Where a command reads from.
#[derive(Debug, PartialEq)]
pub enum DataSource {
    /// The file at this path.
    File(String),
    /// The environment variable of this name.
    Env(String),
}

/// A data source as plain characters.
pub enum DataSourceView {
    File(Seq<char>),
    Env(Seq<char>),
}

impl View for DataSource {
    type V = DataSourceView;

    open spec fn view(&self) -> DataSourceView {
        match self {
            DataSource::File(p) => DataSourceView::File(p@),
            DataSource::Env(n) => DataSourceView::Env(n@),
        }
    }
}

/// The source that a text names: `file:path` or `env:name`.
pub open spec fn data_source_of(text: Seq<char>) -> Result<DataSourceView, ParseErrorView> {
    match tagged(text) {
        Some((tag, value)) => if tag == "file"@ {
            Ok(DataSourceView::File(value))
        } else if tag == "env"@ {
            Ok(DataSourceView::Env(value))
        } else {
            Err(ParseErrorView::InvalidDataSource)
        },
        None => Err(ParseErrorView::InvalidDataSource),
    }
}

impl DataSource {
    /// Reads a data source from `file:path` or `env:name`.
    pub fn parse(text: String) -> (parsed: Result<DataSource, ParseError>)
        ensures
            match parsed {
                Ok(source) => data_source_of(text@) == Ok::<DataSourceView, ParseErrorView>(
                    source@,
                ),
                Err(e) => data_source_of(text@) == Err::<DataSourceView, ParseErrorView>(e@),
            },
    {
        match split_tagged(text.as_str()) {
            Some((tag, value)) => {
                if same_text(tag.as_str(), "file") {
                    Ok(DataSource::File(value))
                } else if same_text(tag.as_str(), "env") {
                    Ok(DataSource::Env(value))
                } else {
                    Err(ParseError::InvalidDataSource)
                }
            },
            None => Err(ParseError::InvalidDataSource),
        }
    }
}

/// The name of a variable of the exerciser.
#[derive(Debug, PartialEq)]
pub struct Variable(pub String);

impl View for Variable {
    type V = Seq<char>;

    open spec fn view(&self) -> Seq<char> {
        self.0@
    }
}

/// The variable that a text names: `var:name`.
pub open spec fn variable_of(text: Seq<char>) -> Result<Seq<char>, ParseErrorView> {
    match tagged(text) {
        Some((tag, value)) => if tag == "var"@ {
            Ok(value)
        } else {
            Err(ParseErrorView::InvalidVariable)
        },
        None => Err(ParseErrorView::InvalidVariable),
    }
}

impl Variable {
    /// Reads a variable reference from `var:name`.
    pub fn parse(text: String) -> (parsed: Result<Variable, ParseError>)
        ensures
            match parsed {
                Ok(variable) => variable_of(text@) == Ok::<Seq<char>, ParseErrorView>(variable@),
                Err(e) => variable_of(text@) == Err::<Seq<char>, ParseErrorView>(e@),
            },
    {
        match split_tagged(text.as_str()) {
            Some((tag, value)) => {
                if same_text(tag.as_str(), "var") {
                    Ok(Variable(value))
                } else {
                    Err(ParseError::InvalidVariable)
                }
            },
            None => Err(ParseError::InvalidVariable),
        }
    }
}

/// A command of the exerciser.
#[derive(Debug, PartialEq)]
pub enum Command {
    /// Fail unless the source exists.
    AssertExists(DataSource),
    /// Copy what the source holds into the variable.
    Read(DataSource, Variable),
}

/// A command as plain characters.
pub enum CommandView {
    AssertExists(DataSourceView),
    Read(DataSourceView, Seq<char>),
}

impl View for Command {
    type V = CommandView;

    open spec fn view(&self) -> CommandView {
        match self {
            Command::AssertExists(source) => CommandView::AssertExists(source@),
            Command::Read(source, variable) => CommandView::Read(source@, variable@),
        }
    }
}

/// The `assert_exists` command that a run of tokens spells: the name, then
/// one bracketed source.
pub open spec fn assert_exists_of(tokens: Seq<TokenView>) -> Result<CommandView, ParseErrorView> {
    if tokens.len() == 2 && tokens[1] is Bracketed {
        match data_source_of(tokens[1]->Bracketed_0) {
            Ok(source) => Ok(CommandView::AssertExists(source)),
            Err(e) => Err(e),
        }
    } else {
        Err(ParseErrorView::AssertExistsSyntax)
    }
}

/// The `read` command that a run of tokens spells: the name, a bracketed
/// source, a plain word, a bracketed variable. A bad source is reported
/// before a bad variable.
pub open spec fn read_of(tokens: Seq<TokenView>) -> Result<CommandView, ParseErrorView> {
    if tokens.len() == 4 && tokens[1] is Bracketed && tokens[2] is Plain
        && tokens[3] is Bracketed {
        match data_source_of(tokens[1]->Bracketed_0) {
            Ok(source) => match variable_of(tokens[3]->Bracketed_0) {
                Ok(variable) => Ok(CommandView::Read(source, variable)),
                Err(e) => Err(e),
            },
            Err(e) => Err(e),
        }
    } else {
        Err(ParseErrorView::ReadSyntax)
    }
}

/// The command that a text spells.
pub open spec fn command_of(text: Seq<char>) -> Result<CommandView, ParseErrorView> {
    match tokens_of(text) {
        Err(at) => Err(ParseErrorView::UnmatchedParenthesis(at)),
        Ok(tokens) => match tokens[0] {
            TokenView::Bracketed(t) => Err(ParseErrorView::BracketedCommand(t)),
            TokenView::Plain(t) => if t == "assert_exists"@ {
                assert_exists_of(tokens)
            } else if t == "read"@ {
                read_of(tokens)
            } else {
                Err(ParseErrorView::UnrecognisedCommand(t))
            },
        },
    }
}

impl Command {
    /// Reads a command from its text.
    pub fn parse(text: String) -> (parsed: Result<Command, ParseError>)
        ensures
            match parsed {
                Ok(command) => command_of(text@) == Ok::<CommandView, ParseErrorView>(command@),
                Err(e) => command_of(text@) == Err::<CommandView, ParseErrorView>(e@),
            },
    {
        proof {
            lemma_tokens_spell_text(text@);
        }
        let tokens = CommandToken::parse(text)?;
        assert(token_views(tokens@)[0] == tokens@[0]@);
        match &tokens[0] {
            CommandToken::Bracketed(t) => Err(ParseError::BracketedCommand(t.clone())),
            CommandToken::Plain(t) => {
                if same_text(t.as_str(), "assert_exists") {
                    Self::parse_assert_exists(tokens.as_slice())
                } else if same_text(t.as_str(), "read") {
                    Self::parse_read(tokens.as_slice())
                } else {
                    Err(ParseError::UnrecognisedCommand(t.clone()))
                }
            },
        }
    }

    /// Reads the arguments of `assert_exists` from the command's tokens.
    pub fn parse_assert_exists(tokens: &[CommandToken]) -> (parsed: Result<Command, ParseError>)
        ensures
            match parsed {
                Ok(command) => assert_exists_of(token_views(tokens@)) == Ok::<
                    CommandView,
                    ParseErrorView,
                >(command@),
                Err(e) => assert_exists_of(token_views(tokens@)) == Err::<
                    CommandView,
                    ParseErrorView,
                >(e@),
            },
    {
        if tokens.len() != 2 {
            return Err(ParseError::AssertExistsSyntax);
        }
        assert(token_views(tokens@)[1] == tokens@[1]@);
        match &tokens[1] {
            CommandToken::Bracketed(source) => {
                let source = DataSource::parse(source.clone())?;
                Ok(Command::AssertExists(source))
            },
            CommandToken::Plain(_) => Err(ParseError::AssertExistsSyntax),
        }
    }

    /// Reads the arguments of `read` from the command's tokens.
    pub fn parse_read(tokens: &[CommandToken]) -> (parsed: Result<Command, ParseError>)
        ensures
            match parsed {
                Ok(command) => read_of(token_views(tokens@)) == Ok::<CommandView, ParseErrorView>(
                    command@,
                ),
                Err(e) => read_of(token_views(tokens@)) == Err::<CommandView, ParseErrorView>(e@),
            },
    {
        if tokens.len() != 4 {
            return Err(ParseError::ReadSyntax);
        }
        assert(token_views(tokens@)[1] == tokens@[1]@);
        assert(token_views(tokens@)[2] == tokens@[2]@);
        assert(token_views(tokens@)[3] == tokens@[3]@);
        match (&tokens[1], &tokens[2], &tokens[3]) {
            (
                CommandToken::Bracketed(source),
                CommandToken::Plain(_),
                CommandToken::Bracketed(destination),
            ) => {
                let source = DataSource::parse(source.clone())?;
                let destination = Variable::parse(destination.clone())?;
                Ok(Command::Read(source, destination))
            },
            _ => Err(ParseError::ReadSyntax),
        }
    }
}

/// The text of an error message: a fixed phrase, then the text that the error
/// holds, if it holds one.
pub open spec fn message_of(e: ParseErrorView) -> Seq<char> {
    match e {
        ParseErrorView::UnmatchedParenthesis(t) => "unmatched opening parenthesis: "@ + t,
        ParseErrorView::BracketedCommand(t) => "don't put commands in brackets: "@ + t,
        ParseErrorView::UnrecognisedCommand(t) => "unrecognised command: "@ + t,
        ParseErrorView::AssertExistsSyntax => "unexpected assert_exists command syntax"@,
        ParseErrorView::ReadSyntax => "unexpected read command syntax"@,
        ParseErrorView::InvalidDataSource => "invalid data source"@,
        ParseErrorView::InvalidVariable => "invalid variable reference"@,
    }
}

impl ParseError {
    /// The error as a line for the operator.
    pub fn message(&self) -> (text: String)
        ensures
            text@ == message_of(self@),
    {
        match self {
            ParseError::UnmatchedParenthesis(t) => String::from_str(
                "unmatched opening parenthesis: ",
            ).concat(t.as_str()),
            ParseError::BracketedCommand(t) => String::from_str(
                "don't put commands in brackets: ",
            ).concat(t.as_str()),
            ParseError::UnrecognisedCommand(t) => String::from_str("unrecognised command: ").concat(
                t.as_str(),
            ),
            ParseError::AssertExistsSyntax => String::from_str(
                "unexpected assert_exists command syntax",
            ),
            ParseError::ReadSyntax => String::from_str("unexpected read command syntax"),
            ParseError::InvalidDataSource => String::from_str("invalid data source"),
            ParseError::InvalidVariable => String::from_str("invalid variable reference"),
        }
    }
}

/// What the exerciser can ask of the machine it runs on. An implementation
/// may say which answers it gives; one that says nothing promises nothing.
pub trait Environment {
    /// Whether the machine may answer `value` when asked for the variable.
    open spec fn answers_env_var(&self, name: Seq<char>, value: Option<Seq<char>>) -> bool {
        true
    }

    /// Whether the machine may answer `found` when asked whether the file
    /// exists.
    open spec fn answers_file_exists(&self, path: Seq<char>, found: bool) -> bool {
        true
    }

    /// Whether the machine may answer `content` when asked for what the file
    /// holds.
    open spec fn answers_file_content(&self, path: Seq<char>, content: Option<Seq<char>>) -> bool {
        true
    }

    /// The value of an environment variable, if it is set.
    fn get_env_var(&self, name: &str) -> (value: Option<String>)
        ensures
            self.answers_env_var(name@, option_text(value)),
    ;

    /// Whether a file exists at the path.
    fn file_exists(&self, path: &str) -> (found: bool)
        ensures
            self.answers_file_exists(path@, found),
    ;

    /// What the file at the path holds, if it can be read.
    fn file_content(&self, path: &str) -> (content: Option<String>)
        ensures
            self.answers_file_content(path@, option_text(content)),
    ;
}

/// Why a command failed.
#[derive(Debug)]
pub enum ExerciseError {
    /// The command's text could not be read; holds the text and the reason.
    Parse(String, ParseError),
    /// The file was expected to exist but did not; holds the path.
    MissingFile(String),
    /// The environment variable is not set; holds its name.
    MissingEnvVar(String),
    /// The file could not be read; holds the path.
    UnreadableFile(String),
}

/// A failure as plain characters.
pub enum ExerciseErrorView {
    Parse(Seq<char>, ParseErrorView),
    MissingFile(Seq<char>),
    MissingEnvVar(Seq<char>),
    UnreadableFile(Seq<char>),
}

impl View for ExerciseError {
    type V = ExerciseErrorView;

    open spec fn view(&self) -> ExerciseErrorView {
        match self {
            ExerciseError::Parse(text, e) => ExerciseErrorView::Parse(text@, e@),
            ExerciseError::MissingFile(path) => ExerciseErrorView::MissingFile(path@),
            ExerciseError::MissingEnvVar(name) => ExerciseErrorView::MissingEnvVar(name@),
            ExerciseError::UnreadableFile(path) => ExerciseErrorView::UnreadableFile(path@),
        }
    }
}

/// The text of a failure.
pub open spec fn failure_text(e: ExerciseErrorView) -> Seq<char> {
    match e {
        ExerciseErrorView::Parse(text, reason) => "Error parsing command '"@ + text + "': "@
            + message_of(reason),
        ExerciseErrorView::MissingFile(path) => "File "@ + path
            + " was expected to exist but did not"@,
        ExerciseErrorView::MissingEnvVar(name) => "Environment variable "@ + name
            + " was expected to exist but did not"@,
        ExerciseErrorView::UnreadableFile(path) => "File "@ + path + " could not be read"@,
    }
}

impl ExerciseError {
    /// The failure as a line for the operator.
    pub fn message(&self) -> (text: String)
        ensures
            text@ == failure_text(self@),
    {
        match self {
            ExerciseError::Parse(command, reason) => {
                let reason_text = reason.message();
                String::from_str("Error parsing command '").concat(command.as_str()).concat(
                    "': ",
                ).concat(reason_text.as_str())
            },
            ExerciseError::MissingFile(path) => String::from_str("File ").concat(
                path.as_str(),
            ).concat(" was expected to exist but did not"),
            ExerciseError::MissingEnvVar(name) => String::from_str("Environment variable ").concat(
                name.as_str(),
            ).concat(" was expected to exist but did not"),
            ExerciseError::UnreadableFile(path) => String::from_str("File ").concat(
                path.as_str(),
            ).concat(" could not be read"),
        }
    }
}

/// What an existence check comes to: nothing where the thing was found, the
/// given failure where it was not.
pub fn require_found(found: bool, missing: ExerciseError) -> (r: Result<(), ExerciseError>)
    ensures
        found ==> r is Ok,
        !found ==> r == Err::<(), ExerciseError>(missing),
{
    if found {
        Ok(())
    } else {
        Err(missing)
    }
}

/// What a lookup comes to: the value where there is one, the given failure
/// where there is none.
pub fn require_value(value: Option<String>, missing: ExerciseError) -> (r: Result<
    String,
    ExerciseError,
>)
    ensures
        r == match value {
            Some(v) => Ok::<String, ExerciseError>(v),
            None => Err::<String, ExerciseError>(missing),
        },
{
    match value {
        Some(v) => Ok(v),
        None => Err(missing),
    }
}

/// The result of a check as plain characters.
pub open spec fn checked(r: Result<(), ExerciseError>) -> Result<(), ExerciseErrorView> {
    match r {
        Ok(_) => Ok(()),
        Err(e) => Err(e@),
    }
}

/// The result of a lookup as plain characters.
pub open spec fn fetched(r: Result<String, ExerciseError>) -> Result<Seq<char>, ExerciseErrorView> {
    match r {
        Ok(content) => Ok(content@),
        Err(e) => Err(e@),
    }
}

/// `outcome` is what checking for a file comes to on the machine: the
/// machine is asked whether the file exists, and the check goes well exactly
/// where it says so.
pub open spec fn file_check<E: Environment>(
    machine: E,
    path: Seq<char>,
    outcome: Result<(), ExerciseErrorView>,
) -> bool {
    exists|found: bool|
        (#[trigger] machine.answers_file_exists(path, found)) && outcome == if found {
            Ok::<(), ExerciseErrorView>(())
        } else {
            Err::<(), ExerciseErrorView>(ExerciseErrorView::MissingFile(path))
        }
}

/// `outcome` is what checking for a variable comes to on the machine: the
/// machine is asked for the variable, and the check goes well exactly where
/// it gives a value.
pub open spec fn env_var_check<E: Environment>(
    machine: E,
    name: Seq<char>,
    outcome: Result<(), ExerciseErrorView>,
) -> bool {
    exists|value: Option<Seq<char>>|
        (#[trigger] machine.answers_env_var(name, value)) && outcome == if value is Some {
            Ok::<(), ExerciseErrorView>(())
        } else {
            Err::<(), ExerciseErrorView>(ExerciseErrorView::MissingEnvVar(name))
        }
}

/// `outcome` is what reading a file comes to on the machine: the machine is
/// asked for what the file holds; its answer is the content, and no answer
/// is a failure that names the path.
pub open spec fn file_read<E: Environment>(
    machine: E,
    path: Seq<char>,
    outcome: Result<Seq<char>, ExerciseErrorView>,
) -> bool {
    exists|content: Option<Seq<char>>|
        (#[trigger] machine.answers_file_content(path, content)) && outcome == match content {
            Some(text) => Ok::<Seq<char>, ExerciseErrorView>(text),
            None => Err::<Seq<char>, ExerciseErrorView>(ExerciseErrorView::UnreadableFile(path)),
        }
}

/// `outcome` is what reading a variable comes to on the machine: the machine
/// is asked for the variable; its answer is the value, and no answer is a
/// failure that names the variable.
pub open spec fn env_var_read<E: Environment>(
    machine: E,
    name: Seq<char>,
    outcome: Result<Seq<char>, ExerciseErrorView>,
) -> bool {
    exists|value: Option<Seq<char>>|
        (#[trigger] machine.answers_env_var(name, value)) && outcome == match value {
            Some(text) => Ok::<Seq<char>, ExerciseErrorView>(text),
            None => Err::<Seq<char>, ExerciseErrorView>(ExerciseErrorView::MissingEnvVar(name)),
        }
}

/// `outcome` is what checking that the source exists comes to on the
/// machine.
pub open spec fn exists_outcome<E: Environment>(
    machine: E,
    source: DataSourceView,
    outcome: Result<(), ExerciseErrorView>,
) -> bool {
    match source {
        DataSourceView::File(path) => file_check(machine, path, outcome),
        DataSourceView::Env(name) => env_var_check(machine, name, outcome),
    }
}

/// `outcome` is what reading the source comes to on the machine.
pub open spec fn content_outcome<E: Environment>(
    machine: E,
    source: DataSourceView,
    outcome: Result<Seq<char>, ExerciseErrorView>,
) -> bool {
    match source {
        DataSourceView::File(path) => file_read(machine, path, outcome),
        DataSourceView::Env(name) => env_var_read(machine, name, outcome),
    }
}

/// `after` and `result` are what a read of the source into the variable
/// comes to on the machine, for variables that were `before`: where the
/// source could be read, the variable holds its content and the others are
/// as they were; where it could not, nothing changes and the failure comes
/// back.
pub open spec fn read_outcome<E: Environment>(
    machine: E,
    before: Map<Seq<char>, String>,
    source: DataSourceView,
    variable: Seq<char>,
    after: Map<Seq<char>, String>,
    result: Result<(), ExerciseErrorView>,
) -> bool {
    exists|outcome: Result<Seq<char>, ExerciseErrorView>|
        (#[trigger] content_outcome(machine, source, outcome)) && match outcome {
            Ok(text) => result is Ok && after.contains_key(variable) && after[variable]@ == text
                && after == before.insert(variable, after[variable]),
            Err(e) => result == Err::<(), ExerciseErrorView>(e) && after == before,
        }
}

/// `after` and `result` are what carrying out the command comes to on the
/// machine, for variables that were `before`: a check leaves the variables
/// alone and goes as the machine answers; a read goes as reads do.
pub open spec fn command_outcome<E: Environment>(
    machine: E,
    before: Map<Seq<char>, String>,
    command: CommandView,
    after: Map<Seq<char>, String>,
    result: Result<(), ExerciseErrorView>,
) -> bool {
    match command {
        CommandView::AssertExists(source) => after == before && exists_outcome(
            machine,
            source,
            result,
        ),
        CommandView::Read(source, variable) => read_outcome(
            machine,
            before,
            source,
            variable,
            after,
            result,
        ),
    }
}

/// The state of one run of the exerciser: the variables that commands have
/// filled, and the machine it asks.
pub struct TestContext<E: Environment> {
    variables: Table<String, String>,
    environment: E,
}

impl<E: Environment> TestContext<E> {
    /// The variables, from name to value.
    pub closed spec fn variables(&self) -> Map<Seq<char>, String> {
        self.variables@
    }

    /// The machine that the context asks.
    pub closed spec fn environment(&self) -> E {
        self.environment
    }

    /// A context without variables.
    pub fn new(environment: E) -> (context: Self)
        ensures
            context.variables() == Map::<Seq<char>, String>::empty(),
            context.environment() == environment,
    {
        TestContext { variables: Table::new(), environment }
    }

    /// The value of a variable, if a command has filled it.
    pub fn variable(&self, name: &str) -> (value: Option<&String>)
        ensures
            match value {
                Some(v) => self.variables().contains_key(name@) && *v == self.variables()[name@],
                None => !self.variables().contains_key(name@),
            },
    {
        let key = name.to_owned();
        self.variables.get(&key)
    }

    /// Fills a variable, replacing what it held.
    pub fn set_variable(&mut self, destination: Variable, content: String)
        ensures
            final(self).variables() == old(self).variables().insert(destination@, content),
            final(self).environment() == old(self).environment(),
    {
        let Variable(name) = destination;
        self.variables.insert(name, content);
    }

    /// Reads a command from its text and carries it out as the machine
    /// answers. A text that is no command changes nothing.
    pub fn process_command_text(&mut self, command_text: String) -> (r: Result<
        (),
        ExerciseError,
    >)
        ensures
            final(self).environment() == old(self).environment(),
            match command_of(command_text@) {
                Ok(command) => command_outcome(
                    old(self).environment(),
                    old(self).variables(),
                    command,
                    final(self).variables(),
                    checked(r),
                ),
                Err(_) => true,
            },
            match command_of(command_text@) {
                Err(e) => r is Err && r->Err_0@ == ExerciseErrorView::Parse(command_text@, e)
                    && final(self).variables() == old(self).variables(),
                Ok(CommandView::AssertExists(_)) => final(self).variables() == old(
                    self,
                ).variables(),
                Ok(CommandView::Read(_, name)) => if r is Ok {
                    final(self).variables().contains_key(name) && final(self).variables() == old(
                        self,
                    ).variables().insert(name, final(self).variables()[name])
                } else {
                    final(self).variables() == old(self).variables()
                },
            },
    {
        match Command::parse(command_text.clone()) {
            Ok(command) => self.process_command(command),
            Err(e) => Err(ExerciseError::Parse(command_text, e)),
        }
    }

    /// Carries out a command: a check changes nothing; a read fills its
    /// variable where the source could be read, and changes nothing where it
    /// could not.
    pub fn process_command(&mut self, command: Command) -> (r: Result<(), ExerciseError>)
        ensures
            final(self).environment() == old(self).environment(),
            command_outcome(
                old(self).environment(),
                old(self).variables(),
                command@,
                final(self).variables(),
                checked(r),
            ),
            match command {
                Command::AssertExists(_) => final(self).variables() == old(self).variables(),
                Command::Read(_, variable) => if r is Ok {
                    final(self).variables().contains_key(variable@) && final(self).variables()
                        == old(self).variables().insert(
                        variable@,
                        final(self).variables()[variable@],
                    )
                } else {
                    final(self).variables() == old(self).variables()
                },
            },
    {
        match command {
            Command::AssertExists(source) => self.assert_exists(source),
            Command::Read(source, destination) => self.read(source, destination),
        }
    }

    /// Checks that a source exists: the machine is asked once, and the check
    /// goes as it answers.
    pub fn assert_exists(&self, source: DataSource) -> (r: Result<(), ExerciseError>)
        ensures
            exists_outcome(self.environment(), source@, checked(r)),
            r is Err ==> r->Err_0@ == match source {
                DataSource::File(path) => ExerciseErrorView::MissingFile(path@),
                DataSource::Env(name) => ExerciseErrorView::MissingEnvVar(name@),
            },
    {
        match source {
            DataSource::File(path) => self.assert_file_exists(path),
            DataSource::Env(name) => self.assert_env_var_exists(name),
        }
    }

    /// Copies what a source holds into a variable.
    pub fn read(&mut self, source: DataSource, destination: Variable) -> (r: Result<
        (),
        ExerciseError,
    >)
        ensures
            final(self).environment() == old(self).environment(),
            read_outcome(
                old(self).environment(),
                old(self).variables(),
                source@,
                destination@,
                final(self).variables(),
                checked(r),
            ),
            if r is Ok {
                final(self).variables().contains_key(destination@) && final(self).variables()
                    == old(self).variables().insert(
                    destination@,
                    final(self).variables()[destination@],
                )
            } else {
                final(self).variables() == old(self).variables() && r->Err_0@ == match source {
                    DataSource::File(path) => ExerciseErrorView::UnreadableFile(path@),
                    DataSource::Env(name) => ExerciseErrorView::MissingEnvVar(name@),
                }
            },
    {
        let answer = match source {
            DataSource::File(path) => self.file_content(path),
            DataSource::Env(name) => self.env_var_value(name),
        };
        let ghost outcome = fetched(answer);
        match answer {
            Ok(content) => {
                self.set_variable(destination, content);
                assert(read_outcome(
                    old(self).environment(),
                    old(self).variables(),
                    source@,
                    destination@,
                    self.variables(),
                    Ok(()),
                )) by {
                    assert(content_outcome(old(self).environment(), source@, outcome));
                }
                Ok(())
            },
            Err(e) => {
                assert(read_outcome(
                    old(self).environment(),
                    old(self).variables(),
                    source@,
                    destination@,
                    self.variables(),
                    Err(e@),
                )) by {
                    assert(content_outcome(old(self).environment(), source@, outcome));
                }
                Err(e)
            },
        }
    }

    /// Checks that a file exists at the path: the machine is asked once
    /// whether it does, and the check goes well exactly where it says so.
    pub fn assert_file_exists(&self, path: String) -> (r: Result<(), ExerciseError>)
        ensures
            exists_outcome(self.environment(), DataSourceView::File(path@), checked(r)),
            r is Err ==> r->Err_0@ == ExerciseErrorView::MissingFile(path@),
    {
        let found = self.environment.file_exists(path.as_str());
        assert(self.environment().answers_file_exists(path@, found));
        require_found(found, ExerciseError::MissingFile(path))
    }

    /// Checks that an environment variable is set: the machine is asked once
    /// for the variable, and the check goes well exactly where it gives a
    /// value.
    pub fn assert_env_var_exists(&self, name: String) -> (r: Result<(), ExerciseError>)
        ensures
            exists_outcome(self.environment(), DataSourceView::Env(name@), checked(r)),
            r is Err ==> r->Err_0@ == ExerciseErrorView::MissingEnvVar(name@),
    {
        let value = self.environment.get_env_var(name.as_str());
        assert(self.environment().answers_env_var(name@, option_text(value)));
        require_found(value.is_some(), ExerciseError::MissingEnvVar(name))
    }

    /// What the file at the path holds: the machine is asked once, and its
    /// answer is the content; no answer is a failure that names the path.
    pub fn file_content(&self, path: String) -> (r: Result<String, ExerciseError>)
        ensures
            content_outcome(self.environment(), DataSourceView::File(path@), fetched(r)),
            r is Err ==> r->Err_0@ == ExerciseErrorView::UnreadableFile(path@),
    {
        let value = self.environment.file_content(path.as_str());
        assert(self.environment().answers_file_content(path@, option_text(value)));
        require_value(value, ExerciseError::UnreadableFile(path))
    }

    /// The value of an environment variable: the machine is asked once, and
    /// its answer is the value; no answer is a failure that names the
    /// variable.
    pub fn env_var_value(&self, name: String) -> (r: Result<String, ExerciseError>)
        ensures
            content_outcome(self.environment(), DataSourceView::Env(name@), fetched(r)),
            r is Err ==> r->Err_0@ == ExerciseErrorView::MissingEnvVar(name@),
    {
        let value = self.environment.get_env_var(name.as_str());
        assert(self.environment().answers_env_var(name@, option_text(value)));
        require_value(value, ExerciseError::MissingEnvVar(name))
    }
}

} // verus!
