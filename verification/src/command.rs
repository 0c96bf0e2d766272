//! The commands of the interactive front end: their syntax, and what each
//! does to the architecture and the context.
use vstd::prelude::*;
use vstd::string::StringExecFns;
use crate::arch::context::{Context, ContextView};
use crate::arch::node::{CallbackKind, Node};
use crate::arch::trace::{faithful, sink_total, without_value};
use crate::arch::{a6502, a65c02, a65c816, Arch, Archs};
use crate::error::{Error, ErrorView};
use crate::number::{auto_radix_address, auto_radix_usize, spec_auto_unsigned};
use crate::search::{first_index, views};
use crate::symbols::{named, Symbol, SymbolView};
use crate::text::{str_eq, str_less, str_starts_with, text_less, text_starts_with};
use crate::Address;

verus! {

/// A parameter of an action.
#[derive(Debug)]
pub struct Param {
    pub name: String,
    /// The value that stands in for a missing argument.
    pub default_value: Option<String>,
}

impl Default for Param {
    fn default() -> (r: Param)
        ensures
            r.name@ == Seq::<char>::empty(),
            r.default_value is None,
    {
        Param { name: String::new(), default_value: None }
    }
}

impl Param {
    /// A parameter that has to be given.
    pub fn new(name: &str) -> (r: Param)
        ensures
            r.name@ == name@,
            r.default_value is None,
    {
        Param { name: name.to_owned(), default_value: None }
    }

    /// A parameter that may be left out.
    pub fn with_default(name: &str, default_value: &str) -> (r: Param)
        ensures
            r.name@ == name@,
            r.default_value is Some,
            r.default_value->0@ == default_value@,
    {
        Param { name: name.to_owned(), default_value: Some(default_value.to_owned()) }
    }

    /// How the parameter is shown in a help line.
    pub open spec fn spec_help(&self) -> Seq<char> {
        match self.default_value {
            Some(d) => " ["@ + self.name@ + "='"@ + d@ + "']"@,
            None => " ["@ + self.name@ + "]"@,
        }
    }
}

/// What a command is, once its arguments are read.
#[derive(Debug)]
pub enum Commands {
    Exit,
    Help(String),
    DisasCode,
    SetStartLabel(String),
    SetStartAddress(Address),
    SetReadLen(usize),
    ReadFile(Option<String>),
    ReadContext(Option<String>),
    ReadArch(Option<String>),
    UseArch(String),
    SaveArch(Option<String>),
    SaveContext(Option<String>),
    SetOrg(Address),
    NewSymbol(Symbol),
    DefFlag(String, String),
    UndefFlag(String),
}

/// The mathematical value of a [`Commands`].
pub enum CommandsView {
    Exit,
    Help(Seq<char>),
    DisasCode,
    SetStartLabel(Seq<char>),
    SetStartAddress(Address),
    SetReadLen(usize),
    ReadFile(Option<Seq<char>>),
    ReadContext(Option<Seq<char>>),
    ReadArch(Option<Seq<char>>),
    UseArch(Seq<char>),
    SaveArch(Option<Seq<char>>),
    SaveContext(Option<Seq<char>>),
    SetOrg(Address),
    NewSymbol(SymbolView),
    DefFlag(Seq<char>, Seq<char>),
    UndefFlag(Seq<char>),
}

/// The text of an optional string.
pub open spec fn path_view(p: Option<String>) -> Option<Seq<char>> {
    match p {
        Some(s) => Some(s@),
        None => None,
    }
}

impl View for Commands {
    type V = CommandsView;

    open spec fn view(&self) -> CommandsView {
        match self {
            Commands::Exit => CommandsView::Exit,
            Commands::Help(s) => CommandsView::Help(s@),
            Commands::DisasCode => CommandsView::DisasCode,
            Commands::SetStartLabel(s) => CommandsView::SetStartLabel(s@),
            Commands::SetStartAddress(a) => CommandsView::SetStartAddress(*a),
            Commands::SetReadLen(n) => CommandsView::SetReadLen(*n),
            Commands::ReadFile(p) => CommandsView::ReadFile(path_view(*p)),
            Commands::ReadContext(p) => CommandsView::ReadContext(path_view(*p)),
            Commands::ReadArch(p) => CommandsView::ReadArch(path_view(*p)),
            Commands::UseArch(s) => CommandsView::UseArch(s@),
            Commands::SaveArch(p) => CommandsView::SaveArch(path_view(*p)),
            Commands::SaveContext(p) => CommandsView::SaveContext(path_view(*p)),
            Commands::SetOrg(a) => CommandsView::SetOrg(*a),
            Commands::NewSymbol(s) => CommandsView::NewSymbol(s@),
            Commands::DefFlag(k, v) => CommandsView::DefFlag(k@, v@),
            Commands::UndefFlag(k) => CommandsView::UndefFlag(k@),
        }
    }
}

/// The argument at `index`, or the default of the parameter at `index`
/// where the argument is missing; `None` where there is no such parameter or
/// neither argument nor default.
pub open spec fn spec_arg(args: Seq<String>, params: Seq<Param>, index: int) -> Option<Seq<char>> {
    if 0 <= index < params.len() {
        if index < args.len() {
            Some(args[index]@)
        } else {
            match params[index].default_value {
                Some(d) => Some(d@),
                None => None,
            }
        }
    } else {
        None
    }
}

/// The argument at `index`, or its default.
pub fn try_get_arg(args: &[String], params: &[Param], index: usize) -> (r: Result<String, Error>)
    ensures
        match spec_arg(args@, params@, index as int) {
            Some(t) => r is Ok && r->Ok_0@ == t,
            None => r is Err && r->Err_0@ == ErrorView::InsufficientArguments,
        },
{
    if index < params.len() {
        if index < args.len() {
            Ok(args[index].clone())
        } else {
            match &params[index].default_value {
                Some(def) => Ok(def.clone()),
                None => Err(Error::InsufficientArguments),
            }
        }
    } else {
        Err(Error::InsufficientArguments)
    }
}

/// The argument at `index`, or its default, if there is either.
pub fn get_optional_arg(args: &[String], params: &[Param], index: usize) -> (r: Option<String>)
    ensures
        path_view(r) == spec_arg(args@, params@, index as int),
{
    match try_get_arg(args, params, index) {
        Ok(s) => Some(s),
        Err(_) => None,
    }
}

/// Fails where there are more arguments than parameters.
pub fn has_too_many_args(args: &[String], params: &[Param]) -> (r: Result<(), Error>)
    ensures
        args@.len() > params@.len() ==> r is Err && r->Err_0@ == ErrorView::TooManyArguments,
        args@.len() <= params@.len() ==> r is Ok,
{
    if args.len() > params.len() {
        Err(Error::TooManyArguments)
    } else {
        Ok(())
    }
}

/// Which command an action makes of its arguments.
#[derive(Clone, Copy, Debug, PartialEq, Eq, Structural)]
pub enum Parser {
    Help,
    Exit,
    DisasCode,
    FileReadPath,
    StartLabel,
    ReadLen,
    StartAddress,
    CtxWritePath,
    ArchWritePath,
    CtxReadPath,
    ArchReadPath,
    BuiltInArch,
}

/// What a parser makes of the arguments: too many arguments are a failure;
/// then the first argument, or its default, is read as the command needs it.
pub open spec fn spec_parse(parser: Parser, args: Seq<String>, params: Seq<Param>) -> Result<
    CommandsView,
    ErrorView,
> {
    let first = spec_arg(args, params, 0);
    if args.len() > params.len() {
        Err(ErrorView::TooManyArguments)
    } else {
        match parser {
            Parser::Exit => Ok(CommandsView::Exit),
            Parser::DisasCode => Ok(CommandsView::DisasCode),
            Parser::FileReadPath => Ok(CommandsView::ReadFile(first)),
            Parser::CtxWritePath => Ok(CommandsView::SaveContext(first)),
            Parser::ArchWritePath => Ok(CommandsView::SaveArch(first)),
            Parser::CtxReadPath => Ok(CommandsView::ReadContext(first)),
            Parser::ArchReadPath => Ok(CommandsView::ReadArch(first)),
            _ => match first {
                None => Err(ErrorView::InsufficientArguments),
                Some(t) => match parser {
                    Parser::Help => Ok(CommandsView::Help(t)),
                    Parser::StartLabel => Ok(CommandsView::SetStartLabel(t)),
                    Parser::BuiltInArch => Ok(CommandsView::UseArch(t)),
                    Parser::ReadLen => match spec_auto_unsigned(t, usize::MAX as nat) {
                        Some(n) => Ok(CommandsView::SetReadLen(n as usize)),
                        None => Err(ErrorView::ParseIntError(t)),
                    },
                    _ => match spec_auto_unsigned(t, u64::MAX as nat) {
                        Some(n) => Ok(CommandsView::SetStartAddress(n as Address)),
                        None => Err(ErrorView::ParseIntError(t)),
                    },
                },
            },
        }
    }
}

/// Whether the result `r` is the result `res`.
pub open spec fn parsed_as(r: Result<Commands, Error>, res: Result<CommandsView, ErrorView>) -> bool {
    match (r, res) {
        (Ok(c), Ok(v)) => c@ == v,
        (Err(e), Err(v)) => e@ == v,
        _ => false,
    }
}

/// Reads the arguments of the help command.
pub fn help_parser(args: &[String], params: &[Param]) -> (r: Result<Commands, Error>)
    ensures
        parsed_as(r, spec_parse(Parser::Help, args@, params@)),
{
    match has_too_many_args(args, params) {
        Ok(u) => {},
        Err(e) => {
            return Err(e);
        },
    }
    match try_get_arg(args, params, 0) {
        Ok(cmd) => Ok(Commands::Help(cmd)),
        Err(e) => Err(e),
    }
}

/// Reads the arguments of the command that leaves the program.
pub fn exit_parser(args: &[String], params: &[Param]) -> (r: Result<Commands, Error>)
    ensures
        parsed_as(r, spec_parse(Parser::Exit, args@, params@)),
{
    match has_too_many_args(args, params) {
        Ok(u) => Ok(Commands::Exit),
        Err(e) => Err(e),
    }
}

/// Reads the label at which the window is to start.
pub fn disas_start_label_parser(args: &[String], params: &[Param]) -> (r: Result<Commands, Error>)
    ensures
        parsed_as(r, spec_parse(Parser::StartLabel, args@, params@)),
{
    match has_too_many_args(args, params) {
        Ok(u) => {},
        Err(e) => {
            return Err(e);
        },
    }
    match try_get_arg(args, params, 0) {
        Ok(label) => Ok(Commands::SetStartLabel(label)),
        Err(e) => Err(e),
    }
}

/// Reads the length of the window.
pub fn disas_read_len_parser(args: &[String], params: &[Param]) -> (r: Result<Commands, Error>)
    ensures
        parsed_as(r, spec_parse(Parser::ReadLen, args@, params@)),
{
    match has_too_many_args(args, params) {
        Ok(u) => {},
        Err(e) => {
            return Err(e);
        },
    }
    let text = match try_get_arg(args, params, 0) {
        Ok(t) => t,
        Err(e) => {
            return Err(e);
        },
    };
    match auto_radix_usize(text.as_str()) {
        Ok(to) => Ok(Commands::SetReadLen(to)),
        Err(e) => Err(e),
    }
}

/// Reads the arguments of the command that disassembles.
pub fn disas_code_parser(args: &[String], params: &[Param]) -> (r: Result<Commands, Error>)
    ensures
        parsed_as(r, spec_parse(Parser::DisasCode, args@, params@)),
{
    match has_too_many_args(args, params) {
        Ok(u) => Ok(Commands::DisasCode),
        Err(e) => Err(e),
    }
}

/// Reads the path of the input, if one is given.
pub fn optional_file_read_path_parser(args: &[String], params: &[Param]) -> (r: Result<Commands, Error>)
    ensures
        parsed_as(r, spec_parse(Parser::FileReadPath, args@, params@)),
{
    match has_too_many_args(args, params) {
        Ok(u) => Ok(Commands::ReadFile(get_optional_arg(args, params, 0))),
        Err(e) => Err(e),
    }
}

/// Reads the path to which the context is saved, if one is given.
pub fn optional_ctx_write_path_parser(args: &[String], params: &[Param]) -> (r: Result<Commands, Error>)
    ensures
        parsed_as(r, spec_parse(Parser::CtxWritePath, args@, params@)),
{
    match has_too_many_args(args, params) {
        Ok(u) => Ok(Commands::SaveContext(get_optional_arg(args, params, 0))),
        Err(e) => Err(e),
    }
}

/// Reads the path to which the architecture is saved, if one is given.
pub fn optional_arch_write_path_parser(args: &[String], params: &[Param]) -> (r: Result<Commands, Error>)
    ensures
        parsed_as(r, spec_parse(Parser::ArchWritePath, args@, params@)),
{
    match has_too_many_args(args, params) {
        Ok(u) => Ok(Commands::SaveArch(get_optional_arg(args, params, 0))),
        Err(e) => Err(e),
    }
}

/// Reads the address at which the window is to start.
pub fn disas_start_address_parser(args: &[String], params: &[Param]) -> (r: Result<Commands, Error>)
    ensures
        parsed_as(r, spec_parse(Parser::StartAddress, args@, params@)),
{
    match has_too_many_args(args, params) {
        Ok(u) => {},
        Err(e) => {
            return Err(e);
        },
    }
    let text = match try_get_arg(args, params, 0) {
        Ok(t) => t,
        Err(e) => {
            return Err(e);
        },
    };
    match auto_radix_address(text.as_str()) {
        Ok(address) => Ok(Commands::SetStartAddress(address)),
        Err(e) => Err(e),
    }
}

/// Reads the path from which the context is read, if one is given.
pub fn optional_ctx_read_path_parser(args: &[String], params: &[Param]) -> (r: Result<Commands, Error>)
    ensures
        parsed_as(r, spec_parse(Parser::CtxReadPath, args@, params@)),
{
    match has_too_many_args(args, params) {
        Ok(u) => Ok(Commands::ReadContext(get_optional_arg(args, params, 0))),
        Err(e) => Err(e),
    }
}

/// Reads the path from which the architecture is read, if one is given.
pub fn optional_arch_read_path_parser(args: &[String], params: &[Param]) -> (r: Result<Commands, Error>)
    ensures
        parsed_as(r, spec_parse(Parser::ArchReadPath, args@, params@)),
{
    match has_too_many_args(args, params) {
        Ok(u) => Ok(Commands::ReadArch(get_optional_arg(args, params, 0))),
        Err(e) => Err(e),
    }
}

/// Reads the name of the built-in architecture to load.
pub fn load_build_in_arch_parser(args: &[String], params: &[Param]) -> (r: Result<Commands, Error>)
    ensures
        parsed_as(r, spec_parse(Parser::BuiltInArch, args@, params@)),
{
    match has_too_many_args(args, params) {
        Ok(u) => {},
        Err(e) => {
            return Err(e);
        },
    }
    match try_get_arg(args, params, 0) {
        Ok(name) => Ok(Commands::UseArch(name)),
        Err(e) => Err(e),
    }
}

/// A command of the interactive front end: its name, its parameters, how
/// its arguments are read, and a line of help.
#[derive(Debug)]
pub struct Action {
    pub help: String,
    pub name: String,
    pub params: Vec<Param>,
    pub parser: Parser,
}

/// The help of the parameters from `from` on.
pub open spec fn params_help(params: Seq<Param>, from: int) -> Seq<char>
    decreases params.len() - from,
{
    if from < 0 || from >= params.len() {
        Seq::empty()
    } else {
        params[from].spec_help() + params_help(params, from + 1)
    }
}

impl Action {
    /// The command called `name`.
    pub fn new(name: &str, params: Vec<Param>, parser: Parser, help: &str) -> (r: Action)
        ensures
            r.name@ == name@,
            r.help@ == help@,
            r.params == params,
            r.parser == parser,
    {
        Action { name: name.to_owned(), help: help.to_owned(), params, parser }
    }

    /// Reads the arguments of the command.
    pub fn eval(&self, args: &[String]) -> (r: Result<Commands, Error>)
        ensures
            parsed_as(r, spec_parse(self.parser, args@, self.params@)),
    {
        let params = self.params.as_slice();
        match self.parser {
            Parser::Help => help_parser(args, params),
            Parser::Exit => exit_parser(args, params),
            Parser::DisasCode => disas_code_parser(args, params),
            Parser::FileReadPath => optional_file_read_path_parser(args, params),
            Parser::StartLabel => disas_start_label_parser(args, params),
            Parser::ReadLen => disas_read_len_parser(args, params),
            Parser::StartAddress => disas_start_address_parser(args, params),
            Parser::CtxWritePath => optional_ctx_write_path_parser(args, params),
            Parser::ArchWritePath => optional_arch_write_path_parser(args, params),
            Parser::CtxReadPath => optional_ctx_read_path_parser(args, params),
            Parser::ArchReadPath => optional_arch_read_path_parser(args, params),
            Parser::BuiltInArch => load_build_in_arch_parser(args, params),
        }
    }

    /// The help line of the command: its name, its parameters, its help.
    pub open spec fn spec_help(&self) -> Seq<char> {
        self.name@ + params_help(self.params@, 0) + " "@ + self.help@ + "\n"@
    }

    /// Appends the help line of the command.
    pub fn help(&self, out: &mut String)
        ensures
            final(out)@ == old(out)@ + self.spec_help(),
    {
        out.append(self.name.as_str());
        let ghost head = out@;
        let mut i: usize = 0;
        assert(head + params_help(self.params@, 0) =~= out@ + params_help(self.params@, 0));
        while i < self.params.len()
            invariant
                i <= self.params.len(),
                head == old(out)@ + self.name@,
                head + params_help(self.params@, 0) == out@ + params_help(self.params@, i as int),
            decreases self.params.len() - i,
        {
            let x = &self.params[i];
            let ghost before = out@;
            let ghost rest = params_help(self.params@, i + 1);
            out.append(" [");
            out.append(x.name.as_str());
            match &x.default_value {
                Some(default_value) => {
                    out.append("='");
                    out.append(default_value.as_str());
                    out.append("']");
                },
                None => {
                    out.append("]");
                },
            }
            assert(out@ + rest =~= before + (x.spec_help() + rest));
            i += 1;
        }
        let ghost listed = out@;
        out.append(" ");
        out.append(self.help.as_str());
        out.append("\n");
        assert(listed + params_help(self.params@, i as int) =~= listed);
        assert(out@ =~= old(out)@ + self.spec_help());
    }
}

/// The commands that the front end knows, in the order of their names.
#[derive(Debug)]
pub struct ActionList {
    pub actions: Vec<Action>,
}

impl Default for ActionList {
    fn default() -> (r: ActionList)
        ensures
            r.actions@.len() == 0,
    {
        ActionList { actions: Vec::new() }
    }
}

/// The actions called `name`.
pub open spec fn called(name: Seq<char>) -> spec_fn(Action) -> bool {
    |a: Action| a.name@ == name
}

/// The help lines of the actions from `from` on whose name begins with `cmd`.
pub open spec fn help_lines(actions: Seq<Action>, cmd: Seq<char>, from: int) -> Seq<char>
    decreases actions.len() - from,
{
    if from < 0 || from >= actions.len() {
        Seq::empty()
    } else {
        (if text_starts_with(actions[from].name@, cmd) {
            actions[from].spec_help()
        } else {
            Seq::empty()
        }) + help_lines(actions, cmd, from + 1)
    }
}

/// Whether `after` is `before` with `action` entered at some place.
#[verifier::opaque]
pub open spec fn entered(before: Seq<Action>, after: Seq<Action>, action: Action) -> bool {
    exists|at: int| 0 <= at <= before.len() && after == #[trigger] before.insert(at, action)
}

/// Whether `name` comes before none of the names of the first `upto` actions.
pub open spec fn not_before(actions: Seq<Action>, name: Seq<char>, upto: int) -> bool
    decreases upto,
{
    if upto <= 0 {
        true
    } else {
        not_before(actions, name, upto - 1) && !text_less(name, actions[upto - 1].name@)
    }
}

/// One more action before whose name `name` does not come.
pub proof fn lemma_not_before_next(actions: Seq<Action>, name: Seq<char>, upto: int)
    requires
        0 <= upto < actions.len(),
        not_before(actions, name, upto),
        !text_less(name, actions[upto].name@),
    ensures
        not_before(actions, name, upto + 1),
{
}

/// Whether the name of the action at `i` does not come after the next name.
pub open spec fn step_in_order(actions: Seq<Action>, i: int) -> bool {
    !text_less(actions[i + 1].name@, actions[i].name@)
}

/// Entering an action at the place of its name keeps the order of the names.
pub proof fn lemma_enter(before: Seq<Action>, at: int, action: Action)
    requires
        0 <= at <= before.len(),
        in_order(before),
        not_before(before, action.name@, at),
        at < before.len() ==> text_less(action.name@, before[at].name@),
    ensures
        in_order(before.insert(at, action)),
        entered(before, before.insert(at, action), action),
{
    reveal(in_order);
    reveal(entered);
    let after = before.insert(at, action);
    assert forall|i: int| 0 <= i < after.len() - 1 implies #[trigger] step_in_order(after, i) by {
        if i + 1 < at {
            assert(after[i] == before[i] && after[i + 1] == before[i + 1]);
            assert(step_in_order(before, i));
        } else if i + 1 == at {
            assert(after[i] == before[i] && after[i + 1] == action);
            assert(not_before(before, action.name@, i + 1));
        } else if i == at {
            assert(after[i] == action && after[i + 1] == before[i]);
            crate::text::lemma_text_trichotomy(action.name@, before[at].name@);
        } else {
            assert(after[i] == before[i - 1] && after[i + 1] == before[i]);
            assert(step_in_order(before, i - 1));
        }
    }
}

/// Whether each name comes before or is the next one.
#[verifier::opaque]
pub open spec fn in_order(actions: Seq<Action>) -> bool {
    forall|i: int| 0 <= i < actions.len() - 1 ==> #[trigger] step_in_order(actions, i)
}

/// What a line of words is as a command: the first word names the action,
/// the others are its arguments.
pub open spec fn spec_eval_words(actions: Seq<Action>, words: Seq<String>) -> Result<CommandsView, ErrorView> {
    if words.len() == 0 {
        Err(ErrorView::Unknown)
    } else {
        match first_index(actions, called(words[0]@), 0) {
            Some(i) => spec_parse(actions[i].parser, words.skip(1), actions[i].params@),
            None => Err(ErrorView::UnknownCommand(words[0]@)),
        }
    }
}

/// The words that `shell_words::split` makes of a line; `None` where the
/// line ends inside a quotation.
pub uninterp spec fn shell_split(line: Seq<char>) -> Option<Seq<Seq<char>>>;

/// The error of `shell_words::split`.
#[verifier::external_type_specification]
#[verifier::external_body]
pub struct ExParseError(shell_words::ParseError);

/// Splits a line into words as a shell does: `shell_words::split`. The
/// result is a function of the line alone; it fails exactly where the line
/// ends inside a quotation.
#[verifier::external_body]
fn split_line(line: &str) -> (r: Result<Vec<String>, shell_words::ParseError>)
    ensures
        match shell_split(line@) {
            Some(words) => r is Ok && views(r->Ok_0@) == words,
            None => r is Err,
        },
{
    shell_words::split(line)
}

impl ActionList {
    /// Enters `action` behind the actions whose names do not come after its
    /// name.
    pub fn insert(&mut self, action: Action)
        requires
            in_order(old(self).actions@),
        ensures
            in_order(final(self).actions@),
            final(self).actions@.len() == old(self).actions@.len() + 1,
            entered(old(self).actions@, final(self).actions@, action),
    {
        let mut at: usize = 0;
        while at < self.actions.len() && !str_less(action.name.as_str(), self.actions[at].name.as_str())
            invariant
                at <= self.actions.len(),
                *self == *old(self),
                not_before(self.actions@, action.name@, at as int),
            decreases self.actions.len() - at,
        {
            proof {
                lemma_not_before_next(self.actions@, action.name@, at as int);
            }
            at += 1;
        }
        proof {
            lemma_enter(self.actions@, at as int, action);
        }
        self.actions.insert(at, action);
    }

    /// Reads a line as a command. A line that ends inside a quotation is a
    /// failure.
    pub fn eval(&self, input: &str) -> (r: Result<Commands, Error>)
        ensures
            shell_split(input@) is None ==> r is Err && r->Err_0@ == ErrorView::Other(
                "missing closing quote"@,
            ),
            shell_split(input@) is Some ==> exists|words: Seq<String>|
                views(words) == shell_split(input@)->0 && #[trigger] parsed_as(
                    r,
                    spec_eval_words(self.actions@, words),
                ),
    {
        match split_line(input) {
            Ok(split) => {
                let r = self.eval_words(split.as_slice());
                assert(parsed_as(r, spec_eval_words(self.actions@, split@)));
                r
            },
            Err(_) => Err(Error::Other("missing closing quote".to_owned())),
        }
    }

    /// Reads the words of a line as a command: the first word names the
    /// action, the others are its arguments.
    pub fn eval_words(&self, words: &[String]) -> (r: Result<Commands, Error>)
        ensures
            parsed_as(r, spec_eval_words(self.actions@, words@)),
    {
        if words.len() == 0 {
            return Err(Error::Unknown);
        }
        let cmd = &words[0];
        let args = vstd::slice::slice_subrange(words, 1, words.len());
        assert(args@ =~= words@.skip(1));
        let mut i: usize = 0;
        while i < self.actions.len()
            invariant
                i <= self.actions.len(),
                words@.len() > 0,
                *cmd == words@[0],
                args@ == words@.skip(1),
                first_index(self.actions@, called(cmd@), 0) == first_index(
                    self.actions@,
                    called(cmd@),
                    i as int,
                ),
            decreases self.actions.len() - i,
        {
            if str_eq(self.actions[i].name.as_str(), cmd.as_str()) {
                assert(called(cmd@)(self.actions@[i as int]));
                return self.actions[i].eval(args);
            }
            i += 1;
        }
        Err(Error::UnknownCommand(cmd.clone()))
    }

    /// The help lines of the commands whose name begins with `cmd`; fails
    /// where there is no such command.
    pub fn help(&self, cmd: &str) -> (r: Result<String, Error>)
        ensures
            match r {
                Ok(text) => text@ == help_lines(self.actions@, cmd@, 0) && exists|i: int|
                    0 <= i < self.actions@.len() && text_starts_with(
                        (#[trigger] self.actions@[i]).name@,
                        cmd@,
                    ),
                Err(e) => e@ == ErrorView::UnknownCommand(cmd@) && forall|i: int|
                    0 <= i < self.actions@.len() ==> !text_starts_with(
                        (#[trigger] self.actions@[i]).name@,
                        cmd@,
                    ),
            },
    {
        let mut out = String::new();
        let mut printed = false;
        let mut i: usize = 0;
        assert(out@ + help_lines(self.actions@, cmd@, 0) =~= help_lines(self.actions@, cmd@, 0));
        while i < self.actions.len()
            invariant
                i <= self.actions.len(),
                help_lines(self.actions@, cmd@, 0) == out@ + help_lines(self.actions@, cmd@, i as int),
                printed <==> exists|k: int|
                    0 <= k < i && text_starts_with((#[trigger] self.actions@[k]).name@, cmd@),
            decreases self.actions.len() - i,
        {
            let action = &self.actions[i];
            let ghost before = out@;
            let ghost rest = help_lines(self.actions@, cmd@, i + 1);
            if str_starts_with(action.name.as_str(), cmd) {
                printed = true;
                action.help(&mut out);
                assert(before + (action.spec_help() + rest) =~= out@ + rest);
            } else {
                assert(before + (Seq::<char>::empty() + rest) =~= out@ + rest);
            }
            i += 1;
        }
        assert(out@ + help_lines(self.actions@, cmd@, i as int) =~= out@);
        if printed {
            Ok(out)
        } else {
            Err(Error::UnknownCommand(cmd.to_owned()))
        }
    }
}

/// The name under which a built-in architecture is loaded.
pub open spec fn is_built_in(name: Seq<char>) -> bool {
    name == "6502"@ || name == "65c02"@ || name == "65816"@
}

/// Whether `arch` holds the rules and the address width of the built-in
/// architecture called `name`.
pub open spec fn is_built_in_arch(name: Seq<char>, arch: &Arch) -> bool {
    &&& name == "6502"@ ==> a6502::built_6502(arch.patterns@.drop_last()) && arch.addr_type
        == crate::value::DataType::U16
    &&& name == "65c02"@ ==> a65c02::built_65c02(arch.patterns@.drop_last()) && a65c02::shaped_own(
        arch.transforms@,
    ) && arch.addr_type == crate::value::DataType::U16
    &&& name == "65816"@ ==> a65c816::built_65c816(arch.patterns@.drop_last()) && a65c02::shaped_own(
        arch.transforms@,
    ) && a65c816::shaped_own(arch.transforms@) && arch.addr_type == crate::value::DataType::U32
}

/// The built-in registry called `name`.
pub fn arch_map(name: &str) -> (r: Option<Archs>)
    ensures
        r is Some <==> is_built_in(name@),
        r is Some ==> a6502::well_formed(&r->0.archs@[""@]) && a6502::family(&r->0.archs@[""@])
            && a6502::shaped_6502(r->0.archs@[""@].transforms@) && is_built_in_arch(name@, &r->0.archs@[""@])
            && r->0.archs@.dom() =~= set![""@] && r->0.org == 0 && r->0.syms@ == Seq::<SymbolView>::empty(),
{
    proof {
        reveal_strlit("6502");
        reveal_strlit("65c02");
        reveal_strlit("65816");
        assert("6502"@.len() == 4 && "65c02"@.len() == 5 && "65816"@.len() == 5);
        assert("65c02"@[2] != "65816"@[2]);
    }
    if str_eq(name, "6502") {
        Some(a6502::arch())
    } else if str_eq(name, "65c02") {
        Some(a65c02::arch())
    } else if str_eq(name, "65816") {
        Some(a65c816::arch())
    } else {
        None
    }
}

/// The parameter list that holds the one parameter.
fn one_param(param: Param) -> (r: Vec<Param>)
    ensures
        r@ == seq![param],
{
    let mut v: Vec<Param> = Vec::new();
    v.push(param);
    v
}

/// What an action is: its name, for each parameter its name and default,
/// how its arguments are read, and its help.
pub struct ActionSpec {
    pub name: Seq<char>,
    pub params: Seq<(Seq<char>, Option<Seq<char>>)>,
    pub parser: Parser,
    pub help: Seq<char>,
}

/// The name and the default of a parameter.
pub open spec fn param_view(p: Param) -> (Seq<char>, Option<Seq<char>>) {
    (p.name@, path_view(p.default_value))
}

/// Whether the action `a` is the one that `s` describes.
pub open spec fn describes_action(a: Action, s: ActionSpec) -> bool {
    &&& a.name@ == s.name
    &&& a.help@ == s.help
    &&& a.parser == s.parser
    &&& a.params@.len() == s.params.len()
    &&& forall|i: int| 0 <= i < s.params.len() ==> param_view(#[trigger] a.params@[i]) == s.params[i]
}

/// Whether `actions` holds the action that `s` describes.
pub open spec fn listed(actions: Seq<Action>, s: ActionSpec) -> bool {
    exists|i: int| 0 <= i < actions.len() && describes_action(#[trigger] actions[i], s)
}

/// The commands of the front end, in the order in which they are entered.
pub open spec fn default_specs() -> Seq<ActionSpec> {
    seq![
        ActionSpec { name: "?"@, params: seq![("command"@, Some(""@))], parser: Parser::Help, help: "Display help"@ },
        ActionSpec { name: "q"@, params: Seq::empty(), parser: Parser::Exit, help: "Quit the program"@ },
        ActionSpec { name: "dc"@, params: Seq::empty(), parser: Parser::DisasCode, help: "Disassemble code"@ },
        ActionSpec { name: "lf"@, params: seq![("path"@, None::<Seq<char>>)], parser: Parser::FileReadPath, help: "Read a file"@ },
        ActionSpec { name: "dcl"@, params: seq![("label"@, None::<Seq<char>>)], parser: Parser::StartLabel, help: "Set disas starting point to a label"@ },
        ActionSpec { name: "dcr"@, params: seq![("len"@, None::<Seq<char>>)], parser: Parser::ReadLen, help: "Set disas read length"@ },
        ActionSpec { name: "dca"@, params: seq![("address"@, None::<Seq<char>>)], parser: Parser::StartAddress, help: "Set disas starting point to an address"@ },
        ActionSpec { name: "sc"@, params: seq![("path"@, None::<Seq<char>>)], parser: Parser::CtxWritePath, help: "Save the current context"@ },
        ActionSpec { name: "sa"@, params: seq![("path"@, None::<Seq<char>>)], parser: Parser::ArchWritePath, help: "Save the current architecture"@ },
        ActionSpec { name: "lc"@, params: seq![("path"@, None::<Seq<char>>)], parser: Parser::CtxReadPath, help: "Read context from file"@ },
        ActionSpec { name: "la"@, params: seq![("path"@, None::<Seq<char>>)], parser: Parser::ArchReadPath, help: "Read arch from file"@ },
        ActionSpec { name: "lab"@, params: seq![("name"@, None::<Seq<char>>)], parser: Parser::BuiltInArch, help: "Load built-in arch (possible values: 6502 65816 65c02)"@ },
    ]
}

/// An action that was entered is listed, and so is every action that was
/// listed before.
pub proof fn lemma_entered_lists(
    before: Seq<Action>,
    after: Seq<Action>,
    action: Action,
    specs: Seq<ActionSpec>,
    upto: int,
)
    requires
        entered(before, after, action),
        0 <= upto < specs.len(),
        forall|j: int| 0 <= j < upto ==> listed(before, #[trigger] specs[j]),
        describes_action(action, specs[upto]),
    ensures
        forall|j: int| 0 <= j <= upto ==> listed(after, #[trigger] specs[j]),
{
    reveal(entered);
    let at = choose|at: int| 0 <= at <= before.len() && after == #[trigger] before.insert(at, action);
    assert forall|j: int| 0 <= j <= upto implies listed(after, #[trigger] specs[j]) by {
        if j == upto {
            assert(after[at] == action);
        } else {
            let i = choose|i: int| 0 <= i < before.len() && describes_action(#[trigger] before[i], specs[j]);
            if i < at {
                assert(after[i] == before[i]);
            } else {
                assert(after[i + 1] == before[i]);
            }
        }
    }
}

/// The commands of the front end: the twelve that `default_specs` describes
/// and no other, in the order of their names.
pub fn default_actions() -> (r: ActionList)
    ensures
        r.actions@.len() == 12,
        in_order(r.actions@),
        forall|k: int| 0 <= k < 12 ==> listed(r.actions@, #[trigger] default_specs()[k]),
{
    let mut list = ActionList { actions: Vec::new() };
    proof {
        reveal(in_order);
    }
    let action = Action::new("?", one_param(Param::with_default("command", "")), Parser::Help, "Display help");
    let ghost entry = action;
    let ghost before = list.actions@;
    list.insert(action);
    proof {
        lemma_entered_lists(before, list.actions@, entry, default_specs(), 0);
    }
    let action = Action::new("q", Vec::new(), Parser::Exit, "Quit the program");
    let ghost entry = action;
    let ghost before = list.actions@;
    list.insert(action);
    proof {
        lemma_entered_lists(before, list.actions@, entry, default_specs(), 1);
    }
    let action = Action::new("dc", Vec::new(), Parser::DisasCode, "Disassemble code");
    let ghost entry = action;
    let ghost before = list.actions@;
    list.insert(action);
    proof {
        lemma_entered_lists(before, list.actions@, entry, default_specs(), 2);
    }
    let action = Action::new("lf", one_param(Param::new("path")), Parser::FileReadPath, "Read a file");
    let ghost entry = action;
    let ghost before = list.actions@;
    list.insert(action);
    proof {
        lemma_entered_lists(before, list.actions@, entry, default_specs(), 3);
    }
    let action = Action::new("dcl", one_param(Param::new("label")), Parser::StartLabel, "Set disas starting point to a label");
    let ghost entry = action;
    let ghost before = list.actions@;
    list.insert(action);
    proof {
        lemma_entered_lists(before, list.actions@, entry, default_specs(), 4);
    }
    let action = Action::new("dcr", one_param(Param::new("len")), Parser::ReadLen, "Set disas read length");
    let ghost entry = action;
    let ghost before = list.actions@;
    list.insert(action);
    proof {
        lemma_entered_lists(before, list.actions@, entry, default_specs(), 5);
    }
    let action = Action::new("dca", one_param(Param::new("address")), Parser::StartAddress, "Set disas starting point to an address");
    let ghost entry = action;
    let ghost before = list.actions@;
    list.insert(action);
    proof {
        lemma_entered_lists(before, list.actions@, entry, default_specs(), 6);
    }
    let action = Action::new("sc", one_param(Param::new("path")), Parser::CtxWritePath, "Save the current context");
    let ghost entry = action;
    let ghost before = list.actions@;
    list.insert(action);
    proof {
        lemma_entered_lists(before, list.actions@, entry, default_specs(), 7);
    }
    let action = Action::new("sa", one_param(Param::new("path")), Parser::ArchWritePath, "Save the current architecture");
    let ghost entry = action;
    let ghost before = list.actions@;
    list.insert(action);
    proof {
        lemma_entered_lists(before, list.actions@, entry, default_specs(), 8);
    }
    let action = Action::new("lc", one_param(Param::new("path")), Parser::CtxReadPath, "Read context from file");
    let ghost entry = action;
    let ghost before = list.actions@;
    list.insert(action);
    proof {
        lemma_entered_lists(before, list.actions@, entry, default_specs(), 9);
    }
    let action = Action::new("la", one_param(Param::new("path")), Parser::ArchReadPath, "Read arch from file");
    let ghost entry = action;
    let ghost before = list.actions@;
    list.insert(action);
    proof {
        lemma_entered_lists(before, list.actions@, entry, default_specs(), 10);
    }
    let action = Action::new("lab", one_param(Param::new("name")), Parser::BuiltInArch, "Load built-in arch (possible values: 6502 65816 65c02)");
    let ghost entry = action;
    let ghost before = list.actions@;
    list.insert(action);
    proof {
        lemma_entered_lists(before, list.actions@, entry, default_specs(), 11);
    }
    list
}

/// What is left for the caller to do after a command was carried out.
#[derive(Debug)]
pub enum Effect {
    /// Nothing.
    Done,
    /// Leave the program.
    Exit,
    /// Show the text.
    Print(String),
    /// Read the input from the path, or from the standard input.
    ReadFile(Option<String>),
    ReadContext(Option<String>),
    ReadArch(Option<String>),
    SaveArch(Option<String>),
    SaveContext(Option<String>),
}

/// The mathematical value of an [`Effect`].
pub enum EffectView {
    Done,
    Exit,
    Print(Seq<char>),
    ReadFile(Option<Seq<char>>),
    ReadContext(Option<Seq<char>>),
    ReadArch(Option<Seq<char>>),
    SaveArch(Option<Seq<char>>),
    SaveContext(Option<Seq<char>>),
}

impl View for Effect {
    type V = EffectView;

    open spec fn view(&self) -> EffectView {
        match self {
            Effect::Done => EffectView::Done,
            Effect::Exit => EffectView::Exit,
            Effect::Print(s) => EffectView::Print(s@),
            Effect::ReadFile(p) => EffectView::ReadFile(path_view(*p)),
            Effect::ReadContext(p) => EffectView::ReadContext(path_view(*p)),
            Effect::ReadArch(p) => EffectView::ReadArch(path_view(*p)),
            Effect::SaveArch(p) => EffectView::SaveArch(path_view(*p)),
            Effect::SaveContext(p) => EffectView::SaveContext(path_view(*p)),
        }
    }
}

/// A copy of an optional text.
fn copy_path(p: &Option<String>) -> (r: Option<String>)
    ensures
        path_view(r) == path_view(*p),
{
    match p {
        Some(s) => Some(s.clone()),
        None => None,
    }
}

/// The commands that only change the context, and the state that each
/// leaves; `None` for the other commands and for a start label that is not
/// defined.
pub open spec fn spec_setting(cmd: CommandsView, ctx: ContextView) -> Option<ContextView> {
    match cmd {
        CommandsView::SetStartLabel(label) => match first_index(ctx.syms, named(label), 0) {
            Some(i) => Some(
                ctx.starting_at(crate::arch::context::symbol_start(ctx.syms[i].value, ctx.org)),
            ),
            None => None,
        },
        CommandsView::SetReadLen(len) => Some(ContextView { len_read: Some(len), ..ctx }),
        CommandsView::SetStartAddress(address) => Some(ctx.starting_at(address as usize)),
        CommandsView::SetOrg(address) => Some(ContextView { org: address, ..ctx }),
        CommandsView::NewSymbol(sym) => Some(ctx.defining(sym)),
        CommandsView::DefFlag(key, value) => Some(ContextView { flags: ctx.flags.insert(key, value), ..ctx }),
        CommandsView::UndefFlag(key) => Some(ContextView { flags: ctx.flags.remove(key), ..ctx }),
        _ => None,
    }
}

/// What carrying out the command `cmd` comes to. `DisasCode` runs a pass over
/// `data` from the origin, through the sink `dcb`. A command that changes a
/// setting leaves the state that `spec_setting` gives; a start label that is
/// not defined is a failure. `UseArch` loads the built-in architecture of
/// that name, or fails where there is none. `Help` gives the help lines to
/// print, or fails where no command begins as asked. The other commands
/// change nothing and say what is to be read or written.
pub open spec fn carried_out<D: FnMut(&Node, CallbackKind, &[u8], &Arch, &Context) -> Result<(), Error>>(
    cmd: CommandsView,
    dcb: D,
    actions: Seq<Action>,
    data: Seq<u8>,
    arch: Archs,
    ctx: ContextView,
    r: Result<Effect, Error>,
    arch_after: Archs,
    ctx_after: ContextView,
) -> bool {
    match cmd {
        CommandsView::DisasCode => {
            &&& arch_after == arch
            &&& faithful(dcb, arch.spec_disas_ctx(data, ctx.restarted()), without_value(r), ctx_after)
            &&& r is Ok ==> r->Ok_0@ == EffectView::Done
        },
        CommandsView::UseArch(name) => {
            &&& ctx_after == ctx
            &&& if is_built_in(name) {
                r is Ok && r->Ok_0@ == EffectView::Done && a6502::well_formed(&arch_after.archs@[""@])
                    && a6502::family(&arch_after.archs@[""@]) && a6502::shaped_6502(
                    arch_after.archs@[""@].transforms@,
                ) && is_built_in_arch(name, &arch_after.archs@[""@])
            } else {
                r is Err && r->Err_0@ == ErrorView::ArchNotFound(name) && arch_after == arch
            }
        },
        CommandsView::Help(prefix) => {
            &&& ctx_after == ctx
            &&& arch_after == arch
            &&& match r {
                Ok(e) => e@ == EffectView::Print(help_lines(actions, prefix, 0)),
                Err(e) => e@ == ErrorView::UnknownCommand(prefix),
            }
            &&& r is Ok <==> exists|i: int|
                0 <= i < actions.len() && text_starts_with((#[trigger] actions[i]).name@, prefix)
        },
        CommandsView::Exit => ctx_after == ctx && arch_after == arch && r is Ok && r->Ok_0@ == EffectView::Exit,
        CommandsView::ReadFile(p) => ctx_after == ctx && arch_after == arch && r is Ok && r->Ok_0@
            == EffectView::ReadFile(p),
        CommandsView::ReadContext(p) => ctx_after == ctx && arch_after == arch && r is Ok && r->Ok_0@
            == EffectView::ReadContext(p),
        CommandsView::ReadArch(p) => ctx_after == ctx && arch_after == arch && r is Ok && r->Ok_0@
            == EffectView::ReadArch(p),
        CommandsView::SaveArch(p) => ctx_after == ctx && arch_after == arch && r is Ok && r->Ok_0@
            == EffectView::SaveArch(p),
        CommandsView::SaveContext(p) => ctx_after == ctx && arch_after == arch && r is Ok && r->Ok_0@
            == EffectView::SaveContext(p),
        _ => {
            &&& arch_after == arch
            &&& match spec_setting(cmd, ctx) {
                Some(next) => r is Ok && r->Ok_0@ == EffectView::Done && ctx_after == next,
                None => r is Err && r->Err_0@ == ErrorView::LabelNotFound(cmd->SetStartLabel_0) && ctx_after
                    == ctx,
            }
        },
    }
}

/// The input of the front end and the commands that it knows.
#[derive(Debug)]
pub struct CommandContext {
    pub actions: ActionList,
    pub data: Vec<u8>,
}

impl Default for CommandContext {
    fn default() -> (r: CommandContext)
        ensures
            r.actions.actions@.len() == 0,
            r.data@.len() == 0,
    {
        CommandContext { actions: ActionList::default(), data: Vec::new() }
    }
}

impl Commands {
    /// Carries out the command, as far as that takes no reading or writing
    /// of files, and says what is left to do. A command that changes a
    /// setting changes `ctx`; `DisasCode` puts the cursor back to the origin
    /// and runs a pass over the input through `dcb`; `UseArch` replaces
    /// `arch` by the built-in one of that name.
    pub fn execute<D: FnMut(&Node, CallbackKind, &[u8], &Arch, &Context) -> Result<(), Error>>(
        &self,
        dcb: D,
        arch: &mut Archs,
        ctx: &mut Context,
        cmd_ctx: &CommandContext,
    ) -> (r: Result<Effect, Error>)
        requires
            sink_total(dcb),
        ensures
            carried_out(
                self@,
                dcb,
                cmd_ctx.actions.actions@,
                cmd_ctx.data@,
                *old(arch),
                old(ctx)@,
                r,
                *final(arch),
                final(ctx)@,
            ),
    {
        match self {
            Commands::Exit => Ok(Effect::Exit),
            Commands::Help(cmd) => match cmd_ctx.actions.help(cmd.as_str()) {
                Ok(text) => Ok(Effect::Print(text)),
                Err(e) => Err(e),
            },
            Commands::DisasCode => {
                ctx.restart();
                let ghost whole = arch.spec_disas_ctx(cmd_ctx.data@, old(ctx)@.restarted());
                match arch.disas_ctx(dcb, cmd_ctx.data.as_slice(), ctx) {
                    Ok(u) => {
                        proof {
                            assert(u == ());
                        }
                        Ok(Effect::Done)
                    },
                    Err(e) => Err(e),
                }
            },
            Commands::ReadFile(path) => Ok(Effect::ReadFile(copy_path(path))),
            Commands::SetStartLabel(label) => match ctx.set_start_to_symbol(label.as_str()) {
                Ok(u) => Ok(Effect::Done),
                Err(e) => Err(e),
            },
            Commands::SetReadLen(len) => {
                ctx.set_len(Some(*len));
                Ok(Effect::Done)
            },
            Commands::SetStartAddress(address) => {
                ctx.set_start(Some(#[verifier::truncate] (*address as usize)));
                Ok(Effect::Done)
            },
            Commands::ReadContext(path) => Ok(Effect::ReadContext(copy_path(path))),
            Commands::ReadArch(path) => Ok(Effect::ReadArch(copy_path(path))),
            Commands::SaveArch(path) => Ok(Effect::SaveArch(copy_path(path))),
            Commands::SaveContext(path) => Ok(Effect::SaveContext(copy_path(path))),
            Commands::UseArch(value) => match arch_map(value.as_str()) {
                Some(new_arch) => {
                    *arch = new_arch;
                    Ok(Effect::Done)
                },
                None => Err(Error::ArchNotFound(value.clone())),
            },
            Commands::SetOrg(address) => {
                ctx.set_org(*address);
                Ok(Effect::Done)
            },
            Commands::NewSymbol(sym) => {
                ctx.def_symbol(sym.clone());
                Ok(Effect::Done)
            },
            Commands::DefFlag(key, value) => {
                ctx.def_flag(key.as_str(), value.as_str());
                Ok(Effect::Done)
            },
            Commands::UndefFlag(key) => {
                ctx.undef_flag(key.as_str());
                Ok(Effect::Done)
            },
        }
    }
}

impl CommandContext {
    /// The front end over the input `data`.
    pub fn from_reader(actions: ActionList, data: Vec<u8>) -> (r: CommandContext)
        ensures
            r.actions == actions,
            r.data == data,
    {
        CommandContext { actions, data }
    }

    /// Reads `input` as a command and carries it out. A line that does not
    /// read as a command is a failure that changes nothing.
    pub fn execute<D: FnMut(&Node, CallbackKind, &[u8], &Arch, &Context) -> Result<(), Error>>(
        &self,
        dcb: D,
        input: &str,
        arch: &mut Archs,
        ctx: &mut Context,
    ) -> (r: Result<Effect, Error>)
        requires
            sink_total(dcb),
        ensures
            shell_split(input@) is None ==> r is Err && r->Err_0@ == ErrorView::Other(
                "missing closing quote"@,
            ) && final(ctx)@ == old(ctx)@ && *final(arch) == *old(arch),
            shell_split(input@) is Some ==> exists|words: Seq<String>|
                views(words) == shell_split(input@)->0 && (match #[trigger] spec_eval_words(
                    self.actions.actions@,
                    words,
                ) {
                    Err(e) => r is Err && r->Err_0@ == e && final(ctx)@ == old(ctx)@ && *final(arch) == *old(
                        arch,
                    ),
                    Ok(cmd) => carried_out(
                        cmd,
                        dcb,
                        self.actions.actions@,
                        self.data@,
                        *old(arch),
                        old(ctx)@,
                        r,
                        *final(arch),
                        final(ctx)@,
                    ),
                }),
    {
        match self.actions.eval(input) {
            Ok(cmd) => self.execute_cmd(dcb, &cmd, arch, ctx),
            Err(e) => Err(e),
        }
    }

    /// Carries out `cmd`.
    pub fn execute_cmd<D: FnMut(&Node, CallbackKind, &[u8], &Arch, &Context) -> Result<(), Error>>(
        &self,
        dcb: D,
        cmd: &Commands,
        arch: &mut Archs,
        ctx: &mut Context,
    ) -> (r: Result<Effect, Error>)
        requires
            sink_total(dcb),
        ensures
            carried_out(
                cmd@,
                dcb,
                self.actions.actions@,
                self.data@,
                *old(arch),
                old(ctx)@,
                r,
                *final(arch),
                final(ctx)@,
            ),
    {
        cmd.execute(dcb, arch, ctx, self)
    }
}

} // verus!
