use vstd::prelude::*;
use vstd::string::StringExecFns;

use crate::keyboard::keys::Key;
use crate::worker::action_listener::binding_check;
use crate::worker::action_listener::Action;
use crate::worker::action_listener::ActionListenerParam;

verus! {

/// A path of the file system, as the standard library holds it. Nothing
/// is known of its contents here.
#[verifier::external_type_specification]
#[verifier::external_body]
pub struct ExPathBuf(std::path::PathBuf);

/// The name of the configuration file that is looked for in the home
/// directory when none is given.
pub const DEFAULT_CLI_COMMAND_FILE_NAME: &'static str = "dhe_commands.toml";

/// How long to wait before each command that is run at the start, in
/// milliseconds.
pub const STARTER_DELAY_MS: u64 = 300;

/// What can go wrong with the configured commands.
#[derive(Debug)]
pub enum CliCommandError {
    /// No configuration file was named and none could be looked for.
    CommandsFileNotFound,
    /// The configuration file at this path could not be read.
    ReadCommands(std::path::PathBuf),
    /// The configuration file at this path is not in the expected format.
    WrongCommandsFormat(std::path::PathBuf),
    /// A command could not be run or is not valid: its name, its
    /// arguments and the cause in words.
    ExecuteCommand(String, Vec<String>, String),
}

/// The text that the standard library's `Debug` gives for a list of
/// words: the words in quotes, with what needs it escaped, between square
/// brackets.
pub uninterp spec fn debug_text(words: Seq<Seq<char>>) -> Seq<char>;

/// Formats the words with `Debug` of `Vec<String>`, which reads nothing
/// but the words.
#[verifier::external_body]
fn words_debug(words: &Vec<String>) -> (text: String)
    ensures
        text@ == debug_text(word_texts(words@)),
{
    format!("{:?}", words)
}

/// Writes the path as `std::path::Path::display` does. What cannot be
/// shown of a path is replaced, so nothing is claimed of the text.
#[verifier::external_body]
fn path_text(path: &std::path::PathBuf) -> (text: String) {
    path.display().to_string()
}

/// The message for a configuration file that could not be read.
pub open spec fn read_failure_text(path: Seq<char>) -> Seq<char> {
    "failed to read cli commands configuration file at "@ + path + " path"@
}

/// The message for a configuration file in a wrong format.
pub open spec fn format_failure_text(path: Seq<char>) -> Seq<char> {
    "wrong cli commands configuration file format at "@ + path + " path"@
}

/// The message for a command that could not be run or is not valid.
pub open spec fn command_failure_text(name: Seq<char>, args: Seq<Seq<char>>, reason: Seq<char>) -> Seq<
    char,
> {
    "failed to execute/validate command "@ + name + " with args "@ + debug_text(args)
        + "; error: "@ + reason
}

impl CliCommandError {
    /// Whether the text says this error in words. A path is put as the
    /// standard library shows it.
    pub open spec fn says(self, text: Seq<char>) -> bool {
        match self {
            CliCommandError::CommandsFileNotFound => text
                == "cli commands configuration file not specified"@,
            CliCommandError::ReadCommands(_) => exists|path: Seq<char>|
                #![auto]
                text == read_failure_text(path),
            CliCommandError::WrongCommandsFormat(_) => exists|path: Seq<char>|
                #![auto]
                text == format_failure_text(path),
            CliCommandError::ExecuteCommand(name, args, reason) => text == command_failure_text(
                name@,
                word_texts(args@),
                reason@,
            ),
        }
    }

    /// The error said in words.
    pub fn message(&self) -> (text: String)
        ensures
            self.says(text@),
    {
        match self {
            CliCommandError::CommandsFileNotFound => String::from_str(
                "cli commands configuration file not specified",
            ),
            CliCommandError::ReadCommands(path) => {
                let shown = path_text(path);
                let mut text = String::from_str("failed to read cli commands configuration file at ");
                text.append(shown.as_str());
                text.append(" path");
                assert(text@ == read_failure_text(shown@));
                text
            },
            CliCommandError::WrongCommandsFormat(path) => {
                let shown = path_text(path);
                let mut text = String::from_str("wrong cli commands configuration file format at ");
                text.append(shown.as_str());
                text.append(" path");
                assert(text@ == format_failure_text(shown@));
                text
            },
            CliCommandError::ExecuteCommand(name, args, reason) => {
                let shown = words_debug(args);
                let mut text = String::from_str("failed to execute/validate command ");
                text.append(name.as_str());
                text.append(" with args ");
                text.append(shown.as_str());
                text.append("; error: ");
                text.append(reason.as_str());
                text
            },
        }
    }
}

/// What a configured command is for.
#[derive(Debug, Copy, Clone, PartialEq, Eq, Structural)]
pub enum CliCommandHandler {
    /// A program to run when the worker starts.
    BashStarter,
    /// An action to bind to keys.
    ActionListener,
}

/// A configured command: a program with its arguments, or an action with
/// the names of its keys.
#[derive(Debug)]
pub struct CliCommand {
    pub handler: CliCommandHandler,
    pub name: String,
    pub args: Vec<String>,
}

/// The configured commands, in the order of the configuration file.
#[derive(Debug)]
pub struct CliCommandsConfig {
    pub commands: Vec<CliCommand>,
}

/// The commands that are for the given handler, in their order.
pub open spec fn with_handler(commands: Seq<CliCommand>, handler: CliCommandHandler) -> Seq<
    CliCommand,
>
    decreases commands.len(),
{
    if commands.len() == 0 {
        Seq::empty()
    } else if commands.last().handler == handler {
        with_handler(commands.drop_last(), handler).push(commands.last())
    } else {
        with_handler(commands.drop_last(), handler)
    }
}

/// The keys that the words name, if every word is the name of a key.
pub open spec fn keys_named(words: Seq<String>) -> Option<Seq<Key>>
    decreases words.len(),
{
    if words.len() == 0 {
        Some(Seq::empty())
    } else {
        match (keys_named(words.drop_last()), Key::with_label(words.last()@)) {
            (Some(keys), Some(key)) => Some(keys.push(key)),
            _ => None,
        }
    }
}

/// The message of the error for a word that names no key.
pub open spec fn unknown_key_text() -> Seq<char> {
    "Matching variant not found"@
}

/// The binding that a command describes, or why it describes none. The
/// arguments are read as keys first; then the binding is checked.
pub open spec fn binding_of(command: CliCommand) -> Result<(Seq<char>, Seq<Key>), Seq<char>> {
    match keys_named(command.args@) {
        None => Err(unknown_key_text()),
        Some(keys) => match binding_check(Action::with_label(command.name@) is Some, keys) {
            Ok(_) => Ok((command.name@, keys)),
            Err(error) => Err(error.message_text()),
        },
    }
}

/// The bindings that the commands describe, or the first command that
/// describes none, by its position, with the reason.
pub open spec fn bindings_of(commands: Seq<CliCommand>) -> Result<
    Seq<(Seq<char>, Seq<Key>)>,
    (int, Seq<char>),
>
    decreases commands.len(),
{
    if commands.len() == 0 {
        Ok(Seq::empty())
    } else {
        match bindings_of(commands.drop_last()) {
            Err(failure) => Err(failure),
            Ok(bindings) => match binding_of(commands.last()) {
                Ok(binding) => Ok(bindings.push(binding)),
                Err(reason) => Err((commands.len() - 1, reason)),
            },
        }
    }
}

/// The bindings, one for one.
pub open spec fn param_views(params: Seq<ActionListenerParam>) -> Seq<(Seq<char>, Seq<Key>)> {
    Seq::new(params.len(), |i: int| params[i]@)
}

/// The texts of the words, one for one.
pub open spec fn word_texts(words: Seq<String>) -> Seq<Seq<char>> {
    Seq::new(words.len(), |i: int| words[i]@)
}

/// Reads words as the names of keys. The first word that names no key
/// makes the whole fail.
pub fn parse_keys(words: &Vec<String>) -> (keys: Option<Vec<Key>>)
    ensures
        match keys {
            Some(found) => keys_named(words@) == Some(found@),
            None => keys_named(words@) is None,
        },
{
    let mut found: Vec<Key> = Vec::new();
    let mut i: usize = 0;
    while i < words.len()
        invariant
            i <= words.len(),
            keys_named(words@.take(i as int)) == Some(found@),
        decreases words.len() - i,
    {
        assert(words@.take(i + 1).drop_last() =~= words@.take(i as int));
        match Key::from_name(words[i].as_str()) {
            Ok(key) => {
                found.push(key);
            },
            Err(_) => {
                proof {
                    lemma_unnamed_key_spoils(words@, i as int);
                }
                return None;
            },
        }
        i = i + 1;
    }
    assert(words@.take(words.len() as int) =~= words@);
    Some(found)
}

proof fn lemma_unnamed_key_spoils(words: Seq<String>, at: int)
    requires
        0 <= at < words.len(),
        Key::with_label(words[at]@) is None,
    ensures
        keys_named(words) is None,
    decreases words.len(),
{
    if at < words.len() - 1 {
        lemma_unnamed_key_spoils(words.drop_last(), at);
    }
}

fn copy_words(words: &Vec<String>) -> (copy: Vec<String>)
    ensures
        word_texts(copy@) == word_texts(words@),
{
    let mut copy: Vec<String> = Vec::new();
    let mut i: usize = 0;
    while i < words.len()
        invariant
            i <= words.len(),
            copy@.len() == i,
            forall|j: int| 0 <= j < i ==> copy@[j]@ == words@[j]@,
        decreases words.len() - i,
    {
        copy.push(words[i].clone());
        i = i + 1;
    }
    assert(word_texts(copy@) =~= word_texts(words@));
    copy
}

impl CliCommand {
    /// The binding of an action to keys that the command describes. The
    /// arguments must name keys, the action must be known and there must
    /// be a key; else the command is reported with the reason.
    pub fn action_listener_param(&self) -> (result: Result<ActionListenerParam, CliCommandError>)
        ensures
            match result {
                Ok(param) => binding_of(*self) == Ok::<(Seq<char>, Seq<Key>), Seq<char>>(param@),
                Err(CliCommandError::ExecuteCommand(name, args, reason)) => {
                    &&& binding_of(*self) == Err::<(Seq<char>, Seq<Key>), Seq<char>>(reason@)
                    &&& name@ == self.name@
                    &&& word_texts(args@) == word_texts(self.args@)
                },
                Err(_) => false,
            },
    {
        let keys = match parse_keys(&self.args) {
            Some(keys) => keys,
            None => {
                return Err(
                    CliCommandError::ExecuteCommand(
                        self.name.clone(),
                        copy_words(&self.args),
                        String::from_str("Matching variant not found"),
                    ),
                );
            },
        };
        let param = ActionListenerParam { name: self.name.clone(), keys };
        match param.validate() {
            Ok(_) => Ok(param),
            Err(error) => Err(
                CliCommandError::ExecuteCommand(
                    self.name.clone(),
                    copy_words(&self.args),
                    String::from_str(error.message()),
                ),
            ),
        }
    }
}

impl CliCommandsConfig {
    /// The commands that are for the given handler, in their order.
    pub fn by_handler(&self, handler: CliCommandHandler) -> (found: Vec<&CliCommand>)
        ensures
            found@.len() == with_handler(self.commands@, handler).len(),
            forall|i: int|
                0 <= i < found@.len() ==> *found@[i] == with_handler(self.commands@, handler)[i],
    {
        let mut found: Vec<&CliCommand> = Vec::new();
        let mut i: usize = 0;
        while i < self.commands.len()
            invariant
                i <= self.commands.len(),
                found@.len() == with_handler(self.commands@.take(i as int), handler).len(),
                forall|j: int|
                    0 <= j < found@.len() ==> *found@[j] == with_handler(
                        self.commands@.take(i as int),
                        handler,
                    )[j],
            decreases self.commands.len() - i,
        {
            assert(self.commands@.take(i + 1).drop_last() =~= self.commands@.take(i as int));
            if self.commands[i].handler == handler {
                found.push(&self.commands[i]);
            }
            i = i + 1;
        }
        assert(self.commands@.take(self.commands.len() as int) =~= self.commands@);
        found
    }

    /// The bindings of actions to keys that the configuration asks for, in
    /// its order. The first command that describes no valid binding makes
    /// the whole fail, and is reported with the reason.
    pub fn action_listener_params(&self) -> (result: Result<
        Vec<ActionListenerParam>,
        CliCommandError,
    >)
        ensures
            ({
                let commands = with_handler(self.commands@, CliCommandHandler::ActionListener);
                match result {
                    Ok(params) => bindings_of(commands) == Ok::<
                        Seq<(Seq<char>, Seq<Key>)>,
                        (int, Seq<char>),
                    >(param_views(params@)),
                    Err(CliCommandError::ExecuteCommand(name, args, reason)) => {
                        &&& bindings_of(commands) matches Err((at, why))
                        &&& 0 <= at < commands.len()
                        &&& why == reason@
                        &&& name@ == commands[at].name@
                        &&& word_texts(args@) == word_texts(commands[at].args@)
                    },
                    Err(_) => false,
                }
            }),
    {
        let commands = self.by_handler(CliCommandHandler::ActionListener);
        let ghost wanted = with_handler(self.commands@, CliCommandHandler::ActionListener);
        let mut params: Vec<ActionListenerParam> = Vec::new();
        let mut i: usize = 0;
        assert(wanted.take(0) =~= Seq::<CliCommand>::empty());
        assert(param_views(params@) =~= Seq::<(Seq<char>, Seq<Key>)>::empty());
        while i < commands.len()
            invariant
                i <= commands.len(),
                wanted == with_handler(self.commands@, CliCommandHandler::ActionListener),
                commands@.len() == wanted.len(),
                forall|j: int| 0 <= j < commands@.len() ==> *commands@[j] == wanted[j],
                bindings_of(wanted.take(i as int)) == Ok::<
                    Seq<(Seq<char>, Seq<Key>)>,
                    (int, Seq<char>),
                >(param_views(params@)),
            decreases commands.len() - i,
        {
            let ghost before = params@;
            proof {
                let next = wanted.take(i + 1);
                assert(next.drop_last() =~= wanted.take(i as int));
                assert(next.last() == *commands@[i as int]);
            }
            match commands[i].action_listener_param() {
                Ok(param) => {
                    params.push(param);
                    assert(param_views(params@) =~= param_views(before).push(params@.last()@));
                },
                Err(error) => {
                    proof {
                        lemma_failure_stays(wanted, i + 1);
                    }
                    return Err(error);
                },
            }
            i = i + 1;
        }
        assert(wanted.take(commands.len() as int) =~= wanted);
        Ok(params)
    }
}

proof fn lemma_failure_stays(commands: Seq<CliCommand>, upto: int)
    requires
        0 <= upto <= commands.len(),
        bindings_of(commands.take(upto)) is Err,
    ensures
        bindings_of(commands) == bindings_of(commands.take(upto)),
    decreases commands.len() - upto,
{
    if upto < commands.len() {
        assert(commands.take(upto + 1).drop_last() =~= commands.take(upto));
        lemma_failure_stays(commands, upto + 1);
    } else {
        assert(commands.take(upto) =~= commands);
    }
}

} // verus!
