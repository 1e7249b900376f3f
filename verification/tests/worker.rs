use dhe::keyboard::Key;
use dhe::language::Language;
use dhe::worker::action_listener::notify_direction;
use dhe::worker::action_listener::paste_direction;
use dhe::worker::action_listener::Action;
use dhe::worker::action_listener::ParamError;
use dhe::worker::action_listener::OPEN_GUI_ACTION;
use dhe::worker::action_listener::TRANSLATE_TO_NOTIFY_ACTION;
use dhe::worker::action_listener::TRANSLATE_TO_PASTE_ACTION;
use dhe::worker::cli_command::parse_keys;
use dhe::worker::ActionListenerParam;
use dhe::worker::CliCommand;
use dhe::worker::CliCommandError;
use dhe::worker::CliCommandHandler;
use dhe::worker::CliCommandsConfig;
use dhe::worker::TranslateParam;

fn words(list: &[&str]) -> Vec<String> {
    list.iter().map(|word| word.to_string()).collect()
}

fn listener(name: &str, args: &[&str]) -> CliCommand {
    CliCommand { handler: CliCommandHandler::ActionListener, name: name.to_string(), args: words(args) }
}

fn starter(name: &str, args: &[&str]) -> CliCommand {
    CliCommand { handler: CliCommandHandler::BashStarter, name: name.to_string(), args: words(args) }
}

#[test]
fn actions_are_known_by_name() {
    assert_eq!(TRANSLATE_TO_NOTIFY_ACTION, "translate-to-notify");
    assert_eq!(TRANSLATE_TO_PASTE_ACTION, "translate-to-paste");
    assert_eq!(OPEN_GUI_ACTION, "open-gui");
    assert_eq!(Action::from_name("translate-to-notify"), Some(Action::TranslateToNotify));
    assert_eq!(Action::from_name("translate-to-paste"), Some(Action::TranslateToPaste));
    assert_eq!(Action::from_name("open-gui"), Some(Action::OpenGui));
    assert_eq!(Action::from_name("open-GUI"), None);
    assert_eq!(Action::from_name(""), None);
    for action in [Action::TranslateToNotify, Action::TranslateToPaste, Action::OpenGui] {
        assert_eq!(Action::from_name(action.name()), Some(action));
    }
}

#[test]
fn listener_param_needs_a_known_action_and_a_key() {
    let param = ActionListenerParam { name: "open-gui".to_string(), keys: vec![Key::LAlt, Key::G] };
    assert_eq!(param.validate(), Ok(()));
    let param = ActionListenerParam { name: "open".to_string(), keys: vec![Key::LAlt] };
    assert_eq!(param.validate(), Err(ParamError::UnknownAction));
    let param = ActionListenerParam { name: "translate-to-paste".to_string(), keys: vec![] };
    assert_eq!(param.validate(), Err(ParamError::EmptyKeys));
    // the name is looked at first
    let param = ActionListenerParam { name: "".to_string(), keys: vec![] };
    assert_eq!(param.validate(), Err(ParamError::UnknownAction));
    assert_eq!(ParamError::UnknownAction.message(), "unknown action of the translator");
    assert_eq!(ParamError::EmptyKeys.message(), "empty list of keys");
}

#[test]
fn translate_param_knows_the_two_translating_actions() {
    let param = TranslateParam { name: "translate-to-notify".to_string(), keys: vec![Key::Q] };
    assert_eq!(param.validation(), Ok(()));
    let param = TranslateParam { name: "translate-to-paste".to_string(), keys: vec![Key::W] };
    assert_eq!(param.validation(), Ok(()));
    let param = TranslateParam { name: "open-gui".to_string(), keys: vec![Key::W] };
    assert_eq!(param.validation(), Err(ParamError::UnknownAction));
    let param = TranslateParam { name: "translate-to-paste".to_string(), keys: vec![] };
    assert_eq!(param.validation(), Err(ParamError::EmptyKeys));
}

#[test]
fn words_are_read_as_keys() {
    assert_eq!(parse_keys(&words(&["LAlt", "Q"])), Some(vec![Key::LAlt, Key::Q]));
    assert_eq!(parse_keys(&words(&[])), Some(vec![]));
    assert_eq!(parse_keys(&words(&["LAlt", "q"])), None);
    assert_eq!(parse_keys(&words(&["Alt", "Q"])), None);
}

#[test]
fn commands_are_told_apart_by_handler() {
    let config = CliCommandsConfig {
        commands: vec![
            starter("xbindkeys", &["-f", "keys"]),
            listener("open-gui", &["LAlt", "G"]),
            starter("setxkbmap", &[]),
            listener("translate-to-paste", &["LAlt", "W"]),
        ],
    };
    let starters = config.by_handler(CliCommandHandler::BashStarter);
    assert_eq!(starters.len(), 2);
    assert_eq!(starters[0].name, "xbindkeys");
    assert_eq!(starters[0].args, words(&["-f", "keys"]));
    assert_eq!(starters[1].name, "setxkbmap");
    let listeners = config.by_handler(CliCommandHandler::ActionListener);
    assert_eq!(listeners.len(), 2);
    assert_eq!(listeners[0].name, "open-gui");
    assert_eq!(listeners[1].name, "translate-to-paste");
}

#[test]
fn listener_commands_become_bindings() {
    let config = CliCommandsConfig {
        commands: vec![
            starter("unknown-program", &["not", "keys"]),
            listener("translate-to-notify", &["LAlt", "Q"]),
            listener("open-gui", &["LCtrl", "LShift", "G"]),
        ],
    };
    let params = config.action_listener_params().unwrap();
    assert_eq!(params.len(), 2);
    assert_eq!(params[0].name, "translate-to-notify");
    assert_eq!(params[0].keys, vec![Key::LAlt, Key::Q]);
    assert_eq!(params[1].name, "open-gui");
    assert_eq!(params[1].keys, vec![Key::LCtrl, Key::LShift, Key::G]);
    let empty = CliCommandsConfig { commands: vec![] };
    assert!(empty.action_listener_params().unwrap().is_empty());
}

#[test]
fn first_bad_listener_command_is_reported() {
    let config = CliCommandsConfig {
        commands: vec![
            listener("open-gui", &["LAlt", "G"]),
            listener("make-coffee", &["LAlt", "bad"]),
            listener("translate-to-paste", &[]),
        ],
    };
    match config.action_listener_params() {
        Err(CliCommandError::ExecuteCommand(name, args, reason)) => {
            assert_eq!(name, "make-coffee");
            assert_eq!(args, words(&["LAlt", "bad"]));
            // the keys are read before the action is looked at
            assert_eq!(reason, "Matching variant not found");
        }
        other => panic!("unexpected {:?}", other),
    }
    let config = CliCommandsConfig { commands: vec![listener("make-coffee", &["LAlt"])] };
    match config.action_listener_params() {
        Err(CliCommandError::ExecuteCommand(name, _, reason)) => {
            assert_eq!(name, "make-coffee");
            assert_eq!(reason, "unknown action of the translator");
        }
        other => panic!("unexpected {:?}", other),
    }
    let config = CliCommandsConfig { commands: vec![listener("translate-to-paste", &[])] };
    match config.action_listener_params() {
        Err(CliCommandError::ExecuteCommand(name, args, reason)) => {
            assert_eq!(name, "translate-to-paste");
            assert!(args.is_empty());
            assert_eq!(reason, "empty list of keys");
        }
        other => panic!("unexpected {:?}", other),
    }
}

#[test]
fn directions_of_the_two_translating_actions() {
    assert_eq!(notify_direction(Language::En), (Language::En, Language::Ru));
    assert_eq!(notify_direction(Language::Ru), (Language::Ru, Language::En));
    assert_eq!(paste_direction(Language::Ru), (Language::Ru, Language::En));
    assert_eq!(paste_direction(Language::En), (Language::En, Language::Ru));
}

#[test]
fn command_errors_in_words() {
    assert_eq!(
        CliCommandError::CommandsFileNotFound.message(),
        "cli commands configuration file not specified"
    );
    let path = std::path::PathBuf::from("/home/dhe/dhe_commands.toml");
    assert_eq!(
        CliCommandError::ReadCommands(path.clone()).message(),
        "failed to read cli commands configuration file at /home/dhe/dhe_commands.toml path"
    );
    assert_eq!(
        CliCommandError::WrongCommandsFormat(path).message(),
        "wrong cli commands configuration file format at /home/dhe/dhe_commands.toml path"
    );
    let error = CliCommandError::ExecuteCommand(
        "open-gui".to_string(),
        words(&["LAlt", "a \"b\""]),
        "empty list of keys".to_string(),
    );
    assert_eq!(
        error.message(),
        "failed to execute/validate command open-gui with args [\"LAlt\", \"a \\\"b\\\"\"]; \
         error: empty list of keys"
    );
    let error = CliCommandError::ExecuteCommand("x".to_string(), vec![], "y".to_string());
    assert_eq!(error.message(), "failed to execute/validate command x with args []; error: y");
}

#[test]
fn configuration_constants() {
    assert_eq!(dhe::worker::cli_command::DEFAULT_CLI_COMMAND_FILE_NAME, "dhe_commands.toml");
    assert_eq!(dhe::worker::cli_command::STARTER_DELAY_MS, 300);
    assert_eq!(dhe::worker::action_listener::PASTE_DELAY_MS, 100);
}
