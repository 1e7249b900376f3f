use vstd::prelude::*;

use crate::keyboard::keys::Key;
use crate::language::translation_direction;
use crate::language::Language;
use crate::text::chars_of;
use crate::text::same_text;

verus! {

/// The action that translates the selected text and shows the translation
/// in a notification.
pub const TRANSLATE_TO_NOTIFY_ACTION: &'static str = "translate-to-notify";

/// The action that translates the selected text and pastes the
/// translation in its place.
pub const TRANSLATE_TO_PASTE_ACTION: &'static str = "translate-to-paste";

/// The action that opens the window of the program.
pub const OPEN_GUI_ACTION: &'static str = "open-gui";

/// How long to wait after the paste gesture before the clipboard is given
/// back its previous contents, in milliseconds.
pub const PASTE_DELAY_MS: u64 = 100;

/// What the worker does on a key combination.
#[derive(Debug, Copy, Clone, PartialEq, Eq, Structural)]
pub enum Action {
    TranslateToNotify,
    TranslateToPaste,
    OpenGui,
}

impl Action {
    /// The name under which the action is registered.
    pub open spec fn label(self) -> Seq<char> {
        match self {
            Action::TranslateToNotify => TRANSLATE_TO_NOTIFY_ACTION@,
            Action::TranslateToPaste => TRANSLATE_TO_PASTE_ACTION@,
            Action::OpenGui => OPEN_GUI_ACTION@,
        }
    }

    /// The action with the given name, if there is one.
    pub open spec fn with_label(name: Seq<char>) -> Option<Action> {
        if name == TRANSLATE_TO_NOTIFY_ACTION@ {
            Some(Action::TranslateToNotify)
        } else if name == TRANSLATE_TO_PASTE_ACTION@ {
            Some(Action::TranslateToPaste)
        } else if name == OPEN_GUI_ACTION@ {
            Some(Action::OpenGui)
        } else {
            None
        }
    }

    /// The name under which the action is registered.
    pub fn name(self) -> (text: &'static str)
        ensures
            text@ == self.label(),
    {
        match self {
            Action::TranslateToNotify => TRANSLATE_TO_NOTIFY_ACTION,
            Action::TranslateToPaste => TRANSLATE_TO_PASTE_ACTION,
            Action::OpenGui => OPEN_GUI_ACTION,
        }
    }

    /// The action to take for the name that the listener reported; none
    /// for a name that the worker does not know.
    pub fn from_name(name: &str) -> (action: Option<Action>)
        ensures
            action == Action::with_label(name@),
    {
        let chars = chars_of(name);
        if same_text(chars.as_slice(), TRANSLATE_TO_NOTIFY_ACTION) {
            Some(Action::TranslateToNotify)
        } else if same_text(chars.as_slice(), TRANSLATE_TO_PASTE_ACTION) {
            Some(Action::TranslateToPaste)
        } else if same_text(chars.as_slice(), OPEN_GUI_ACTION) {
            Some(Action::OpenGui)
        } else {
            None
        }
    }
}

/// Each action is found again by its name.
pub proof fn law_action_names_are_distinct(action: Action)
    ensures
        Action::with_label(action.label()) == Some(action),
{
    reveal_strlit("translate-to-notify");
    reveal_strlit("translate-to-paste");
    reveal_strlit("open-gui");
    assert(TRANSLATE_TO_NOTIFY_ACTION@.len() != TRANSLATE_TO_PASTE_ACTION@.len());
    assert(TRANSLATE_TO_NOTIFY_ACTION@.len() != OPEN_GUI_ACTION@.len());
    assert(TRANSLATE_TO_PASTE_ACTION@.len() != OPEN_GUI_ACTION@.len());
}

/// Why a binding of an action to keys is refused.
#[derive(Debug, Copy, Clone, PartialEq, Eq, Structural)]
pub enum ParamError {
    UnknownAction,
    EmptyKeys,
}

impl ParamError {
    /// The error said in words.
    pub open spec fn message_text(self) -> Seq<char> {
        match self {
            ParamError::UnknownAction => "unknown action of the translator"@,
            ParamError::EmptyKeys => "empty list of keys"@,
        }
    }

    /// The error said in words.
    pub fn message(&self) -> (text: &'static str)
        ensures
            text@ == self.message_text(),
    {
        match self {
            ParamError::UnknownAction => "unknown action of the translator",
            ParamError::EmptyKeys => "empty list of keys",
        }
    }
}

/// Whether an action of this name with these keys can be bound: the name
/// must be known and there must be a key. The name is looked at first.
pub open spec fn binding_check(known: bool, keys: Seq<Key>) -> Result<(), ParamError> {
    if !known {
        Err(ParamError::UnknownAction)
    } else if keys.len() == 0 {
        Err(ParamError::EmptyKeys)
    } else {
        Ok(())
    }
}

/// An action and the keys that it is bound to.
#[derive(Debug)]
pub struct ActionListenerParam {
    pub name: String,
    pub keys: Vec<Key>,
}

impl View for ActionListenerParam {
    type V = (Seq<char>, Seq<Key>);

    open spec fn view(&self) -> (Seq<char>, Seq<Key>) {
        (self.name@, self.keys@)
    }
}

impl ActionListenerParam {
    /// Checks that the action is one that the worker knows and that it is
    /// bound to a key at least.
    pub fn validate(&self) -> (result: Result<(), ParamError>)
        ensures
            result == binding_check(Action::with_label(self.name@) is Some, self.keys@),
    {
        if Action::from_name(self.name.as_str()).is_none() {
            return Err(ParamError::UnknownAction);
        }
        if self.keys.len() == 0 {
            return Err(ParamError::EmptyKeys);
        }
        Ok(())
    }
}

/// From which language to which the selected text is translated for a
/// notification: into Russian, and Russian text into English.
pub fn notify_direction(written_in: Language) -> (direction: (Language, Language))
    ensures
        direction.0 == written_in,
        direction.1 == if written_in != Language::Ru {
            Language::Ru
        } else {
            Language::En
        },
{
    translation_direction(written_in, Language::Ru, Language::En)
}

/// From which language to which the selected text is translated for
/// pasting: into English, and English text into Russian.
pub fn paste_direction(written_in: Language) -> (direction: (Language, Language))
    ensures
        direction.0 == written_in,
        direction.1 == if written_in != Language::En {
            Language::En
        } else {
            Language::Ru
        },
{
    translation_direction(written_in, Language::En, Language::Ru)
}

} // verus!
