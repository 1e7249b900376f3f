use vstd::prelude::*;

use crate::keyboard::keys::Key;
use crate::text::chars_of;
use crate::text::same_text;
use crate::worker::action_listener::binding_check;
use crate::worker::action_listener::ParamError;
use crate::worker::action_listener::TRANSLATE_TO_NOTIFY_ACTION;
use crate::worker::action_listener::TRANSLATE_TO_PASTE_ACTION;

verus! {

/// Whether the name is that of one of the two translating actions.
pub open spec fn is_translate_action(name: Seq<char>) -> bool {
    name == TRANSLATE_TO_NOTIFY_ACTION@ || name == TRANSLATE_TO_PASTE_ACTION@
}

/// A translating action and the keys that it is bound to.
#[derive(Debug)]
pub struct TranslateParam {
    pub name: String,
    pub keys: Vec<Key>,
}

impl View for TranslateParam {
    type V = (Seq<char>, Seq<Key>);

    open spec fn view(&self) -> (Seq<char>, Seq<Key>) {
        (self.name@, self.keys@)
    }
}

impl TranslateParam {
    /// Checks that the action is one of the two translating actions and
    /// that it is bound to a key at least.
    pub fn validation(&self) -> (result: Result<(), ParamError>)
        ensures
            result == binding_check(is_translate_action(self.name@), self.keys@),
    {
        let chars = chars_of(self.name.as_str());
        if !same_text(chars.as_slice(), TRANSLATE_TO_NOTIFY_ACTION) && !same_text(
            chars.as_slice(),
            TRANSLATE_TO_PASTE_ACTION,
        ) {
            return Err(ParamError::UnknownAction);
        }
        if self.keys.len() == 0 {
            return Err(ParamError::EmptyKeys);
        }
        Ok(())
    }
}

} // verus!
