use vstd::prelude::*;
use vstd::string::StringExecFns;

verus! {

/// The error of the standard library's I/O calls, carried as the cause of
/// `KeyboardError::Io`. Nothing is known of its contents here.
#[verifier::external_type_specification]
#[verifier::external_body]
pub struct ExIoError(std::io::Error);

/// What can go wrong in the keyboard subsystem.
///
/// `Io` and `KeyboardNotFound` end the call that met them. The three
/// `..NotSupported` variants reject a single raw event while it is decoded;
/// a batch decode drops that event and goes on.
#[derive(Debug)]
pub enum KeyboardError {
    /// An operating system call failed: what was being done, and the cause.
    Io(String, std::io::Error),
    /// Discovery found no device that looks like a keyboard.
    KeyboardNotFound,
    /// No key of the catalog has this code (the code in decimal).
    KeyNotSupported(String),
    /// The event's value is neither press nor release (the value in decimal).
    KeyPositionNotSupported(String),
    /// The event is not a key event (a description of its kind).
    InputEventKindNotSupported(String),
}


/// The steps at which the operating system can fail the keyboard
/// subsystem. Each has the words under which its failure is reported.
#[derive(Debug, Copy, Clone, PartialEq, Eq, Structural)]
pub enum IoStage {
    CreatePoll,
    RegisterDevice,
    PollEvents,
    FetchEvents,
    CreateVirtualDevice,
    SetUpKeys,
    BuildVirtualDevice,
    EmitEvent,
}

impl IoStage {
    /// What was being done at this step, in words.
    pub open spec fn context_text(self) -> Seq<char> {
        match self {
            IoStage::CreatePoll => "creating pool"@,
            IoStage::RegisterDevice => "register device"@,
            IoStage::PollEvents => "poll events"@,
            IoStage::FetchEvents => "fetch device events"@,
            IoStage::CreateVirtualDevice => "create virtual device"@,
            IoStage::SetUpKeys => "set up keys into virtual device"@,
            IoStage::BuildVirtualDevice => "build virtual device"@,
            IoStage::EmitEvent => "emit event"@,
        }
    }

    /// What was being done at this step, in words.
    pub fn context(self) -> (text: &'static str)
        ensures
            text@ == self.context_text(),
    {
        match self {
            IoStage::CreatePoll => "creating pool",
            IoStage::RegisterDevice => "register device",
            IoStage::PollEvents => "poll events",
            IoStage::FetchEvents => "fetch device events",
            IoStage::CreateVirtualDevice => "create virtual device",
            IoStage::SetUpKeys => "set up keys into virtual device",
            IoStage::BuildVirtualDevice => "build virtual device",
            IoStage::EmitEvent => "emit event",
        }
    }
}

/// The message of an I/O failure with the given context and cause.
pub open spec fn io_failure_text(context: Seq<char>, cause: Seq<char>) -> Seq<char> {
    "i/o error during \""@ + context + "\": "@ + cause
}

/// The message of the error for a missing keyboard.
pub open spec fn keyboard_not_found_text() -> Seq<char> {
    "keyboard not found (possibly insufficient permissions to access /dev/input)"@
}

/// The message for a key that is not supported.
pub open spec fn key_not_supported_text(key: Seq<char>) -> Seq<char> {
    "key \""@ + key + "\" not supported"@
}

/// The message for a key position that is not supported.
pub open spec fn position_not_supported_text(position: Seq<char>) -> Seq<char> {
    "key position \""@ + position + "\" not supported"@
}

/// The message for a kind of input event that is not supported.
pub open spec fn kind_not_supported_text(kind: Seq<char>) -> Seq<char> {
    "input event kind \""@ + kind + "\" not supported"@
}

/// The three texts put together.
fn quoted(head: &str, inner: &str, tail: &str) -> (text: String)
    ensures
        text@ == head@ + inner@ + tail@,
{
    let mut text = String::from_str(head);
    text.append(inner);
    text.append(tail);
    text
}

impl KeyboardError {
    /// The failure of an operating system call at the given step.
    pub fn io(stage: IoStage, cause: std::io::Error) -> (error: KeyboardError)
        ensures
            error matches KeyboardError::Io(context, inner) && context@ == stage.context_text()
                && inner == cause,
    {
        KeyboardError::Io(String::from_str(stage.context()), cause)
    }

    /// Whether the text says this error in words. The cause of an I/O
    /// failure is put as the standard library words it.
    pub open spec fn says(self, text: Seq<char>) -> bool {
        match self {
            KeyboardError::Io(context, cause) => exists|words: String|
                #![auto]
                vstd::string::to_string_from_display_ensures::<std::io::Error>(&cause, words)
                    && text == io_failure_text(context@, words@),
            KeyboardError::KeyboardNotFound => text == keyboard_not_found_text(),
            KeyboardError::KeyNotSupported(key) => text == key_not_supported_text(key@),
            KeyboardError::KeyPositionNotSupported(position) => text == position_not_supported_text(
                position@,
            ),
            KeyboardError::InputEventKindNotSupported(kind) => text == kind_not_supported_text(kind@),
        }
    }

    /// The error said in words.
    pub fn message(&self) -> (text: String)
        ensures
            self.says(text@),
    {
        match self {
            KeyboardError::Io(context, cause) => {
                let words = cause.to_string();
                let mut text = quoted("i/o error during \"", context.as_str(), "\": ");
                text.append(words.as_str());
                text
            },
            KeyboardError::KeyboardNotFound => String::from_str(
                "keyboard not found (possibly insufficient permissions to access /dev/input)",
            ),
            KeyboardError::KeyNotSupported(key) => quoted("key \"", key.as_str(), "\" not supported"),
            KeyboardError::KeyPositionNotSupported(position) => quoted(
                "key position \"",
                position.as_str(),
                "\" not supported",
            ),
            KeyboardError::InputEventKindNotSupported(kind) => quoted(
                "input event kind \"",
                kind.as_str(),
                "\" not supported",
            ),
        }
    }
}

} // verus!
