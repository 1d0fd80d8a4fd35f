//! Speech: the commands the speech engine takes, the engine's front end that hands them to
//! the speaking thread, and the choice of a voice for a language.

pub mod bcp47;

use vstd::prelude::*;
use std::sync::mpsc::Sender;
use crate::audio::bcp47::{bcp47_of, normalize_to_bcp47};
use crate::text::{starts_with_seq, str_eq, str_starts_with, to_lowercase, unicode_lowercase};

verus! {

#[verifier::external_type_specification]
#[verifier::external_body]
#[verifier::reject_recursive_types(T)]
pub struct ExSender<T>(Sender<T>);

/// What the speaking thread is asked to do.
pub enum AudioCommand {
    /// Speak `text` in `language` (a loosely written name or tag; `en-US` when absent),
    /// cutting off what is being spoken when `interrupt` is set.
    Speak { text: String, language: Option<String>, interrupt: bool },
    /// Stop speaking.
    Stop,
}

/// `Sender::send`: hands a command to the speaking thread. Whether it arrives depends on
/// that thread still listening, so nothing is claimed of the outcome.
#[verifier::external_body]
fn send_command(tx: &Sender<AudioCommand>, command: AudioCommand) {
    let _ = tx.send(command);
}

/// The front end of the speech engine: it queues commands for the thread that speaks.
pub struct AudioEngine {
    tx: Sender<AudioCommand>,
}

/// The command that asks for `text` to be spoken in `language`.
pub open spec fn is_speak_command(
    c: AudioCommand,
    text: Seq<char>,
    language: Option<Seq<char>>,
    interrupt: bool,
) -> bool {
    &&& c matches AudioCommand::Speak { text: t, language: l, interrupt: i }
    &&& t@ == text
    &&& i == interrupt
    &&& match language {
        Some(x) => l matches Some(y) && y@ == x,
        None => l is None,
    }
}

/// Builds the command that asks for `text` to be spoken in `language`.
pub fn speak_command(text: &str, language: Option<&str>, interrupt: bool) -> (c: AudioCommand)
    ensures
        is_speak_command(
            c,
            text@,
            match language {
                Some(l) => Some(l@),
                None => None,
            },
            interrupt,
        ),
{
    let language = match language {
        Some(l) => Some(String::from_str(l)),
        None => None,
    };
    AudioCommand::Speak { text: String::from_str(text), language, interrupt }
}

/// The command that asks the speaking thread to stop speaking.
pub fn stop_command() -> (c: AudioCommand)
    ensures
        c is Stop,
{
    AudioCommand::Stop
}

impl AudioEngine {
    /// The engine that queues its commands on `tx`, whose receiving end the speaking thread
    /// reads.
    pub fn new(tx: Sender<AudioCommand>) -> (engine: Self)
        ensures
            engine.queue() == tx,
    {
        AudioEngine { tx }
    }

    /// The sending end of the queue the engine's commands go to.
    pub closed spec fn queue(&self) -> Sender<AudioCommand> {
        self.tx
    }

    /// Asks for `text` to be spoken in `language`; with `interrupt`, what is being spoken is
    /// cut off first. The command queued is `speak_command(text, language, interrupt)`.
    pub fn speak(&self, text: &str, language: Option<&str>, interrupt: bool) {
        let command = speak_command(text, language, interrupt);
        send_command(&self.tx, command);
    }

    /// Asks the speaking thread to stop speaking: the command queued is `stop_command()`.
    pub fn stop(&self) {
        send_command(&self.tx, stop_command());
    }
}

/// The language a speak command is spoken in: the tag for its language, `en-US` when it
/// names none.
pub open spec fn speech_code_of(language: Option<Seq<char>>) -> Seq<char> {
    match language {
        Some(l) => bcp47_of(l),
        None => bcp47_of("en-US"@),
    }
}

/// The BCP-47 tag that a speak command with `language` is spoken in.
pub fn speech_code(language: Option<&str>) -> (r: String)
    ensures
        r@ == speech_code_of(
            match language {
                Some(l) => Some(l@),
                None => None,
            },
        ),
{
    match language {
        Some(l) => normalize_to_bcp47(l),
        None => normalize_to_bcp47("en-US"),
    }
}

/// A voice whose language is `voice_language` speaks `code` when, both lowercased, the
/// voice's language is the code or starts with it.
pub open spec fn voice_speaks(voice_language: Seq<char>, code: Seq<char>) -> bool {
    let v = unicode_lowercase(voice_language);
    let c = unicode_lowercase(code);
    v == c || starts_with_seq(v, c)
}

/// Whether a voice whose language is `voice_language` speaks `code`.
pub fn voice_matches(voice_language: &str, code: &str) -> (r: bool)
    ensures
        r == voice_speaks(voice_language@, code@),
{
    let v = to_lowercase(voice_language);
    let c = to_lowercase(code);
    str_eq(v.as_str(), c.as_str()) || str_starts_with(v.as_str(), c.as_str())
}

/// The position of the first voice, among voices with the given languages, that speaks
/// `code`; `None` when none does.
pub fn find_voice(voice_languages: &Vec<String>, code: &str) -> (r: Option<usize>)
    ensures
        match r {
            Some(i) => {
                &&& i < voice_languages.len()
                &&& voice_speaks(voice_languages@[i as int]@, code@)
                &&& forall|j: int| 0 <= j < i ==> !voice_speaks(voice_languages@[j]@, code@)
            },
            None => forall|j: int|
                0 <= j < voice_languages.len() ==> !voice_speaks(voice_languages@[j]@, code@),
        },
{
    let mut i: usize = 0;
    while i < voice_languages.len()
        invariant
            i <= voice_languages.len(),
            forall|j: int| 0 <= j < i ==> !voice_speaks(voice_languages@[j]@, code@),
        decreases voice_languages.len() - i,
    {
        if voice_matches(voice_languages[i].as_str(), code) {
            return Some(i);
        }
        i += 1;
    }
    None
}

} // verus!
