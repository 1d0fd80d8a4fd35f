//! Interface sounds: the effects there are, and the front end that queues them for the
//! thread that plays them unless sounds are muted.

use vstd::prelude::*;
use std::sync::mpsc::Sender;
use std::sync::{Arc, Mutex};

verus! {

#[verifier::external_type_specification]
#[verifier::external_body]
#[verifier::reject_recursive_types(T)]
pub struct ExMutex<T: ?Sized>(Mutex<T>);

/// A sound the studio plays.
#[derive(Clone, Copy, Debug, PartialEq, Eq, Structural)]
pub enum SoundEffect {
    /// Played when a deck has been saved.
    Save,
}

/// `Mutex::lock`, then a read: whether sounds are muted at this moment. The flag is shared
/// with the playing thread, so nothing is claimed of the value read. A poisoned lock is
/// read all the same.
#[verifier::external_body]
fn read_flag(flag: &Arc<Mutex<bool>>) -> bool {
    match flag.lock() {
        Ok(guard) => *guard,
        Err(poisoned) => *poisoned.into_inner(),
    }
}

/// `Mutex::lock`, then a write of `value` into the shared flag. A poisoned lock is written
/// all the same. The flag lives in shared memory, so nothing is claimed of it afterwards.
#[verifier::external_body]
fn write_flag(flag: &Arc<Mutex<bool>>, value: bool) {
    match flag.lock() {
        Ok(mut guard) => *guard = value,
        Err(poisoned) => *poisoned.into_inner() = value,
    }
}

/// `Sender::send`: hands an effect to the playing thread. Whether it arrives depends on that
/// thread still listening, so nothing is claimed of the outcome.
#[verifier::external_body]
fn send_effect(tx: &Sender<SoundEffect>, effect: SoundEffect) {
    let _ = tx.send(effect);
}

/// The front end of the sound engine.
pub struct SfxEngine {
    tx: Sender<SoundEffect>,
    /// Whether sounds are muted; shared with the playing thread, which checks it again
    /// before playing.
    pub is_muted: Arc<Mutex<bool>>,
}

impl SfxEngine {
    /// The engine that queues effects on `tx` and shares `is_muted` with the playing thread.
    pub fn new(tx: Sender<SoundEffect>, is_muted: Arc<Mutex<bool>>) -> (engine: Self)
        ensures
            engine.queue() == tx,
            engine.mute_flag() == is_muted,
    {
        SfxEngine { tx, is_muted }
    }

    /// The sending end of the queue the engine's effects go to.
    pub closed spec fn queue(&self) -> Sender<SoundEffect> {
        self.tx
    }

    /// The shared flag that says whether sounds are muted.
    pub closed spec fn mute_flag(&self) -> Arc<Mutex<bool>> {
        self.is_muted
    }

    /// Queues `effect` for playing unless sounds are muted: what `effect_to_queue` answers
    /// for the flag as read is sent, and nothing when it answers `None`.
    pub fn play(&self, effect: SoundEffect) {
        let muted = read_flag(&self.is_muted);
        match effect_to_queue(muted, effect) {
            Some(e) => send_effect(&self.tx, e),
            None => {},
        }
    }

    /// Mutes sounds when they are on, and turns them on when they are muted: the flag as
    /// read is written back as `toggled` gives it. Only the interface writes the flag, so
    /// reading it and writing it back negated flips it.
    pub fn toggle_mute(&self) {
        let muted = read_flag(&self.is_muted);
        write_flag(&self.is_muted, toggled(muted));
    }
}

/// The effect queued when `effect` is asked for and the mute flag reads `muted`: none when
/// muted, else the effect itself.
pub open spec fn queued_effect(muted: bool, effect: SoundEffect) -> Option<SoundEffect> {
    if muted {
        None
    } else {
        Some(effect)
    }
}

/// The mute flag after a toggle, when it read `muted` before.
pub open spec fn toggled_flag(muted: bool) -> bool {
    !muted
}

/// The effect to queue when `effect` is asked for and the mute flag reads `muted`.
pub fn effect_to_queue(muted: bool, effect: SoundEffect) -> (r: Option<SoundEffect>)
    ensures
        r == queued_effect(muted, effect),
{
    if muted {
        None
    } else {
        Some(effect)
    }
}

/// The value a toggle writes into the mute flag when it read `muted`.
pub fn toggled(muted: bool) -> (r: bool)
    ensures
        r == toggled_flag(muted),
{
    !muted
}

/// Muting works: after one toggle of sounds that were on, an effect asked for is not queued;
/// after a second toggle the flag is as it was, and effects are queued as before.
pub proof fn lemma_toggle_mutes_and_unmutes(muted: bool, effect: SoundEffect)
    ensures
        queued_effect(toggled_flag(false), effect) is None,
        queued_effect(false, effect) == Some(effect),
        toggled_flag(toggled_flag(muted)) == muted,
        queued_effect(toggled_flag(toggled_flag(muted)), effect) == queued_effect(muted, effect),
{
}

} // verus!
