use std::sync::mpsc::channel;
use std::sync::{Arc, Mutex};

use mflash_studio::audio::{AudioCommand, AudioEngine};
use mflash_studio::sfx::{effect_to_queue, toggled, SfxEngine, SoundEffect};

#[test]
fn sounds_are_queued_unless_muted() {
    let (tx, rx) = channel();
    let muted = Arc::new(Mutex::new(false));
    let engine = SfxEngine::new(tx, muted.clone());
    engine.play(SoundEffect::Save);
    assert_eq!(rx.try_recv().ok(), Some(SoundEffect::Save));
    engine.toggle_mute();
    assert!(*muted.lock().unwrap());
    engine.play(SoundEffect::Save);
    assert!(rx.try_recv().is_err());
    engine.toggle_mute();
    assert!(!*engine.is_muted.lock().unwrap());
    engine.play(SoundEffect::Save);
    assert_eq!(rx.try_recv().ok(), Some(SoundEffect::Save));
}

#[test]
fn speech_commands_reach_the_speaking_thread() {
    let (tx, rx) = channel();
    let engine = AudioEngine::new(tx);
    engine.speak("bonjour", Some("French"), true);
    match rx.try_recv().unwrap() {
        AudioCommand::Speak { text, language, interrupt } => {
            assert_eq!(text, "bonjour");
            assert_eq!(language.as_deref(), Some("French"));
            assert!(interrupt);
        }
        AudioCommand::Stop => panic!("expected speech"),
    }
    engine.speak("hi", None, false);
    match rx.try_recv().unwrap() {
        AudioCommand::Speak { text, language, interrupt } => {
            assert_eq!(text, "hi");
            assert!(language.is_none());
            assert!(!interrupt);
        }
        AudioCommand::Stop => panic!("expected speech"),
    }
    engine.stop();
    assert!(matches!(rx.try_recv().unwrap(), AudioCommand::Stop));
}

#[test]
fn speaking_after_the_thread_is_gone_does_not_fail() {
    let (tx, rx) = channel();
    drop(rx);
    let engine = AudioEngine::new(tx);
    engine.speak("x", None, false);
    engine.stop();
}

#[test]
fn mute_decisions() {
    assert_eq!(effect_to_queue(false, SoundEffect::Save), Some(SoundEffect::Save));
    assert_eq!(effect_to_queue(true, SoundEffect::Save), None);
    assert!(toggled(false));
    assert!(!toggled(true));
    assert_eq!(effect_to_queue(toggled(false), SoundEffect::Save), None);
    assert_eq!(effect_to_queue(toggled(toggled(false)), SoundEffect::Save), Some(SoundEffect::Save));
}
