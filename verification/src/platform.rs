//! Values exchanged with the platform layer (files, display, input,
//! audio), its error kinds, and a deterministic random number generator.

use vstd::prelude::*;
use crate::data::game_state::lcg_next;
use std::collections::VecDeque;

verus! {

/// A file handle handed out by the platform layer.
#[derive(Debug, Clone, Copy, PartialEq, Eq, Hash, Structural)]
pub struct FileHandle(pub u32);

/// Video modes.
#[derive(Debug, Clone, Copy, PartialEq, Eq, Structural)]
pub enum VideoMode {
    Text80x25,
    Vga12h,
    ModeX,
}

/// A key press.
#[derive(Debug, Clone, Copy, PartialEq, Eq, Structural)]
pub enum KeyEvent {
    Char(u8),
    Special(u16),
    Esc,
    Enter,
    Backspace,
    F(u8),
}

/// A mouse state change.
#[derive(Debug, Clone, Copy, PartialEq, Eq, Structural)]
pub struct MouseEvent {
    pub x: i16,
    pub y: i16,
    pub buttons: u8,
    pub dx: i16,
    pub dy: i16,
}

/// Audio commands.
#[derive(Debug, Clone, Copy, PartialEq, Eq, Structural)]
pub enum AudioCommand {
    PlayMidi(u8),
    PlaySound(u8),
    StopAll,
}

/// Display failures.
#[derive(Debug, Clone)]
pub enum DisplayError {
    InitFailed(String),
    DrawFailed(String),
    ModeNotSupported,
}

/// The text of a display failure.
pub open spec fn display_error_text(e: DisplayError) -> Seq<char> {
    match e {
        DisplayError::InitFailed(s) => "Display init failed: "@ + s@,
        DisplayError::DrawFailed(s) => "Draw failed: "@ + s@,
        DisplayError::ModeNotSupported => "Video mode not supported"@,
    }
}

impl DisplayError {
    /// The text describing the failure.
    pub fn message(&self) -> (r: String)
        ensures
            r@ == display_error_text(*self),
    {
        match self {
            DisplayError::InitFailed(s) => {
                let mut r = "Display init failed: ".to_owned();
                r.append(s.as_str());
                r
            },
            DisplayError::DrawFailed(s) => {
                let mut r = "Draw failed: ".to_owned();
                r.append(s.as_str());
                r
            },
            DisplayError::ModeNotSupported => "Video mode not supported".to_owned(),
        }
    }
}

/// Audio failures.
#[derive(Debug, Clone)]
pub enum AudioError {
    InitFailed(String),
    PlaybackFailed(String),
}

/// The text of an audio failure.
pub open spec fn audio_error_text(e: AudioError) -> Seq<char> {
    match e {
        AudioError::InitFailed(s) => "Audio init failed: "@ + s@,
        AudioError::PlaybackFailed(s) => "Audio playback failed: "@ + s@,
    }
}

impl AudioError {
    /// The text describing the failure.
    pub fn message(&self) -> (r: String)
        ensures
            r@ == audio_error_text(*self),
    {
        match self {
            AudioError::InitFailed(s) => {
                let mut r = "Audio init failed: ".to_owned();
                r.append(s.as_str());
                r
            },
            AudioError::PlaybackFailed(s) => {
                let mut r = "Audio playback failed: ".to_owned();
                r.append(s.as_str());
                r
            },
        }
    }
}

/// A linear congruential generator (see `lcg_next`).
pub struct SimpleRng {
    state: u32,
}

impl View for SimpleRng {
    type V = u32;

    closed spec fn view(&self) -> u32 {
        self.state
    }
}

impl SimpleRng {
    /// A generator in state `seed`.
    pub fn new(seed: u32) -> (r: Self)
        ensures
            r@ == seed,
    {
        SimpleRng { state: seed }
    }

    /// Advances one step and returns the new state.
    pub fn next_u32(&mut self) -> (r: u32)
        ensures
            r == lcg_next(old(self)@),
            final(self)@ == r,
    {
        self.state = self.state.wrapping_mul(1664525).wrapping_add(1013904223);
        self.state
    }

    /// A number in `0..bound` from one step; 0, without a step, when
    /// `bound` is 0.
    pub fn range(&mut self, bound: u32) -> (r: u32)
        ensures
            bound == 0 ==> r == 0 && final(self)@ == old(self)@,
            bound != 0 ==> r == lcg_next(old(self)@) % bound && final(self)@ == lcg_next(old(self)@),
    {
        if bound == 0 {
            return 0;
        }
        self.next_u32() % bound
    }
}

/// What the console platform holds: its generator state and the queued
/// key presses, first to come first.
pub struct ConsoleView {
    pub rng_state: u32,
    pub keys: Seq<KeyEvent>,
}

/// The console platform's own state: a random number generator and a
/// queue of scripted key presses.
pub struct ConsolePlatform {
    rng: SimpleRng,
    key_queue: VecDeque<KeyEvent>,
}

impl View for ConsolePlatform {
    type V = ConsoleView;

    closed spec fn view(&self) -> ConsoleView {
        ConsoleView { rng_state: self.rng@, keys: self.key_queue@ }
    }
}

impl Default for ConsolePlatform {
    fn default() -> (r: Self)
        ensures
            r@ == (ConsoleView { rng_state: 0x12345678, keys: Seq::empty() }),
    {
        ConsolePlatform { rng: SimpleRng::new(0x12345678), key_queue: VecDeque::new() }
    }
}

impl ConsolePlatform {
    /// A platform with the generator seeded at 0x12345678 and no keys.
    pub fn new() -> (r: Self)
        ensures
            r@ == (ConsoleView { rng_state: 0x12345678, keys: Seq::empty() }),
    {
        Self::default()
    }

    /// Queues a key press.
    pub fn push_key(&mut self, key: KeyEvent)
        ensures
            final(self)@ == (ConsoleView { keys: old(self)@.keys.push(key), ..old(self)@ }),
    {
        self.key_queue.push_back(key);
    }

    /// The next queued key, if any.
    pub fn poll_key(&mut self) -> (r: Option<KeyEvent>)
        ensures
            old(self)@.keys.len() == 0 ==> r is None && final(self)@ == old(self)@,
            old(self)@.keys.len() > 0 ==> r == Some(old(self)@.keys[0]) && final(self)@ == (
            ConsoleView { keys: old(self)@.keys.drop_first(), ..old(self)@ }),
    {
        self.key_queue.pop_front()
    }

    /// The next queued key; Enter when none is queued.
    pub fn wait_any_key(&mut self) -> (r: KeyEvent)
        ensures
            old(self)@.keys.len() == 0 ==> r == KeyEvent::Enter && final(self)@ == old(self)@,
            old(self)@.keys.len() > 0 ==> r == old(self)@.keys[0] && final(self)@ == (ConsoleView {
                keys: old(self)@.keys.drop_first(),
                ..old(self)@
            }),
    {
        match self.key_queue.pop_front() {
            Some(key) => key,
            None => KeyEvent::Enter,
        }
    }

    /// Advances the generator one step and returns its new state.
    pub fn random_u32(&mut self) -> (r: u32)
        ensures
            r == lcg_next(old(self)@.rng_state),
            final(self)@ == (ConsoleView { rng_state: r, ..old(self)@ }),
    {
        self.rng.next_u32()
    }
}

} // verus!
