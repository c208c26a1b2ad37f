use crate::gameboy::memory::MemoryInterceptor;
use vstd::prelude::*;

verus! {

/// Address of the register that switches the sound hardware on and off.
pub const SOUND_CONTROL: u16 = 0xFF26;

/// Watches the writes of a machine for the end of a song: the sound
/// hardware is switched on when the song begins and off when it is over.
pub struct EndDetector {
    sound_enabled: bool,
    sound_disabled: bool,
}

/// What an `EndDetector` has seen.
pub struct Watch {
    /// The sound hardware has been switched on.
    pub enabled: bool,
    /// The sound hardware has been switched off after that.
    pub disabled: bool,
}

/// What has been seen after a write of `data` to `addr`.
pub open spec fn after_write(seen: Watch, addr: u16, data: u8) -> Watch {
    if addr != SOUND_CONTROL {
        seen
    } else if !seen.enabled && data != 0 {
        Watch { enabled: true, ..seen }
    } else if seen.enabled && data == 0 {
        Watch { disabled: true, ..seen }
    } else {
        seen
    }
}

impl View for EndDetector {
    type V = Watch;

    closed spec fn view(&self) -> Watch {
        Watch { enabled: self.sound_enabled, disabled: self.sound_disabled }
    }
}

impl EndDetector {
    /// A detector that has seen nothing.
    pub fn new() -> (detector: Self)
        ensures
            detector@ == (Watch { enabled: false, disabled: false }),
    {
        Self { sound_enabled: false, sound_disabled: false }
    }

    /// Forgets what has been seen.
    pub fn reset(&mut self)
        ensures
            final(self)@ == (Watch { enabled: false, disabled: false }),
    {
        self.sound_enabled = false;
        self.sound_disabled = false;
    }

    /// Whether the song has ended.
    pub fn detected(&self) -> (ended: bool)
        ensures
            ended == self@.disabled,
    {
        self.sound_disabled
    }

    /// Takes note of a write. The write is never kept from happening.
    pub fn observe_write(&mut self, addr: u16, data: u8) -> (allow: bool)
        ensures
            allow,
            final(self)@ == after_write(old(self)@, addr, data),
    {
        if addr == SOUND_CONTROL {
            if !self.sound_enabled && data != 0 {
                self.sound_enabled = true;
            } else if self.sound_enabled && data == 0 {
                self.sound_disabled = true;
            }
        }
        true
    }
}

impl MemoryInterceptor for EndDetector {
    fn intercept_write(&mut self, id: usize, addr: u16, data: u8) -> (allow: bool)
        ensures
            allow,
            final(self)@ == after_write(old(self)@, addr, data),
    {
        self.observe_write(addr, data)
    }
}

} // verus!
