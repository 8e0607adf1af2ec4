//! The delay and sound timers: counters that lose one per tick until they
//! reach zero.

use vstd::prelude::*;

verus! {

/// Instructions executed per second by the driving loop.
pub const TARGET_IPS: u32 = 700;

/// Ticks that make up one step of a 60 Hz countdown.
pub open spec fn ticks_per_count() -> nat {
    (TARGET_IPS / 60) as nat
}

/// The timer value, in ticks, that stands for `duration` sixtieths of a
/// second.
pub open spec fn ticks_for(duration: nat) -> nat {
    duration * ticks_per_count()
}

/// At 700 instructions per second a step of the countdown takes 11 ticks.
pub proof fn lemma_ticks_for(duration: nat)
    ensures
        ticks_for(duration) == duration * 11,
{
    let rate = ticks_per_count();
    assert(rate == 11);
    assert(duration * rate == duration * 11) by (nonlinear_arith)
        requires
            rate == 11,
    ;
}

/// A timer value after `steps` ticks.
pub open spec fn countdown(time: nat, steps: nat) -> nat
    decreases steps,
{
    if steps == 0 {
        time
    } else {
        countdown(stepped(time), (steps - 1) as nat)
    }
}

/// A timer value after one tick.
pub open spec fn stepped(time: nat) -> nat {
    if time > 0 {
        (time - 1) as nat
    } else {
        0
    }
}

/// Converts a duration in sixtieths of a second to ticks.
pub fn duration_to_ticks(duration: u32) -> (ticks: u32)
    requires
        ticks_for(duration as nat) <= u32::MAX,
    ensures
        ticks == ticks_for(duration as nat),
{
    duration * (TARGET_IPS / 60)
}

/// The delay timer.
#[derive(Clone, Copy, Debug, PartialEq, Eq, Structural)]
pub struct DTimer {
    /// Ticks left.
    pub time: u32,
}

impl DTimer {
    /// A timer that has run out.
    pub fn new() -> (timer: DTimer)
        ensures
            timer.time == 0,
    {
        DTimer { time: 0 }
    }

    /// Counts one tick down, stopping at zero.
    pub fn update(&mut self)
        ensures
            final(self).time == stepped(old(self).time as nat),
    {
        if self.time > 0 {
            self.time -= 1;
        }
    }
}

/// What the audio device is asked to do after a tick.
#[derive(Clone, Copy, Debug, PartialEq, Eq, Structural)]
pub enum AudioSignal {
    /// Keep doing what it does.
    Unchanged,
    /// Start the tone.
    Resume,
    /// Silence the tone.
    Pause,
}

/// The sound timer: the tone plays while it counts.
#[derive(Clone, Copy, Debug, PartialEq, Eq, Structural)]
pub struct STimer {
    /// Ticks left.
    pub time: u32,
    /// Whether the tone has been started and not silenced since.
    pub playing: bool,
}

impl STimer {
    /// The timer after one tick.
    pub open spec fn after_tick(self) -> STimer {
        STimer { time: stepped(self.time as nat) as u32, playing: self.time > 0 }
    }

    /// The signal that one tick sends to the audio device.
    pub open spec fn signal(self) -> AudioSignal {
        if self.time == 0 {
            AudioSignal::Pause
        } else if self.playing {
            AudioSignal::Unchanged
        } else {
            AudioSignal::Resume
        }
    }

    /// A silent timer that has run out.
    pub fn new() -> (timer: STimer)
        ensures
            timer.time == 0,
            !timer.playing,
    {
        STimer { time: 0, playing: false }
    }

    /// Counts one tick down, stopping at zero. While the timer counts the
    /// tone is on, and it is started when it was not; at zero the tone is
    /// silenced.
    pub fn update(&mut self) -> (signal: AudioSignal)
        ensures
            *final(self) == old(self).after_tick(),
            signal == old(self).signal(),
    {
        if self.time > 0 {
            let signal = if self.playing {
                AudioSignal::Unchanged
            } else {
                AudioSignal::Resume
            };
            self.playing = true;
            self.time -= 1;
            signal
        } else {
            self.playing = false;
            AudioSignal::Pause
        }
    }
}

} // verus!
