//! The tone player: a melody is a list of tones played one after the
//! other, advanced by the timer tick.
//!
//! The speaker hardware (the timer chip's square-wave channel and the
//! gate port) is outside this crate; its commands are modelled as the
//! `frequency` and `enabled` fields of [`SpeakerState`], which record what
//! the hardware was last told.

use vstd::prelude::*;

verus! {

/// One note of a melody: a frequency in hertz and a duration in
/// milliseconds. A zero frequency marks the end of a raw tone list.
#[derive(Clone, Copy, Debug, PartialEq, Eq, Structural)]
pub struct Tone {
    /// Frequency in hertz.
    pub frequency: u32,
    /// Duration in milliseconds.
    pub duration: u32,
}

impl Tone {
    /// A tone of the given frequency and duration.
    pub fn new(frequency: u32, duration: u32) -> (t: Tone)
        ensures
            t.frequency == frequency && t.duration == duration,
    {
        Tone { frequency, duration }
    }

    /// The end marker of a raw tone list.
    pub fn new_end() -> (t: Tone)
        ensures
            t.frequency == 0 && t.duration == 0,
    {
        Tone { frequency: 0, duration: 0 }
    }

    /// Whether the tone is the end marker.
    pub fn is_end(&self) -> (r: bool)
        ensures
            r == (self.frequency == 0),
    {
        self.frequency == 0
    }
}

/// A melody in play: the tones (end marker excluded), the next tone to
/// play, and whether the list starts over when it runs out.
#[derive(Debug)]
pub struct Melody {
    tones: Vec<Tone>,
    index: usize,
    repeating: bool,
}

/// The mathematical value of a [`Melody`].
#[verifier::ext_equal]
pub ghost struct MelodyView {
    pub tones: Seq<Tone>,
    pub index: int,
    pub repeating: bool,
}

impl View for Melody {
    type V = MelodyView;

    closed spec fn view(&self) -> MelodyView {
        MelodyView { tones: self.tones@, index: self.index as int, repeating: self.repeating }
    }
}

/// What [`Melody::next`] does: the new melody state and the tone
/// returned.
pub open spec fn spec_melody_next(m: MelodyView) -> (MelodyView, Option<Tone>) {
    if m.index < m.tones.len() {
        (MelodyView { index: m.index + 1, ..m }, Some(m.tones[m.index]))
    } else if m.repeating && m.tones.len() > 0 {
        (MelodyView { index: 1, ..m }, Some(m.tones[0]))
    } else {
        (m, None::<Tone>)
    }
}

impl Melody {
    /// The cursor never runs past the list.
    pub open spec fn wf(&self) -> bool {
        0 <= self@.index <= self@.tones.len()
    }

    /// A melody at its first tone.
    pub fn new(tones: Vec<Tone>, repeating: bool) -> (m: Melody)
        ensures
            m.wf(),
            m@ == (MelodyView { tones: tones@, index: 0, repeating }),
    {
        Melody { tones, index: 0, repeating }
    }

    /// Whether the melody starts over when it runs out.
    pub fn is_repeating(&self) -> (r: bool)
        ensures
            r == self@.repeating,
    {
        self.repeating
    }

    /// The next tone: the one under the cursor, or the first again for a
    /// repeating melody that ran out, or nothing when the melody is over.
    pub fn next(&mut self) -> (r: Option<Tone>)
        requires
            old(self).wf(),
        ensures
            final(self).wf(),
            final(self)@ == spec_melody_next(old(self)@).0,
            r == spec_melody_next(old(self)@).1,
    {
        if self.index < self.tones.len() {
            let tone = self.tones[self.index];
            self.index += 1;
            proof {
                assert(self@ =~= spec_melody_next(old(self)@).0);
            }
            Some(tone)
        } else if self.repeating && self.tones.len() > 0 {
            let tone = self.tones[0];
            self.index = 1;
            proof {
                assert(self@ =~= spec_melody_next(old(self)@).0);
            }
            Some(tone)
        } else {
            None
        }
    }
}

/// The tone player's state: the melody in play, the uptime at which the
/// current tone ends (zero when nothing plays), and the commands last
/// given to the hardware.
#[derive(Debug)]
pub struct SpeakerState {
    /// The melody in play, if any.
    pub melody: Option<Melody>,
    /// Uptime in milliseconds at which the current tone ends; zero when
    /// no tone is playing.
    pub tone_end_date: u64,
    /// The frequency last sent to the square-wave channel.
    pub frequency: Option<u32>,
    /// Whether the speaker gate is open.
    pub enabled: bool,
}

/// The mathematical value of a [`SpeakerState`].
#[verifier::ext_equal]
pub ghost struct SpeakerView {
    pub melody: Option<MelodyView>,
    pub tone_end_date: u64,
    pub frequency: Option<u32>,
    pub enabled: bool,
}

impl View for SpeakerState {
    type V = SpeakerView;

    open spec fn view(&self) -> SpeakerView {
        SpeakerView {
            melody: match self.melody {
                Some(m) => Some(m@),
                None => None,
            },
            tone_end_date: self.tone_end_date,
            frequency: self.frequency,
            enabled: self.enabled,
        }
    }
}

impl SpeakerState {
    /// The melody in play, when there is one, is well formed.
    pub open spec fn wf(&self) -> bool {
        match self.melody {
            Some(m) => m.wf(),
            None => true,
        }
    }

    /// A silent player.
    pub fn new() -> (sp: SpeakerState)
        ensures
            sp.wf(),
            sp@ == (SpeakerView { melody: None, tone_end_date: 0, frequency: None, enabled: false }),
    {
        SpeakerState { melody: None, tone_end_date: 0, frequency: None, enabled: false }
    }
}

/// Commands the square-wave channel to the given frequency.
pub fn play_frequency(sp: &mut SpeakerState, frequency: u32)
    ensures
        final(sp)@ == (SpeakerView { frequency: Some(frequency), ..old(sp)@ }),
{
    sp.frequency = Some(frequency);
}

/// Plays one tone: commands its frequency and notes when it will end.
fn play_tone(sp: &mut SpeakerState, tone: Tone, now: u64)
    requires
        now + tone.duration <= u64::MAX,
    ensures
        final(sp)@ == (SpeakerView {
            frequency: Some(tone.frequency),
            tone_end_date: (now + tone.duration) as u64,
            ..old(sp)@
        }),
{
    play_frequency(sp, tone.frequency);
    sp.tone_end_date = now + tone.duration as u64;
    proof {
        assert(sp@ =~= (SpeakerView {
            frequency: Some(tone.frequency),
            tone_end_date: (now + tone.duration) as u64,
            ..old(sp)@
        }));
    }
}

/// The player's state after a melody starts: the first tone, if there
/// is one, plays at once, and the speaker gate is opened.
pub open spec fn spec_start_melody(
    sp: SpeakerView,
    tones: Seq<Tone>,
    repeating: bool,
    now: u64,
) -> SpeakerView {
    SpeakerView {
        melody: Some(MelodyView {
            tones,
            index: if tones.len() > 0 {
                1int
            } else {
                0int
            },
            repeating,
        }),
        frequency: if tones.len() > 0 {
            Some(tones[0].frequency)
        } else {
            sp.frequency
        },
        tone_end_date: if tones.len() > 0 {
            (now + tones[0].duration) as u64
        } else {
            sp.tone_end_date
        },
        enabled: true,
    }
}

/// Starts a melody: the first tone, if there is one, plays at once, and
/// the speaker gate is opened.
pub fn start_melody(sp: &mut SpeakerState, tones: Vec<Tone>, repeating: bool, now: u64)
    requires
        tones@.len() > 0 ==> now + tones@[0].duration <= u64::MAX,
    ensures
        final(sp).wf(),
        final(sp)@ == spec_start_melody(old(sp)@, tones@, repeating, now),
{
    let mut melody = Melody::new(tones, repeating);
    if let Some(tone) = melody.next() {
        play_tone(sp, tone, now);
    }
    sp.melody = Some(melody);
    sp.enabled = true;
    proof {
        assert(sp@.melody->0 =~= (MelodyView {
            tones: tones@,
            index: if tones@.len() > 0 { 1int } else { 0int },
            repeating,
        }));
        assert(sp@ =~= spec_start_melody(old(sp)@, tones@, repeating, now));
    }
}

/// What falling through to the next tone does to the player's state.
pub open spec fn spec_next_tone(sp: SpeakerView, now: u64) -> SpeakerView {
    match sp.melody {
        Some(m) => {
            let (advanced, next) = spec_melody_next(m);
            match next {
                Some(tone) => SpeakerView {
                    melody: Some(advanced),
                    frequency: Some(tone.frequency),
                    tone_end_date: (now + tone.duration) as u64,
                    ..sp
                },
                None => SpeakerView { melody: None, tone_end_date: 0, enabled: false, ..sp },
            }
        }
        None => SpeakerView { melody: None, tone_end_date: 0, enabled: false, ..sp },
    }
}

/// Moves to the next tone of the melody in play, or falls silent when it
/// is over.
fn next_tone(sp: &mut SpeakerState, now: u64)
    requires
        old(sp).wf(),
        now + u32::MAX <= u64::MAX,
    ensures
        final(sp).wf(),
        final(sp)@ == spec_next_tone(old(sp)@, now),
{
    let next = match &mut sp.melody {
        Some(m) => m.next(),
        None => None,
    };
    match next {
        Some(tone) => {
            play_tone(sp, tone, now);
        }
        None => {
            sp.melody = None;
            sp.tone_end_date = 0;
            sp.enabled = false;
        }
    }
    proof {
        assert(sp@ =~= spec_next_tone(old(sp)@, now));
    }
}

/// What one timer tick does to the player: nothing while the current tone
/// still sounds, the step to the next tone once its end date has passed.
pub open spec fn spec_speaker_tick(sp: SpeakerView, time: u64) -> SpeakerView {
    if sp.tone_end_date != 0 && sp.tone_end_date <= time {
        spec_next_tone(sp, time)
    } else {
        sp
    }
}

/// Called on every timer tick with the current uptime in milliseconds:
/// once the current tone's end date has passed, the next tone starts (or
/// the player falls silent).
pub fn tick(sp: &mut SpeakerState, time: u64)
    requires
        old(sp).wf(),
        time + u32::MAX <= u64::MAX,
    ensures
        final(sp).wf(),
        final(sp)@ == spec_speaker_tick(old(sp)@, time),
{
    if sp.tone_end_date != 0 && sp.tone_end_date <= time {
        next_tone(sp, time);
    }
}

} // verus!
