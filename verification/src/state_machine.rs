//! Timing-based utterance segmentation state machine.
//!
//! Once per poll tick the machine consumes the voice-activity decision and,
//! while silent, the wake-word decision, and tracks speaking / pending-end
//! state with hysteresis timers. When an end of speech is confirmed it emits
//! a finalize action carrying the number of most recent samples that make up
//! the utterance. Timestamps are monotonic clock readings in milliseconds;
//! duration arithmetic saturates so it can never wrap or go negative.

use vstd::prelude::*;

verus! {

/// Compensation for the wake-word engine's inherent detection lag: speech is
/// assumed to have started this long before the detection fires.
pub const DETECTION_LATENCY_MS: u64 = 2000;

/// Silence must hold continuously this long before speech counts as ended.
pub const END_SILENCE_MS: u64 = 800;

/// Minimum time from wake-word detection to finalization, so the wake word
/// alone never finalizes an utterance.
pub const MIN_UTTERANCE_MS: u64 = 1500;

/// Speaking / silence state, with the pending-end hysteresis timer carried
/// inside the variant so an armed timer without a timestamp is
/// unrepresentable.
#[derive(Debug, Clone, Copy, PartialEq, Eq, Structural)]
pub enum SpeakingState {
    Silent,
    Speaking,
    PendingEnd { silence_started: u64 },
}

/// What the poll loop must do after a tick.
#[derive(Debug, Clone, Copy, PartialEq, Eq, Structural)]
pub enum TickAction {
    Idle,
    Finalize { sample_count: usize },
}

/// The segmentation coordinator: current state plus the two timestamps the
/// transition rules compare against, and the capture sample rate used to
/// convert the utterance duration into a sample count.
pub struct UtteranceStateMachine {
    pub state: SpeakingState,
    pub speaking_start: u64,
    pub detection_start: u64,
    pub sample_rate: u32,
}

/// Saturating difference of two millisecond readings: the elapsed time
/// since a stored timestamp, or a clock reading moved back by an offset;
/// zero whenever the subtrahend is the larger, as clock coarseness allows.
pub open spec fn spec_elapsed(now: u64, earlier: u64) -> u64 {
    if now >= earlier {
        (now - earlier) as u64
    } else {
        0
    }
}

/// Number of samples covered by `duration_ms` at `sample_rate`, rounded up,
/// clamped to `buffer_len`: an utterance longer than the retention window is
/// silently truncated to the whole buffer.
pub open spec fn spec_sample_count(duration_ms: u64, sample_rate: u32, buffer_len: nat) -> nat {
    let raw = ((duration_ms * sample_rate + 999) / 1000) as nat;
    if raw >= buffer_len {
        buffer_len
    } else {
        raw
    }
}

/// The transition table, evaluated once per poll tick. The wake-word
/// decision is consulted only while silent; the voice decision only while
/// speaking or pending an end.
pub open spec fn spec_tick(
    m: UtteranceStateMachine,
    now: u64,
    voice: bool,
    wake: bool,
    buffer_len: nat,
) -> (UtteranceStateMachine, TickAction) {
    match m.state {
        SpeakingState::Silent => {
            if wake {
                (
                    (UtteranceStateMachine {
                        state: SpeakingState::Speaking,
                        speaking_start: spec_elapsed(now, DETECTION_LATENCY_MS),
                        detection_start: now,
                        ..m
                    }),
                    TickAction::Idle,
                )
            } else {
                (m, TickAction::Idle)
            }
        },
        SpeakingState::Speaking => {
            if voice {
                (m, TickAction::Idle)
            } else {
                (
                    (UtteranceStateMachine { state: SpeakingState::PendingEnd { silence_started: now }, ..m }),
                    TickAction::Idle,
                )
            }
        },
        SpeakingState::PendingEnd { silence_started } => {
            if voice {
                ((UtteranceStateMachine { state: SpeakingState::Speaking, ..m }), TickAction::Idle)
            } else if spec_elapsed(now, silence_started) > END_SILENCE_MS && spec_elapsed(
                now,
                m.detection_start,
            ) > MIN_UTTERANCE_MS {
                (
                    (UtteranceStateMachine { state: SpeakingState::Silent, ..m }),
                    TickAction::Finalize {
                        sample_count: spec_sample_count(
                            spec_elapsed(now, m.speaking_start),
                            m.sample_rate,
                            buffer_len,
                        ) as usize,
                    },
                )
            } else {
                (m, TickAction::Idle)
            }
        },
    }
}

/// The machine after a scripted sequence of poll ticks, each one a clock
/// reading, the voice and wake decisions, and the buffer length seen, all
/// applied by the transition table in order.
pub open spec fn spec_run(
    m: UtteranceStateMachine,
    script: Seq<(u64, bool, bool, nat)>,
) -> UtteranceStateMachine
    decreases script.len(),
{
    if script.len() == 0 {
        m
    } else {
        spec_run(
            spec_tick(m, script[0].0, script[0].1, script[0].2, script[0].3).0,
            script.drop_first(),
        )
    }
}

/// Law: a scripted run follows the transition table tick by tick: whatever
/// the history, one more scripted tick advances the run by exactly one
/// table transition.
pub proof fn lemma_run_one_more_tick(
    m: UtteranceStateMachine,
    script: Seq<(u64, bool, bool, nat)>,
    t: (u64, bool, bool, nat),
)
    ensures
        spec_run(m, script.push(t)) == spec_tick(spec_run(m, script), t.0, t.1, t.2, t.3).0,
    decreases script.len(),
{
    if script.len() == 0 {
        let m2 = spec_tick(m, t.0, t.1, t.2, t.3).0;
        assert(script.push(t)[0] == t);
        assert(script.push(t).drop_first() =~= Seq::<(u64, bool, bool, nat)>::empty());
        assert(spec_run(m, script.push(t)) == spec_run(m2, script.push(t).drop_first()));
        assert(spec_run(m2, script.push(t).drop_first()) == m2);
        assert(spec_run(m, script) == m);
    } else {
        lemma_run_one_more_tick(
            spec_tick(m, script[0].0, script[0].1, script[0].2, script[0].3).0,
            script.drop_first(),
            t,
        );
        let m2 = spec_tick(m, script[0].0, script[0].1, script[0].2, script[0].3).0;
        assert(script.push(t)[0] == script[0]);
        assert(script.push(t).drop_first() =~= script.drop_first().push(t));
        assert(spec_run(m, script.push(t)) == spec_run(m2, script.push(t).drop_first()));
        assert(spec_run(m, script) == spec_run(m2, script.drop_first()));
    }
}

/// Law: the end-to-end segmentation scenario, over the transition table.
/// From a silent machine, a wake detection at `t0` — late enough that the
/// detection-latency offset does not saturate — puts the speech onset at
/// `t0 - DETECTION_LATENCY_MS`; voice ticks keep the machine speaking and
/// ignore further wake detections; silence from `ts`, confirmed at `tf`
/// past both hysteresis thresholds, finalizes exactly one window of
/// `tf - t0 + DETECTION_LATENCY_MS` milliseconds of the newest audio
/// (clamped to the buffer) and returns the machine to silence, where
/// further silent ticks hand nothing off.
pub proof fn lemma_wake_to_finalize_scenario(
    m: UtteranceStateMachine,
    t0: u64,
    ts: u64,
    tf: u64,
    len: nat,
)
    requires
        m.state is Silent,
        DETECTION_LATENCY_MS <= t0 <= ts <= tf,
        tf - ts > END_SILENCE_MS,
        tf - t0 > MIN_UTTERANCE_MS,
    ensures
        ({
            let m1 = spec_tick(m, t0, false, true, len).0;
            let m2 = spec_tick(m1, ts, false, false, len).0;
            let end = spec_tick(m2, tf, false, false, len);
            &&& m1.state is Speaking
            &&& m1.speaking_start == t0 - DETECTION_LATENCY_MS
            &&& m1.detection_start == t0
            &&& (forall|t: u64, w: bool, l: nat|
                (#[trigger] spec_tick(m1, t, true, w, l)).0 == m1)
            &&& m2.state == (SpeakingState::PendingEnd { silence_started: ts })
            &&& end.0.state is Silent
            &&& end.1 == (TickAction::Finalize {
                sample_count: spec_sample_count(
                    (tf - t0 + DETECTION_LATENCY_MS) as u64,
                    m.sample_rate,
                    len,
                ) as usize,
            })
            &&& (forall|t: u64, l: nat|
                (#[trigger] spec_tick(end.0, t, false, false, l)).1 == TickAction::Idle)
        }),
{
}

/// Saturating subtraction of clock readings.
pub fn elapsed_ms(now: u64, earlier: u64) -> (r: u64)
    ensures
        r == spec_elapsed(now, earlier),
{
    if now >= earlier {
        now - earlier
    } else {
        0
    }
}

/// Samples covered by an utterance of `duration_ms`, rounded up and clamped
/// to what the buffer still holds.
pub fn utterance_sample_count(duration_ms: u64, sample_rate: u32, buffer_len: usize) -> (r: usize)
    ensures
        r == spec_sample_count(duration_ms, sample_rate, buffer_len as nat),
{
    proof {
        assert(duration_ms as int * sample_rate as int <= u64::MAX as int * u32::MAX as int)
            by (nonlinear_arith)
            requires
                duration_ms <= u64::MAX,
                sample_rate <= u32::MAX,
        ;
    }
    let raw: u128 = (duration_ms as u128 * sample_rate as u128 + 999) / 1000;
    if raw >= buffer_len as u128 {
        buffer_len
    } else {
        raw as usize
    }
}

impl UtteranceStateMachine {
    /// A machine that starts out silent, with both timers at the epoch.
    pub fn new(sample_rate: u32) -> (r: Self)
        ensures
            r.state == SpeakingState::Silent,
            r.speaking_start == 0,
            r.detection_start == 0,
            r.sample_rate == sample_rate,
    {
        UtteranceStateMachine {
            state: SpeakingState::Silent,
            speaking_start: 0,
            detection_start: 0,
            sample_rate,
        }
    }

    /// Whether the machine is passively listening, i.e. the wake-word gate
    /// should be consulted this tick.
    pub fn is_silent(&self) -> (r: bool)
        ensures
            r == (self.state is Silent),
    {
        matches!(self.state, SpeakingState::Silent)
    }

    /// Advance by one poll tick: the machine afterwards, and the action the
    /// loop must perform, are exactly what the transition table dictates.
    pub fn tick(&mut self, now: u64, voice: bool, wake: bool, buffer_len: usize) -> (r: TickAction)
        ensures
            *final(self) == spec_tick(*old(self), now, voice, wake, buffer_len as nat).0,
            r == spec_tick(*old(self), now, voice, wake, buffer_len as nat).1,
    {
        match self.state {
            SpeakingState::Silent => {
                if wake {
                    self.speaking_start = elapsed_ms(now, DETECTION_LATENCY_MS);
                    self.detection_start = now;
                    self.state = SpeakingState::Speaking;
                }
                TickAction::Idle
            },
            SpeakingState::Speaking => {
                if !voice {
                    self.state = SpeakingState::PendingEnd { silence_started: now };
                }
                TickAction::Idle
            },
            SpeakingState::PendingEnd { silence_started } => {
                if voice {
                    self.state = SpeakingState::Speaking;
                    TickAction::Idle
                } else if elapsed_ms(now, silence_started) > END_SILENCE_MS && elapsed_ms(
                    now,
                    self.detection_start,
                ) > MIN_UTTERANCE_MS {
                    let count = utterance_sample_count(
                        elapsed_ms(now, self.speaking_start),
                        self.sample_rate,
                        buffer_len,
                    );
                    self.state = SpeakingState::Silent;
                    TickAction::Finalize { sample_count: count }
                } else {
                    TickAction::Idle
                }
            },
        }
    }
}

} // verus!
