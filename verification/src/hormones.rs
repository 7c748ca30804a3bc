//! The affect model: eight channels that decay towards their baselines as
//! time passes and are nudged by each interaction.
//!
//! Channel values are fixed-point numbers: `SCALE` units stand for 1.0, so
//! the unit interval is `0..=SCALE`. A decay factor is a fixed-point number
//! too, with `FACTOR_SCALE` units for 1.0. Times are whole seconds since
//! the Unix epoch, and a decay rate is given per hour in units of
//! `1 / SCALE`.

use vstd::prelude::*;
use vstd::arithmetic::div_mod::lemma_div_is_ordered;
use vstd::arithmetic::div_mod::lemma_div_multiples_vanish;
use vstd::arithmetic::div_mod::lemma_div_multiples_vanish_fancy;
use crate::text::decimal;
use crate::text::digit_char;
use crate::text::push_decimal;
use crate::text::same_text;

verus! {

/// Number of units that stand for the channel value 1.0.
pub const SCALE: u32 = 1_000_000;

/// Number of units that stand for the decay factor 1.0.
pub const FACTOR_SCALE: u64 = 1_000_000_000;

/// The reference decay rate, 0.05 per hour.
pub const DECAY_RATE: u32 = 50_000;

/// Number of doubling steps that the decay table covers.
pub const DECAY_STEPS: usize = 37;

/// Decay exponents at or above this bound give the factor zero.
pub const DECAY_HORIZON: u128 = 137_438_953_472;

/// `DECAY_TABLE[i]` is `exp(-2^i / 3_600_000_000)` in units of
/// `1 / FACTOR_SCALE`, rounded to the nearest unit. The exponent of a decay
/// is `seconds * rate`, and 3_600_000_000 is seconds per hour times `SCALE`.
pub const DECAY_TABLE: [u64; 37] = [
    1_000_000_000,
    999_999_999,
    999_999_999,
    999_999_998,
    999_999_996,
    999_999_991,
    999_999_982,
    999_999_964,
    999_999_929,
    999_999_858,
    999_999_716,
    999_999_431,
    999_998_862,
    999_997_724,
    999_995_449,
    999_990_898,
    999_981_796,
    999_963_592,
    999_927_185,
    999_854_375,
    999_708_771,
    999_417_627,
    998_835_594,
    997_672_544,
    995_350_505,
    990_722_627,
    981_531_324,
    963_403_740,
    928_146_767,
    861_456_421,
    742_107_166,
    550_723_046,
    303_295_873,
    91_988_387,
    8_461_863,
    71_603,
    5,
];

/// One of the eight channels of the affect model.
#[derive(Clone, Copy, Debug, PartialEq, Eq, Structural)]
pub enum Hormone {
    /// Reward, engagement.
    Dopamine,
    /// Well-being, contentment.
    Serotonin,
    /// Bonding, trust.
    Oxytocin,
    /// Stress, urgency.
    Cortisol,
    /// Rest, reduced activity.
    Melatonin,
    /// Exposure to new stimuli.
    Novelty,
    /// Drive to explore.
    Curiosity,
    /// Tolerance for delays.
    Patience,
}

/// The coarse sentiment of an inbound message.
#[derive(Clone, Copy, Debug, PartialEq, Eq, Structural)]
pub enum Sentiment {
    Positive,
    Negative,
    Question,
    Neutral,
}

/// The affect state of one conversation.
#[derive(Clone, Copy, Debug, PartialEq, Eq, Structural)]
pub struct HormoneState {
    pub dopamine: u32,
    pub serotonin: u32,
    pub oxytocin: u32,
    pub cortisol: u32,
    pub melatonin: u32,
    pub novelty: u32,
    pub curiosity: u32,
    pub patience: u32,
    /// Time of the last update, in seconds since the Unix epoch.
    pub last_updated: i64,
}

/// One call of `update_from_interaction`, as data.
pub struct Interaction {
    pub sentiment: Sentiment,
    pub is_novel: bool,
    pub now: i64,
    pub rate: u32,
}

/// The resting value that a channel decays towards.
pub open spec fn baseline(h: Hormone) -> nat {
    match h {
        Hormone::Dopamine => 500_000,
        Hormone::Serotonin => 500_000,
        Hormone::Oxytocin => 400_000,
        Hormone::Cortisol => 300_000,
        Hormone::Melatonin => 200_000,
        Hormone::Novelty => 400_000,
        Hormone::Curiosity => 600_000,
        Hormone::Patience => 700_000,
    }
}

/// The accumulator of the decay factor after the doubling steps from `i` on:
/// `rem` holds the bits of the exponent that are still to be read, lowest
/// first, and each set bit multiplies the accumulator by one table entry,
/// rounding down.
pub open spec fn decay_factor_from(rem: nat, i: nat, acc: nat) -> nat
    decreases DECAY_STEPS - i,
{
    if i >= DECAY_STEPS {
        acc
    } else {
        let next = if rem % 2 == 1 {
            acc * (DECAY_TABLE[i as int] as nat) / (FACTOR_SCALE as nat)
        } else {
            acc
        };
        decay_factor_from(rem / 2, i + 1, next)
    }
}

/// The decay factor for the exponent `x = seconds * rate`: a fixed-point
/// value of `exp(-x / 3_600_000_000)`, in units of `1 / FACTOR_SCALE`.
pub open spec fn decay_factor(x: nat) -> nat {
    if x >= DECAY_HORIZON {
        0
    } else {
        decay_factor_from(x, 0, FACTOR_SCALE as nat)
    }
}

/// A channel value moved towards its baseline by the given factor:
/// `value * factor + base * (1 - factor)`, rounded to the nearest unit, a
/// half upwards.
pub open spec fn mix(value: nat, base: nat, factor: nat) -> nat {
    (value * factor + base * ((FACTOR_SCALE - factor) as nat) + (FACTOR_SCALE / 2) as nat) / (
    FACTOR_SCALE as nat)
}

/// `value + amount`, held to the unit interval.
pub open spec fn clamp_unit(value: int) -> nat {
    if value < 0 {
        0
    } else if value > SCALE {
        SCALE as nat
    } else {
        value as nat
    }
}

/// A channel value with two decimal places, the third rounded half up.
pub open spec fn two_decimals(value: nat) -> Seq<char> {
    let h = (value + 5_000) / 10_000;
    decimal(h / 100) + seq!['.', digit_char((h / 10) % 10), digit_char(h % 10)]
}

/// One line of the rendered state.
pub open spec fn channel_line(label: Seq<char>, value: nat, note: Seq<char>) -> Seq<char> {
    label + ": "@ + two_decimals(value) + " ("@ + note + ")\n"@
}

/// The state after the given interactions, applied in order.
pub open spec fn after_interactions(s: HormoneState, events: Seq<Interaction>) -> HormoneState
    decreases events.len(),
{
    if events.len() == 0 {
        s
    } else {
        let e = events.last();
        after_interactions(s, events.drop_last()).after_interaction(
            e.sentiment,
            e.is_novel,
            e.now as int,
            e.rate as nat,
        )
    }
}

/// The state after decays at the given times, applied in order.
pub open spec fn decayed_through(s: HormoneState, times: Seq<i64>, rate: nat) -> HormoneState
    decreases times.len(),
{
    if times.len() == 0 {
        s
    } else {
        decayed_through(s, times.drop_last(), rate).decayed(times.last() as int, rate)
    }
}

/// The channel that a name stands for, if it names one.
pub open spec fn hormone_named(name: Seq<char>) -> Option<Hormone> {
    if name == "dopamine"@ {
        Some(Hormone::Dopamine)
    } else if name == "serotonin"@ {
        Some(Hormone::Serotonin)
    } else if name == "oxytocin"@ {
        Some(Hormone::Oxytocin)
    } else if name == "cortisol"@ {
        Some(Hormone::Cortisol)
    } else if name == "melatonin"@ {
        Some(Hormone::Melatonin)
    } else if name == "novelty"@ {
        Some(Hormone::Novelty)
    } else if name == "curiosity"@ {
        Some(Hormone::Curiosity)
    } else if name == "patience"@ {
        Some(Hormone::Patience)
    } else {
        None
    }
}

/// The sentiment that a tag stands for; a tag that names none is neutral.
pub open spec fn sentiment_tagged(tag: Seq<char>) -> Sentiment {
    if tag == "positive"@ {
        Sentiment::Positive
    } else if tag == "negative"@ {
        Sentiment::Negative
    } else if tag == "question"@ {
        Sentiment::Question
    } else {
        Sentiment::Neutral
    }
}

impl Hormone {
    /// The channel that a name stands for, if it names one.
    pub fn from_name(name: &str) -> (r: Option<Hormone>)
        ensures
            r == hormone_named(name@),
    {
        if same_text(name, "dopamine") {
            Some(Hormone::Dopamine)
        } else if same_text(name, "serotonin") {
            Some(Hormone::Serotonin)
        } else if same_text(name, "oxytocin") {
            Some(Hormone::Oxytocin)
        } else if same_text(name, "cortisol") {
            Some(Hormone::Cortisol)
        } else if same_text(name, "melatonin") {
            Some(Hormone::Melatonin)
        } else if same_text(name, "novelty") {
            Some(Hormone::Novelty)
        } else if same_text(name, "curiosity") {
            Some(Hormone::Curiosity)
        } else if same_text(name, "patience") {
            Some(Hormone::Patience)
        } else {
            None
        }
    }
}

impl Sentiment {
    /// The sentiment that a tag stands for; a tag that names none is
    /// neutral.
    pub fn from_tag(tag: &str) -> (r: Sentiment)
        ensures
            r == sentiment_tagged(tag@),
    {
        if same_text(tag, "positive") {
            Sentiment::Positive
        } else if same_text(tag, "negative") {
            Sentiment::Negative
        } else if same_text(tag, "question") {
            Sentiment::Question
        } else {
            Sentiment::Neutral
        }
    }
}

impl HormoneState {
    /// The value of one channel.
    pub open spec fn level(self, h: Hormone) -> nat {
        match h {
            Hormone::Dopamine => self.dopamine as nat,
            Hormone::Serotonin => self.serotonin as nat,
            Hormone::Oxytocin => self.oxytocin as nat,
            Hormone::Cortisol => self.cortisol as nat,
            Hormone::Melatonin => self.melatonin as nat,
            Hormone::Novelty => self.novelty as nat,
            Hormone::Curiosity => self.curiosity as nat,
            Hormone::Patience => self.patience as nat,
        }
    }

    /// The state of a conversation that is seen for the first time at `now`.
    pub open spec fn initial(now: i64) -> HormoneState {
        HormoneState {
            dopamine: 500_000,
            serotonin: 500_000,
            oxytocin: 500_000,
            cortisol: 300_000,
            melatonin: 200_000,
            novelty: 500_000,
            curiosity: 600_000,
            patience: 700_000,
            last_updated: now,
        }
    }

    /// Every channel lies in the unit interval.
    pub open spec fn in_range(self) -> bool {
        forall|h: Hormone| #[trigger] self.level(h) <= SCALE
    }

    /// The state with one channel replaced.
    pub open spec fn with_level(self, h: Hormone, value: u32) -> HormoneState {
        match h {
            Hormone::Dopamine => HormoneState { dopamine: value, ..self },
            Hormone::Serotonin => HormoneState { serotonin: value, ..self },
            Hormone::Oxytocin => HormoneState { oxytocin: value, ..self },
            Hormone::Cortisol => HormoneState { cortisol: value, ..self },
            Hormone::Melatonin => HormoneState { melatonin: value, ..self },
            Hormone::Novelty => HormoneState { novelty: value, ..self },
            Hormone::Curiosity => HormoneState { curiosity: value, ..self },
            Hormone::Patience => HormoneState { patience: value, ..self },
        }
    }

    /// The state after `adjust`: the channel is moved by `amount` and held
    /// to the unit interval; nothing else changes.
    pub open spec fn adjusted(self, h: Hormone, amount: int) -> HormoneState {
        self.with_level(h, clamp_unit(self.level(h) + amount) as u32)
    }

    /// The state after `decay`: unchanged unless `now` is later than the
    /// last update; else every channel is mixed with its baseline by the
    /// decay factor of the elapsed time, and the time is set to `now`.
    pub open spec fn decayed(self, now: int, rate: nat) -> HormoneState {
        if now <= self.last_updated {
            self
        } else {
            let f = decay_factor(((now - self.last_updated) * rate) as nat);
            HormoneState {
                dopamine: mix(self.dopamine as nat, baseline(Hormone::Dopamine), f) as u32,
                serotonin: mix(self.serotonin as nat, baseline(Hormone::Serotonin), f) as u32,
                oxytocin: mix(self.oxytocin as nat, baseline(Hormone::Oxytocin), f) as u32,
                cortisol: mix(self.cortisol as nat, baseline(Hormone::Cortisol), f) as u32,
                melatonin: mix(self.melatonin as nat, baseline(Hormone::Melatonin), f) as u32,
                novelty: mix(self.novelty as nat, baseline(Hormone::Novelty), f) as u32,
                curiosity: mix(self.curiosity as nat, baseline(Hormone::Curiosity), f) as u32,
                patience: mix(self.patience as nat, baseline(Hormone::Patience), f) as u32,
                last_updated: now as i64,
            }
        }
    }

    /// The adjustments that a sentiment brings.
    pub open spec fn moved_by(self, sentiment: Sentiment) -> HormoneState {
        match sentiment {
            Sentiment::Positive => self.adjusted(Hormone::Dopamine, 100_000).adjusted(
                Hormone::Serotonin,
                150_000,
            ).adjusted(Hormone::Oxytocin, 100_000).adjusted(Hormone::Cortisol, -100_000),
            Sentiment::Negative => self.adjusted(Hormone::Cortisol, 200_000).adjusted(
                Hormone::Serotonin,
                -100_000,
            ).adjusted(Hormone::Patience, -50_000),
            Sentiment::Question => self.adjusted(Hormone::Curiosity, 100_000).adjusted(
                Hormone::Dopamine,
                50_000,
            ),
            Sentiment::Neutral => self,
        }
    }

    /// The adjustments that a novel interaction brings.
    pub open spec fn stirred(self, is_novel: bool) -> HormoneState {
        if is_novel {
            self.adjusted(Hormone::Novelty, 200_000).adjusted(Hormone::Dopamine, 100_000).adjusted(
                Hormone::Curiosity,
                150_000,
            )
        } else {
            self
        }
    }

    /// The state after `update_from_interaction`.
    pub open spec fn after_interaction(
        self,
        sentiment: Sentiment,
        is_novel: bool,
        now: int,
        rate: nat,
    ) -> HormoneState {
        HormoneState {
            last_updated: now as i64,
            ..self.decayed(now, rate).moved_by(sentiment).stirred(is_novel)
        }
    }

    /// The label that `get_emotional_state` gives: the first of the listed
    /// conditions that holds decides.
    pub open spec fn emotional_state(self) -> Seq<char> {
        if self.dopamine > 700_000 && self.serotonin > 600_000 {
            "energized and content"@
        } else if self.cortisol > 700_000 {
            "stressed"@
        } else if self.melatonin > 700_000 {
            "drowsy"@
        } else if self.curiosity > 700_000 {
            "curious and engaged"@
        } else if self.patience < 300_000 {
            "impatient"@
        } else {
            "balanced"@
        }
    }

    /// The text that `format_for_prompt` gives.
    pub open spec fn prompt_text(self) -> Seq<char> {
        "[HORMONE STATE]\n"@ + channel_line(
            "dopamine"@,
            self.dopamine as nat,
            "reward, engagement"@,
        ) + channel_line("serotonin"@, self.serotonin as nat, "well-being, contentment"@)
            + channel_line("oxytocin"@, self.oxytocin as nat, "bonding, trust"@) + channel_line(
            "cortisol"@,
            self.cortisol as nat,
            "stress, urgency"@,
        ) + channel_line("melatonin"@, self.melatonin as nat, "rest, reduced activity"@)
            + channel_line("novelty"@, self.novelty as nat, "exposure to new stimuli"@)
            + channel_line("curiosity"@, self.curiosity as nat, "drive to explore"@)
            + channel_line("patience"@, self.patience as nat, "tolerance for delays"@)
            + "[/HORMONE STATE]"@
    }

    /// The state of a conversation that is seen for the first time at `now`.
    pub fn new(now: i64) -> (s: HormoneState)
        ensures
            s == HormoneState::initial(now),
            s.in_range(),
    {
        HormoneState {
            dopamine: 500_000,
            serotonin: 500_000,
            oxytocin: 500_000,
            cortisol: 300_000,
            melatonin: 200_000,
            novelty: 500_000,
            curiosity: 600_000,
            patience: 700_000,
            last_updated: now,
        }
    }

    /// The value of one channel.
    pub fn get(&self, h: Hormone) -> (v: u32)
        ensures
            v == self.level(h),
    {
        match h {
            Hormone::Dopamine => self.dopamine,
            Hormone::Serotonin => self.serotonin,
            Hormone::Oxytocin => self.oxytocin,
            Hormone::Cortisol => self.cortisol,
            Hormone::Melatonin => self.melatonin,
            Hormone::Novelty => self.novelty,
            Hormone::Curiosity => self.curiosity,
            Hormone::Patience => self.patience,
        }
    }

    /// Moves every channel towards its baseline by the exponential decay of
    /// the time that has passed since the last update, and sets the time of
    /// the last update to `now`. Does nothing unless `now` is later.
    pub fn decay(&mut self, now: i64, rate: u32)
        ensures
            *final(self) == old(self).decayed(now as int, rate as nat),
    {
        if now <= self.last_updated {
            return ;
        }
        let elapsed: u64 = (now as i128 - self.last_updated as i128) as u64;
        let f = decay_factor_for(elapsed, rate);
        self.dopamine = mix_channel(self.dopamine, 500_000, f);
        self.serotonin = mix_channel(self.serotonin, 500_000, f);
        self.oxytocin = mix_channel(self.oxytocin, 400_000, f);
        self.cortisol = mix_channel(self.cortisol, 300_000, f);
        self.melatonin = mix_channel(self.melatonin, 200_000, f);
        self.novelty = mix_channel(self.novelty, 400_000, f);
        self.curiosity = mix_channel(self.curiosity, 600_000, f);
        self.patience = mix_channel(self.patience, 700_000, f);
        self.last_updated = now;
    }

    /// Moves one channel by `amount` and holds it to the unit interval.
    pub fn adjust(&mut self, hormone: Hormone, amount: i32)
        ensures
            *final(self) == old(self).adjusted(hormone, amount as int),
            final(self).level(hormone) <= SCALE,
    {
        let moved: i64 = self.get(hormone) as i64 + amount as i64;
        let value: u32 = if moved < 0 {
            0
        } else if moved > SCALE as i64 {
            SCALE
        } else {
            moved as u32
        };
        match hormone {
            Hormone::Dopamine => {
                self.dopamine = value;
            },
            Hormone::Serotonin => {
                self.serotonin = value;
            },
            Hormone::Oxytocin => {
                self.oxytocin = value;
            },
            Hormone::Cortisol => {
                self.cortisol = value;
            },
            Hormone::Melatonin => {
                self.melatonin = value;
            },
            Hormone::Novelty => {
                self.novelty = value;
            },
            Hormone::Curiosity => {
                self.curiosity = value;
            },
            Hormone::Patience => {
                self.patience = value;
            },
        }
    }

    /// Decays the state to `now`, applies the adjustments of the sentiment
    /// and, for a novel interaction, those of novelty, and sets the time of
    /// the last update to `now`.
    pub fn update_from_interaction(
        &mut self,
        sentiment: Sentiment,
        is_novel: bool,
        now: i64,
        rate: u32,
    )
        ensures
            *final(self) == old(self).after_interaction(
                sentiment,
                is_novel,
                now as int,
                rate as nat,
            ),
            old(self).in_range() ==> final(self).in_range(),
    {
        self.decay(now, rate);
        match sentiment {
            Sentiment::Positive => {
                self.adjust(Hormone::Dopamine, 100_000);
                self.adjust(Hormone::Serotonin, 150_000);
                self.adjust(Hormone::Oxytocin, 100_000);
                self.adjust(Hormone::Cortisol, -100_000);
            },
            Sentiment::Negative => {
                self.adjust(Hormone::Cortisol, 200_000);
                self.adjust(Hormone::Serotonin, -100_000);
                self.adjust(Hormone::Patience, -50_000);
            },
            Sentiment::Question => {
                self.adjust(Hormone::Curiosity, 100_000);
                self.adjust(Hormone::Dopamine, 50_000);
            },
            Sentiment::Neutral => {},
        }
        if is_novel {
            self.adjust(Hormone::Novelty, 200_000);
            self.adjust(Hormone::Dopamine, 100_000);
            self.adjust(Hormone::Curiosity, 150_000);
        }
        self.last_updated = now;
        proof {
            if old(self).in_range() {
                lemma_interaction_keeps_range(
                    *old(self),
                    sentiment,
                    is_novel,
                    now as int,
                    rate as nat,
                );
            }
        }
    }

    /// The state as a block of text for the model's context: one line per
    /// channel, each value with two decimal places.
    pub fn format_for_prompt(&self) -> (r: String)
        ensures
            r@ == self.prompt_text(),
    {
        let mut out = String::from_str("[HORMONE STATE]\n");
        push_channel_line(&mut out, "dopamine", self.dopamine, "reward, engagement");
        push_channel_line(&mut out, "serotonin", self.serotonin, "well-being, contentment");
        push_channel_line(&mut out, "oxytocin", self.oxytocin, "bonding, trust");
        push_channel_line(&mut out, "cortisol", self.cortisol, "stress, urgency");
        push_channel_line(&mut out, "melatonin", self.melatonin, "rest, reduced activity");
        push_channel_line(&mut out, "novelty", self.novelty, "exposure to new stimuli");
        push_channel_line(&mut out, "curiosity", self.curiosity, "drive to explore");
        push_channel_line(&mut out, "patience", self.patience, "tolerance for delays");
        out.append("[/HORMONE STATE]");
        out
    }

    /// A coarse label for the state.
    pub fn get_emotional_state(&self) -> (r: String)
        ensures
            r@ == self.emotional_state(),
    {
        if self.dopamine > 700_000 && self.serotonin > 600_000 {
            String::from_str("energized and content")
        } else if self.cortisol > 700_000 {
            String::from_str("stressed")
        } else if self.melatonin > 700_000 {
            String::from_str("drowsy")
        } else if self.curiosity > 700_000 {
            String::from_str("curious and engaged")
        } else if self.patience < 300_000 {
            String::from_str("impatient")
        } else {
            String::from_str("balanced")
        }
    }
}

/// The decay factor for `elapsed` seconds at the given rate per hour.
pub fn decay_factor_for(elapsed: u64, rate: u32) -> (f: u64)
    ensures
        f == decay_factor((elapsed * rate) as nat),
        f <= FACTOR_SCALE,
{
    assert(elapsed * rate <= 0xffff_ffff_ffff_ffff * 0xffff_ffff) by (nonlinear_arith)
        requires
            elapsed <= 0xffff_ffff_ffff_ffff,
            rate <= 0xffff_ffff,
    ;
    let x: u128 = elapsed as u128 * rate as u128;
    if x >= DECAY_HORIZON {
        return 0;
    }
    let mut acc: u64 = FACTOR_SCALE;
    let mut rem: u128 = x;
    let mut i: usize = 0;
    while i < DECAY_STEPS
        invariant
            i <= DECAY_STEPS,
            acc <= FACTOR_SCALE,
            decay_factor_from(rem as nat, i as nat, acc as nat) == decay_factor_from(
                x as nat,
                0,
                FACTOR_SCALE as nat,
            ),
        decreases DECAY_STEPS - i,
    {
        if rem % 2 == 1 {
            let step: u64 = DECAY_TABLE[i];
            proof {
                lemma_table_bounded(i as int);
                assert(acc * step <= FACTOR_SCALE * FACTOR_SCALE) by (nonlinear_arith)
                    requires
                        acc <= FACTOR_SCALE,
                        step <= FACTOR_SCALE,
                ;
                lemma_div_is_ordered(
                    acc * step,
                    FACTOR_SCALE * FACTOR_SCALE,
                    FACTOR_SCALE as int,
                );
                lemma_div_multiples_vanish(FACTOR_SCALE as int, FACTOR_SCALE as int);
            }
            acc = acc * step / FACTOR_SCALE;
        }
        rem = rem / 2;
        i += 1;
    }
    acc
}

/// Every entry of the decay table is a factor of at most 1.0.
pub proof fn lemma_table_bounded(i: int)
    requires
        0 <= i < DECAY_STEPS,
    ensures
        DECAY_TABLE[i] <= FACTOR_SCALE,
{
}

/// One channel mixed with its baseline.
fn mix_channel(value: u32, base: u32, factor: u64) -> (r: u32)
    requires
        factor <= FACTOR_SCALE,
    ensures
        r == mix(value as nat, base as nat, factor as nat),
{
    proof {
        lemma_mix_between(value as nat, base as nat, factor as nat);
        assert(value * factor <= 0xffff_ffff * 1_000_000_000) by (nonlinear_arith)
            requires
                value <= 0xffff_ffff,
                factor <= 1_000_000_000,
        ;
        assert(base * (FACTOR_SCALE - factor) <= 0xffff_ffff * 1_000_000_000)
            by (nonlinear_arith)
            requires
                base <= 0xffff_ffff,
                0 <= FACTOR_SCALE - factor <= 1_000_000_000,
        ;
    }
    let total: u64 = value as u64 * factor + base as u64 * (FACTOR_SCALE - factor) + FACTOR_SCALE
        / 2;
    (total / FACTOR_SCALE) as u32
}

/// Appends a value with two decimal places.
fn push_two_decimals(out: &mut String, value: u32)
    ensures
        final(out)@ == old(out)@ + two_decimals(value as nat),
{
    let h: u64 = (value as u64 + 5_000) / 10_000;
    push_decimal(out, h / 100);
    out.push('.');
    out.push((48u8 + ((h / 10) % 10) as u8) as char);
    out.push((48u8 + (h % 10) as u8) as char);
    proof {
        let hn = h as nat;
        let tail = seq!['.', digit_char((hn / 10) % 10), digit_char(hn % 10)];
        assert(out@ == old(out)@ + (decimal(hn / 100) + tail));
    }
}

/// Appends one line of the rendered state.
fn push_channel_line(out: &mut String, label: &str, value: u32, note: &str)
    ensures
        final(out)@ == old(out)@ + channel_line(label@, value as nat, note@),
{
    out.append(label);
    out.append(": ");
    push_two_decimals(out, value);
    out.append(" (");
    out.append(note);
    out.append(")\n");
    proof {
        assert(out@ == old(out)@ + channel_line(label@, value as nat, note@));
    }
}

/// A mixed value lies between the value and the baseline, whatever the
/// factor: it moves towards the baseline and never past it.
pub proof fn lemma_mix_between(value: nat, base: nat, factor: nat)
    requires
        factor <= FACTOR_SCALE,
    ensures
        value >= base ==> base <= mix(value, base, factor) <= value,
        value <= base ==> value <= mix(value, base, factor) <= base,
{
    let f = FACTOR_SCALE as nat;
    let g = (f - factor) as nat;
    let n = value * factor + base * g;
    let half = f / 2;
    assert(value >= base ==> base * f <= n <= value * f) by (nonlinear_arith)
        requires
            n == value * factor + base * g,
            g + factor == f,
    ;
    assert(value <= base ==> value * f <= n <= base * f) by (nonlinear_arith)
        requires
            n == value * factor + base * g,
            g + factor == f,
    ;
    if value >= base {
        lemma_div_is_ordered(base * f as int, (n + half) as int, f as int);
        lemma_div_is_ordered((n + half) as int, (value * f + half) as int, f as int);
    }
    if value <= base {
        lemma_div_is_ordered(value * f as int, (n + half) as int, f as int);
        lemma_div_is_ordered((n + half) as int, (base * f + half) as int, f as int);
    }
    lemma_div_multiples_vanish(base as int, f as int);
    lemma_div_multiples_vanish(value as int, f as int);
    lemma_div_multiples_vanish_fancy(base as int, half as int, f as int);
    lemma_div_multiples_vanish_fancy(value as int, half as int, f as int);
    assert(f * base == base * f) by (nonlinear_arith);
    assert(f * value == value * f) by (nonlinear_arith);
}

/// The decay factor is at most 1.0, and exactly 1.0 when no time has passed.
pub proof fn lemma_decay_factor_bounded(x: nat)
    ensures
        decay_factor(x) <= FACTOR_SCALE,
        decay_factor(0) == FACTOR_SCALE,
{
    lemma_decay_factor_from_bounded(x, 0, FACTOR_SCALE as nat);
    lemma_decay_factor_from_zero(0, FACTOR_SCALE as nat);
}

proof fn lemma_decay_factor_from_bounded(rem: nat, i: nat, acc: nat)
    requires
        acc <= FACTOR_SCALE,
    ensures
        decay_factor_from(rem, i, acc) <= FACTOR_SCALE,
    decreases DECAY_STEPS - i,
{
    if i < DECAY_STEPS {
        let step = DECAY_TABLE[i as int] as nat;
        lemma_table_bounded(i as int);
        assert(acc * step <= FACTOR_SCALE * FACTOR_SCALE) by (nonlinear_arith)
            requires
                acc <= FACTOR_SCALE,
                step <= FACTOR_SCALE,
        ;
        lemma_div_is_ordered(
            (acc * step) as int,
            FACTOR_SCALE * FACTOR_SCALE,
            FACTOR_SCALE as int,
        );
        lemma_div_multiples_vanish(FACTOR_SCALE as int, FACTOR_SCALE as int);
        let next = if rem % 2 == 1 {
            acc * step / (FACTOR_SCALE as nat)
        } else {
            acc
        };
        lemma_decay_factor_from_bounded(rem / 2, i + 1, next);
    }
}

proof fn lemma_decay_factor_from_zero(i: nat, acc: nat)
    ensures
        decay_factor_from(0, i, acc) == acc,
    decreases DECAY_STEPS - i,
{
    if i < DECAY_STEPS {
        lemma_decay_factor_from_zero(i + 1, acc);
    }
}

/// A decay moves every channel towards its baseline and never past it.
pub proof fn lemma_decay_towards_baseline(s: HormoneState, now: int, rate: nat, h: Hormone)
    ensures
        s.level(h) >= baseline(h) ==> baseline(h) <= s.decayed(now, rate).level(h) <= s.level(h),
        s.level(h) <= baseline(h) ==> s.level(h) <= s.decayed(now, rate).level(h) <= baseline(h),
{
    if now > s.last_updated {
        let f = decay_factor(((now - s.last_updated) * rate) as nat);
        lemma_decay_factor_bounded(((now - s.last_updated) * rate) as nat);
        lemma_mix_between(s.level(h), baseline(h), f);
    }
}

/// A decay keeps every channel in the unit interval.
pub proof fn lemma_decay_keeps_range(s: HormoneState, now: int, rate: nat)
    requires
        s.in_range(),
    ensures
        s.decayed(now, rate).in_range(),
{
    let d = s.decayed(now, rate);
    assert forall|h: Hormone| #[trigger] d.level(h) <= SCALE by {
        lemma_decay_towards_baseline(s, now, rate, h);
        assert(s.level(h) <= SCALE);
    }
}

/// An adjustment keeps every channel in the unit interval.
pub proof fn lemma_adjust_keeps_range(s: HormoneState, h: Hormone, amount: int)
    requires
        s.in_range(),
    ensures
        s.adjusted(h, amount).in_range(),
{
    let a = s.adjusted(h, amount);
    assert forall|k: Hormone| #[trigger] a.level(k) <= SCALE by {
        assert(s.level(k) <= SCALE);
    }
}

/// An interaction keeps every channel in the unit interval.
pub proof fn lemma_interaction_keeps_range(
    s: HormoneState,
    sentiment: Sentiment,
    is_novel: bool,
    now: int,
    rate: nat,
)
    requires
        s.in_range(),
    ensures
        s.after_interaction(sentiment, is_novel, now, rate).in_range(),
{
    let d = s.decayed(now, rate);
    lemma_decay_keeps_range(s, now, rate);
    let m = d.moved_by(sentiment);
    match sentiment {
        Sentiment::Positive => {
            let a = d.adjusted(Hormone::Dopamine, 100_000);
            let b = a.adjusted(Hormone::Serotonin, 150_000);
            let c = b.adjusted(Hormone::Oxytocin, 100_000);
            lemma_adjust_keeps_range(d, Hormone::Dopamine, 100_000);
            lemma_adjust_keeps_range(a, Hormone::Serotonin, 150_000);
            lemma_adjust_keeps_range(b, Hormone::Oxytocin, 100_000);
            lemma_adjust_keeps_range(c, Hormone::Cortisol, -100_000);
        },
        Sentiment::Negative => {
            let a = d.adjusted(Hormone::Cortisol, 200_000);
            let b = a.adjusted(Hormone::Serotonin, -100_000);
            lemma_adjust_keeps_range(d, Hormone::Cortisol, 200_000);
            lemma_adjust_keeps_range(a, Hormone::Serotonin, -100_000);
            lemma_adjust_keeps_range(b, Hormone::Patience, -50_000);
        },
        Sentiment::Question => {
            let a = d.adjusted(Hormone::Curiosity, 100_000);
            lemma_adjust_keeps_range(d, Hormone::Curiosity, 100_000);
            lemma_adjust_keeps_range(a, Hormone::Dopamine, 50_000);
        },
        Sentiment::Neutral => {},
    }
    assert(m.in_range());
    let n = m.stirred(is_novel);
    if is_novel {
        let a = m.adjusted(Hormone::Novelty, 200_000);
        let b = a.adjusted(Hormone::Dopamine, 100_000);
        lemma_adjust_keeps_range(m, Hormone::Novelty, 200_000);
        lemma_adjust_keeps_range(a, Hormone::Dopamine, 100_000);
        lemma_adjust_keeps_range(b, Hormone::Curiosity, 150_000);
    }
    assert(n.in_range());
    let r = s.after_interaction(sentiment, is_novel, now, rate);
    assert forall|h: Hormone| #[trigger] r.level(h) <= SCALE by {
        assert(n.level(h) <= SCALE);
    }
}

/// Decaying twice to the same time changes nothing the second time,
/// whatever the rates.
pub proof fn lemma_decay_idempotent(s: HormoneState, now: i64, rate: nat, again: nat)
    ensures
        s.decayed(now as int, rate).decayed(now as int, again) == s.decayed(now as int, rate),
{
}

/// Decaying with no time passed changes nothing.
pub proof fn lemma_decay_no_elapsed(s: HormoneState, rate: nat)
    ensures
        s.decayed(s.last_updated as int, rate) == s,
{
}

/// At the rate zero a decay changes nothing but the time of the last
/// update.
pub proof fn lemma_no_decay_at_rate_zero(s: HormoneState, now: i64)
    requires
        now > s.last_updated,
    ensures
        s.decayed(now as int, 0) == (HormoneState { last_updated: now, ..s }),
{
    lemma_decay_factor_bounded(0);
    assert(((now - s.last_updated) * 0) as nat == 0) by (nonlinear_arith);
    let f = FACTOR_SCALE as nat;
    assert forall|v: nat, b: nat| v <= u32::MAX ==> #[trigger] mix(v, b, f) == v by {
        if v <= u32::MAX {
            assert(b * ((f - f) as nat) == 0) by (nonlinear_arith);
            assert(v * f == f * v) by (nonlinear_arith);
            lemma_div_multiples_vanish_fancy(v as int, (f / 2) as int, f as int);
        }
    }
}

/// Along any sequence of decays, every channel moves monotonically towards
/// its baseline and never past it: of two points of the sequence, the later
/// one lies between the earlier one and the baseline.
pub proof fn lemma_decay_converges(
    s: HormoneState,
    times: Seq<i64>,
    rate: nat,
    h: Hormone,
    i: int,
    j: int,
)
    requires
        0 <= i <= j <= times.len(),
    ensures
        ({
            let early = decayed_through(s, times.take(i), rate).level(h);
            let late = decayed_through(s, times.take(j), rate).level(h);
            &&& early >= baseline(h) ==> baseline(h) <= late <= early
            &&& early <= baseline(h) ==> early <= late <= baseline(h)
        }),
    decreases j - i,
{
    if i < j {
        lemma_decay_converges(s, times, rate, h, i, j - 1);
        let before = decayed_through(s, times.take(j - 1), rate);
        assert(times.take(j).drop_last() == times.take(j - 1));
        assert(times.take(j).last() == times[j - 1]);
        lemma_decay_towards_baseline(before, times[j - 1] as int, rate, h);
    }
}

/// After any sequence of interactions that starts from a state in the unit
/// interval, every channel lies in the unit interval.
pub proof fn lemma_interactions_keep_range(s: HormoneState, events: Seq<Interaction>)
    requires
        s.in_range(),
    ensures
        after_interactions(s, events).in_range(),
    decreases events.len(),
{
    if events.len() > 0 {
        let e = events.last();
        lemma_interactions_keep_range(s, events.drop_last());
        lemma_interaction_keeps_range(
            after_interactions(s, events.drop_last()),
            e.sentiment,
            e.is_novel,
            e.now as int,
            e.rate as nat,
        );
    }
}

} // verus!
