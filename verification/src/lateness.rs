//! Contrived lateness scenarios: when each point of a periodic channel is stamped and delivered.
//!
//! Every scenario is a periodic source. On tick `n` it says how far the point's timestamp lies
//! after the tick and how long after the tick the point is handed over. All times are whole
//! nanoseconds, so that ticks and timestamps sit exactly on multiples of the period.
use crate::double::{
    double_rounded, double_spacing, lemma_round_even_between, round_as_double, round_even,
    round_even_to,
};
use crate::text::{decimal, padded_right, push_decimal, push_padded_right, same_text};
use vstd::prelude::*;
use vstd::string::*;

verus! {

/// Nanoseconds in a millisecond.
pub const MILLISECOND: u64 = 1_000_000;

/// Nanoseconds in a second.
pub const SECOND: u64 = 1_000_000_000;

/// The seed of every run, so that the chaos scenario repeats.
pub const SEED: u64 = 0x9E37_79B9_7F4A_7C15;

/// Samples of one wave of the five second sine at five points a second.
pub const SAMPLES_PER_WAVE: u64 = 25;

/// The first sample after the peak of the wave, where the falling quarter begins.
pub const QUARTER_FIRST: u64 = 7;

/// The first sample past the zero crossing, which releases the falling quarter.
pub const QUARTER_RELEASE: u64 = 13;

/// A draw below this many steps of 2^-53 is below the double nearest to 0.95.
pub const USUAL_DELAY_STEPS: u64 = 8_556_839_292_003_942;

/// Steps of 2^-53 in one.
pub const UNIT_STEPS: u64 = 0x20_0000_0000_0000;

/// What a tick contributes: one point.
#[derive(Clone, Copy, PartialEq, Eq, Structural, Debug)]
pub struct Ev {
    /// Nanoseconds after the tick at which the point is delivered.
    pub deliver_after: u64,
    /// Nanoseconds added to the tick's wall time to form the timestamp.
    pub ts_offset: u64,
}

impl Ev {
    /// A point stamped with its tick and delivered at once.
    pub fn on_time() -> (ev: Ev)
        ensures
            ev.deliver_after == 0,
            ev.ts_offset == 0,
    {
        Ev { deliver_after: 0, ts_offset: 0 }
    }

    /// A point stamped with its tick and delivered later.
    pub fn late(deliver_after: u64) -> (ev: Ev)
        ensures
            ev.deliver_after == deliver_after,
            ev.ts_offset == 0,
    {
        Ev { deliver_after, ts_offset: 0 }
    }
}

/// Small deterministic xorshift generator.
#[derive(Clone, Copy, PartialEq, Eq, Structural, Debug)]
pub struct Rng(pub u64);

/// The generator's next state.
pub open spec fn xorshift(x: u64) -> u64 {
    let a = x ^ (x << 13u64);
    let b = a ^ (a >> 7u64);
    b ^ (b << 17u64)
}

/// The draw in a state: the number of 2^-53 steps, out of [0, 1).
pub open spec fn draw(state: u64) -> u64 {
    state >> 11u64
}

impl Rng {
    /// Advances the generator and draws a number of 2^-53 steps, out of [0, 1).
    pub fn next_steps(&mut self) -> (steps: u64)
        ensures
            final(self).0 == xorshift(old(self).0),
            steps == draw(final(self).0),
            steps < UNIT_STEPS,
    {
        let mut x: u64 = self.0;
        x = x ^ (x << 13u64);
        x = x ^ (x >> 7u64);
        x = x ^ (x << 17u64);
        self.0 = x;
        assert(x >> 11u64 < 0x20_0000_0000_0000u64) by (bit_vector);
        x >> 11u64
    }
}

/// A generator that is not in the zero state never enters it, so it never gets stuck.
pub proof fn xorshift_stays_nonzero(x: u64)
    requires
        x != 0,
    ensures
        xorshift(x) != 0,
{
    let a = x ^ (x << 13u64);
    let b = a ^ (a >> 7u64);
    assert(x != 0 ==> x ^ (x << 13u64) != 0) by (bit_vector);
    assert(a != 0 ==> a ^ (a >> 7u64) != 0) by (bit_vector);
    assert(b != 0 ==> b ^ (b << 17u64) != 0) by (bit_vector);
}

/// The chaotic delay in 2^-53 seconds, in double arithmetic: ten times the first draw, or, for one
/// second draw in twenty, ten plus five times the first draw.
pub open spec fn chaos_steps(first: nat, second: nat) -> nat {
    if second < USUAL_DELAY_STEPS {
        double_rounded(10 * first)
    } else {
        double_rounded(10 * UNIT_STEPS as nat + double_rounded(5 * first))
    }
}

/// The chaotic delay in nanoseconds.
pub open spec fn chaos_delay(first: nat, second: nat) -> nat {
    round_even(chaos_steps(first, second) * SECOND as nat, UNIT_STEPS as nat)
}

/// The chaotic delay is at most ten seconds in the usual case and between ten and fifteen
/// otherwise.
pub proof fn chaos_delay_bounds(first: nat, second: nat)
    requires
        first < UNIT_STEPS,
    ensures
        second < USUAL_DELAY_STEPS ==> chaos_delay(first, second) <= 10 * SECOND,
        second >= USUAL_DELAY_STEPS ==> 10 * SECOND <= chaos_delay(first, second) <= 15 * SECOND,
{
    let u = UNIT_STEPS as nat;
    if second < USUAL_DELAY_STEPS {
        lemma_steps_between(10 * first, 0, 10 * u);
        lemma_round_even_between(double_rounded(10 * first) * SECOND as nat, u, 0, 10 * SECOND as nat);
    } else {
        lemma_steps_between(5 * first, 0, 5 * u);
        let sum = 10 * u + double_rounded(5 * first);
        lemma_steps_between(sum, 10 * u, 15 * u);
        lemma_round_even_between(
            double_rounded(sum) * SECOND as nat,
            u,
            10 * SECOND as nat,
            15 * SECOND as nat,
        );
    }
}

/// In double arithmetic the chaotic delay stays below ten seconds in the usual case, and below
/// fifteen otherwise but for the two largest draws, which round up to it. In whole nanoseconds it is
/// fifteen seconds exactly if less than half a nanosecond is missing, or half of one.
pub proof fn chaos_stays_below_its_bounds(first: nat, second: nat)
    requires
        first < UNIT_STEPS,
    ensures
        second < USUAL_DELAY_STEPS ==> chaos_steps(first, second) < 10 * UNIT_STEPS,
        first + 2 < UNIT_STEPS ==> chaos_steps(first, second) < 15 * UNIT_STEPS,
        chaos_delay(first, second) < 15 * SECOND <==> 2 * (chaos_steps(first, second) * SECOND) < (30
            * SECOND - 1) * UNIT_STEPS,
        first + 1_000_000 <= UNIT_STEPS ==> chaos_delay(first, second) < 15 * SECOND,
{
    let u = UNIT_STEPS as nat;
    lemma_steps_close(10 * first);
    lemma_steps_close(5 * first);
    lemma_steps_between(5 * first, 0, 5 * u);
    lemma_steps_close(10 * u + double_rounded(5 * first));
    let a = chaos_steps(first, second) * SECOND as nat;
    vstd::arithmetic::div_mod::lemma_fundamental_div_mod(a as int, u as int);
}

proof fn lemma_small_spacing(a: nat)
    requires
        a < 0x200_0000_0000_0000,
    ensures
        ({
            let spacing = double_spacing(a);
            spacing == 1 || spacing == 2 || spacing == 4 || spacing == 8 || spacing == 16
        }),
        a < 0x100_0000_0000_0000 ==> double_spacing(a) <= 8,
{
    reveal_with_fuel(double_spacing, 6);
}

/// A multiple of sixteen is one of every smaller spacing.
proof fn lemma_sixteens(n: nat, spacing: nat)
    requires
        n % 16 == 0,
        spacing == 1 || spacing == 2 || spacing == 4 || spacing == 8 || spacing == 16,
    ensures
        (n / spacing) * spacing == n,
{
    if spacing == 1 {
        assert(n / 1 == n);
    }
}

/// Rounding to a double moves so small a number of steps by at most eight.
proof fn lemma_steps_close(a: nat)
    requires
        a < 0x200_0000_0000_0000,
    ensures
        double_rounded(a) <= a + 8,
        a < 0x100_0000_0000_0000 ==> double_rounded(a) <= a + 4,
{
    lemma_small_spacing(a);
    let spacing = double_spacing(a);
    vstd::arithmetic::div_mod::lemma_fundamental_div_mod(a as int, spacing as int);
    let q = a / spacing;
    assert((q + 1) * spacing == q * spacing + spacing) by (nonlinear_arith);
    assert(q * spacing == spacing * q) by (nonlinear_arith);
}

proof fn lemma_steps_between(a: nat, lo: nat, hi: nat)
    requires
        lo <= a <= hi,
        hi < 0x200_0000_0000_0000,
        lo % 16 == 0,
        hi % 16 == 0,
    ensures
        lo <= double_rounded(a) <= hi,
{
    lemma_small_spacing(a);
    let spacing = double_spacing(a);
    let low = lo / spacing;
    let high = hi / spacing;
    lemma_sixteens(lo, spacing);
    lemma_sixteens(hi, spacing);
    lemma_round_even_between(a, spacing, low, high);
    let rounded = round_even(a, spacing);
    assert(low * spacing <= rounded * spacing <= high * spacing) by (nonlinear_arith)
        requires
            low <= rounded <= high,
    ;
}

/// The chaotic delay in nanoseconds, from two draws.
pub fn chaos_delay_nanos(first: u64, second: u64) -> (nanos: u64)
    requires
        first < UNIT_STEPS,
    ensures
        nanos == chaos_delay(first as nat, second as nat),
        nanos <= 15 * SECOND,
{
    let steps: u128 = if second < USUAL_DELAY_STEPS {
        round_as_double(10 * (first as u128))
    } else {
        round_as_double(10 * (UNIT_STEPS as u128) + round_as_double(5 * (first as u128)))
    };
    let nanos: u128 = round_even_to(steps * 1_000_000_000, UNIT_STEPS as u128);
    proof {
        chaos_delay_bounds(first as nat, second as nat);
    }
    nanos as u64
}

/// The channels, one per scenario.
#[derive(Clone, Copy, PartialEq, Eq, Structural, Debug)]
pub enum Scenario {
    Sine5Hz,
    Sine50Hz,
    ConstantDelay,
    SkewForward,
    TailSwap,
    ChaosSine,
    FutureStamps,
    PairSwap,
}

/// A scenario's channel name.
pub open spec fn name_of(scenario: Scenario) -> Seq<char> {
    match scenario {
        Scenario::Sine5Hz => "sine-5hz"@,
        Scenario::Sine50Hz => "sine-50hz"@,
        Scenario::ConstantDelay => "constant-delay"@,
        Scenario::SkewForward => "skew-forward"@,
        Scenario::TailSwap => "tail-swap"@,
        Scenario::ChaosSine => "chaos-sine"@,
        Scenario::FutureStamps => "future-stamps"@,
        Scenario::PairSwap => "pair-swap"@,
    }
}

/// A scenario's one-line description.
pub open spec fn summary_of(scenario: Scenario) -> Seq<char> {
    match scenario {
        Scenario::Sine5Hz => "perfect sine, every point on time"@,
        Scenario::Sine50Hz => "perfect sine, every point on time"@,
        Scenario::ConstantDelay => "every point delivered 6 s after its timestamp"@,
        Scenario::SkewForward => "every point stamped 2 s in the future, delivered on time"@,
        Scenario::TailSwap => "the whole 1 -> 0 quarter of each wave is held and delivered 50 ms after the first point past the zero crossing"@,
        Scenario::ChaosSine => "delivery delay random: 95% uniform 0-10 s, 5% uniform 10-15 s"@,
        Scenario::FutureStamps => "every 4th point stamped 3 s in the future, delivered on time"@,
        Scenario::PairSwap => "pairs (t, t+0.2); the t+0.2 point is delivered 50 ms after the t+0.4 point"@,
    }
}

/// Nanoseconds between two ticks of a scenario.
pub open spec fn period_of(scenario: Scenario) -> nat {
    match scenario {
        Scenario::Sine50Hz | Scenario::ChaosSine => 20_000_000,
        _ => 200_000_000,
    }
}

/// All scenarios in listing order.
pub open spec fn scenario_order() -> Seq<Scenario> {
    seq![
        Scenario::Sine5Hz,
        Scenario::Sine50Hz,
        Scenario::ConstantDelay,
        Scenario::SkewForward,
        Scenario::TailSwap,
        Scenario::ChaosSine,
        Scenario::FutureStamps,
        Scenario::PairSwap,
    ]
}

/// The scenario with a given name.
pub open spec fn scenario_named(name: Seq<char>) -> Option<Scenario> {
    if name == "sine-5hz"@ {
        Some(Scenario::Sine5Hz)
    } else if name == "sine-50hz"@ {
        Some(Scenario::Sine50Hz)
    } else if name == "constant-delay"@ {
        Some(Scenario::ConstantDelay)
    } else if name == "skew-forward"@ {
        Some(Scenario::SkewForward)
    } else if name == "tail-swap"@ {
        Some(Scenario::TailSwap)
    } else if name == "chaos-sine"@ {
        Some(Scenario::ChaosSine)
    } else if name == "future-stamps"@ {
        Some(Scenario::FutureStamps)
    } else if name == "pair-swap"@ {
        Some(Scenario::PairSwap)
    } else {
        None
    }
}

/// Every scenario is found by its own name, so no two share one.
pub proof fn names_find_their_scenario(scenario: Scenario)
    ensures
        scenario_named(name_of(scenario)) == Some(scenario),
{
    reveal_strlit("sine-5hz");
    reveal_strlit("sine-50hz");
    reveal_strlit("constant-delay");
    reveal_strlit("skew-forward");
    reveal_strlit("tail-swap");
    reveal_strlit("chaos-sine");
    reveal_strlit("future-stamps");
    reveal_strlit("pair-swap");
    let name = name_of(scenario);
    assert(name.len() > 0);
    assert("sine-5hz"@[5] == '5' && "sine-5hz"@.len() == 8);
    assert("sine-50hz"@.len() == 9 && "sine-50hz"@[0] == 's');
    assert("constant-delay"@.len() == 14);
    assert("skew-forward"@.len() == 12);
    assert("tail-swap"@.len() == 9 && "tail-swap"@[0] == 't');
    assert("chaos-sine"@.len() == 10);
    assert("future-stamps"@.len() == 13);
    assert("pair-swap"@.len() == 9 && "pair-swap"@[0] == 'p');
}

/// The point of tick `n`, whose place on the grid of multiples of the period is `index`, and the
/// state that it leaves the generator in.
pub open spec fn event(scenario: Scenario, n: nat, index: nat, state: u64) -> (Ev, u64) {
    match scenario {
        Scenario::Sine5Hz | Scenario::Sine50Hz => (Ev { deliver_after: 0, ts_offset: 0 }, state),
        Scenario::ConstantDelay => (Ev { deliver_after: 6_000_000_000, ts_offset: 0 }, state),
        Scenario::SkewForward => (Ev { deliver_after: 0, ts_offset: 2_000_000_000 }, state),
        Scenario::TailSwap => {
            let k = index % SAMPLES_PER_WAVE as nat;
            if QUARTER_FIRST <= k < QUARTER_RELEASE {
                (
                    Ev {
                        deliver_after: ((QUARTER_RELEASE - k) * 200_000_000 + 50_000_000) as u64,
                        ts_offset: 0,
                    },
                    state,
                )
            } else {
                (Ev { deliver_after: 0, ts_offset: 0 }, state)
            }
        },
        Scenario::ChaosSine => {
            let one = xorshift(state);
            let two = xorshift(one);
            (
                Ev {
                    deliver_after: chaos_delay(draw(one) as nat, draw(two) as nat) as u64,
                    ts_offset: 0,
                },
                two,
            )
        },
        Scenario::FutureStamps => if n % 4 == 3 {
            (Ev { deliver_after: 0, ts_offset: 3_000_000_000 }, state)
        } else {
            (Ev { deliver_after: 0, ts_offset: 0 }, state)
        },
        Scenario::PairSwap => if n % 2 == 1 {
            (Ev { deliver_after: 250_000_000, ts_offset: 0 }, state)
        } else {
            (Ev { deliver_after: 0, ts_offset: 0 }, state)
        },
    }
}

impl Scenario {
    /// The channel name.
    pub fn name(&self) -> (text: &'static str)
        ensures
            text@ == name_of(*self),
    {
        match self {
            Scenario::Sine5Hz => "sine-5hz",
            Scenario::Sine50Hz => "sine-50hz",
            Scenario::ConstantDelay => "constant-delay",
            Scenario::SkewForward => "skew-forward",
            Scenario::TailSwap => "tail-swap",
            Scenario::ChaosSine => "chaos-sine",
            Scenario::FutureStamps => "future-stamps",
            Scenario::PairSwap => "pair-swap",
        }
    }

    /// The one-line description.
    pub fn summary(&self) -> (text: &'static str)
        ensures
            text@ == summary_of(*self),
    {
        match self {
            Scenario::Sine5Hz => "perfect sine, every point on time",
            Scenario::Sine50Hz => "perfect sine, every point on time",
            Scenario::ConstantDelay => "every point delivered 6 s after its timestamp",
            Scenario::SkewForward => "every point stamped 2 s in the future, delivered on time",
            Scenario::TailSwap => "the whole 1 -> 0 quarter of each wave is held and delivered 50 ms after the first point past the zero crossing",
            Scenario::ChaosSine => "delivery delay random: 95% uniform 0-10 s, 5% uniform 10-15 s",
            Scenario::FutureStamps => "every 4th point stamped 3 s in the future, delivered on time",
            Scenario::PairSwap => "pairs (t, t+0.2); the t+0.2 point is delivered 50 ms after the t+0.4 point",
        }
    }

    /// Nanoseconds between two ticks.
    pub fn period(&self) -> (nanos: u64)
        ensures
            nanos == period_of(*self),
    {
        match self {
            Scenario::Sine50Hz | Scenario::ChaosSine => 20_000_000,
            _ => 200_000_000,
        }
    }

    /// The point of tick `n`, whose place on the grid of multiples of the period is `index`.
    pub fn emit(&self, n: u64, index: u64, rng: &mut Rng) -> (ev: Ev)
        ensures
            (ev, final(rng).0) == event(*self, n as nat, index as nat, old(rng).0),
            ev.deliver_after <= 15 * SECOND,
            ev.ts_offset <= 3 * SECOND,
    {
        match self {
            Scenario::Sine5Hz | Scenario::Sine50Hz => Ev::on_time(),
            Scenario::ConstantDelay => Ev::late(6 * SECOND),
            Scenario::SkewForward => Ev { deliver_after: 0, ts_offset: 2 * SECOND },
            Scenario::TailSwap => {
                let k: u64 = index % SAMPLES_PER_WAVE;
                if k >= QUARTER_FIRST && k < QUARTER_RELEASE {
                    Ev::late((QUARTER_RELEASE - k) * 200_000_000 + 50_000_000)
                } else {
                    Ev::on_time()
                }
            },
            Scenario::ChaosSine => {
                let first: u64 = rng.next_steps();
                let second: u64 = rng.next_steps();
                Ev::late(chaos_delay_nanos(first, second))
            },
            Scenario::FutureStamps => if n % 4 == 3 {
                Ev { deliver_after: 0, ts_offset: 3 * SECOND }
            } else {
                Ev::on_time()
            },
            Scenario::PairSwap => if n % 2 == 1 {
                Ev::late(250 * MILLISECOND)
            } else {
                Ev::on_time()
            },
        }
    }

    /// The scenario with a given name.
    pub fn find(name: &str) -> (found: Option<Scenario>)
        ensures
            found == scenario_named(name@),
    {
        if same_text(name, "sine-5hz") {
            Some(Scenario::Sine5Hz)
        } else if same_text(name, "sine-50hz") {
            Some(Scenario::Sine50Hz)
        } else if same_text(name, "constant-delay") {
            Some(Scenario::ConstantDelay)
        } else if same_text(name, "skew-forward") {
            Some(Scenario::SkewForward)
        } else if same_text(name, "tail-swap") {
            Some(Scenario::TailSwap)
        } else if same_text(name, "chaos-sine") {
            Some(Scenario::ChaosSine)
        } else if same_text(name, "future-stamps") {
            Some(Scenario::FutureStamps)
        } else if same_text(name, "pair-swap") {
            Some(Scenario::PairSwap)
        } else {
            None
        }
    }

    /// The line that `--list` prints: name, ticks per second, description.
    pub fn list_line(&self) -> (line: String)
        ensures
            line@ == padded_right(name_of(*self), 18) + " "@ + decimal(
                (SECOND as nat / period_of(*self)),
            ) + " Hz  "@ + summary_of(*self),
    {
        let mut line = String::new();
        push_padded_right(&mut line, self.name(), 18);
        line.append(" ");
        push_decimal(&mut line, SECOND / self.period());
        line.append(" Hz  ");
        line.append(self.summary());
        assert(line@ =~= padded_right(name_of(*self), 18) + " "@ + decimal(
            (SECOND as nat / period_of(*self)),
        ) + " Hz  "@ + summary_of(*self));
        line
    }
}

/// All scenarios in listing order.
pub fn all_scenarios() -> (list: Vec<Scenario>)
    ensures
        list@ == scenario_order(),
{
    let list = vec![
        Scenario::Sine5Hz,
        Scenario::Sine50Hz,
        Scenario::ConstantDelay,
        Scenario::SkewForward,
        Scenario::TailSwap,
        Scenario::ChaosSine,
        Scenario::FutureStamps,
        Scenario::PairSwap,
    ];
    assert(list@ =~= scenario_order());
    list
}

/// Which scenarios the names on the command line ask for: all of them as soon as one name is
/// "all", else the named ones in the order given.
pub fn select(names: &Vec<String>) -> (selected: Result<Vec<Scenario>, String>)
    ensures
        match selected {
            Ok(list) => if exists|i: int| 0 <= i < names@.len() && names@[i]@ == "all"@ {
                list@ == scenario_order()
            } else {
                &&& list@.len() == names@.len()
                &&& forall|i: int|
                    0 <= i < names@.len() ==> scenario_named(names@[i]@) == Some(#[trigger] list@[i])
            },
            Err(unknown) => {
                &&& !exists|i: int| 0 <= i < names@.len() && names@[i]@ == "all"@
                &&& exists|i: int|
                    {
                        &&& 0 <= i < names@.len()
                        &&& #[trigger] names@[i]@ == unknown@
                        &&& scenario_named(unknown@) is None
                        &&& forall|j: int| 0 <= j < i ==> scenario_named(names@[j]@) is Some
                    }
            },
        },
{
    for i in 0..names.len()
        invariant
            forall|j: int| 0 <= j < i ==> names@[j]@ != "all"@,
    {
        if same_text(names[i].as_str(), "all") {
            return Ok(all_scenarios());
        }
    }
    let mut list: Vec<Scenario> = Vec::new();
    for i in 0..names.len()
        invariant
            forall|j: int| 0 <= j < names@.len() ==> names@[j]@ != "all"@,
            list@.len() == i,
            forall|j: int|
                0 <= j < i ==> scenario_named(names@[j]@) == Some(#[trigger] list@[j]),
    {
        match Scenario::find(names[i].as_str()) {
            Some(scenario) => list.push(scenario),
            None => {
                assert forall|j: int| 0 <= j < i implies scenario_named(names@[j]@) is Some by {
                    let found = list@[j];
                }
                return Err(names[i].clone());
            },
        }
    }
    Ok(list)
}

} // verus!
