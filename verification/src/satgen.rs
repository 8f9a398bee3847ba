//! Satellite generation: every parameter of a satellite follows from its name.
//!
//! Orbital parameters stay exact here: a parameter drawn from a range is kept as the range and the
//! number of 2^-53 steps that the name's hash takes through it.
use crate::binary::{
    adding_zero_changes_nothing, doubles_are_held, finite_doubles_are_limited, less, number_of,
    rounding_is_idempotent, share, shares_are_less_than_the_whole, size, sum, Binary, Number,
};
use crate::config::{OrbitWeights, Preset};
use crate::text::{
    decimal, decimal_holds_digits, decimal_is_injective, decimal_nonempty, push_zero_padded,
    zero_padded,
};
use vstd::prelude::*;
use vstd::string::*;
use vstd::utf8::encode_utf8;

verus! {

/// Steps of 2^-53 in one.
pub const UNIT_STEPS: u64 = 0x20_0000_0000_0000;

/// The epoch of every generated orbit, in seconds since 1970.
pub const EPOCH_UNIX: u64 = 1_700_000_000;

/// Start value of the 64-bit FNV-1a hash.
pub const FNV_BASIS: u64 = 0xcbf29ce484222325;

/// Multiplier of the 64-bit FNV-1a hash.
pub const FNV_PRIME: u64 = 0x100000001b3;

/// A category draw below this many 2^-53 steps is below 0.30.
pub const COMMUNICATIONS_END: u64 = 2_702_159_776_422_298;

/// A category draw below this many 2^-53 steps is below 0.55.
pub const EARTH_OBSERVATION_END: u64 = 4_953_959_590_107_546;

/// A category draw below this many 2^-53 steps is below 0.75.
pub const SCIENCE_END: u64 = 6_755_399_441_055_744;

/// A category draw below this many 2^-53 steps is below 0.90.
pub const WEATHER_END: u64 = 8_106_479_329_266_893;

/// What a satellite is for.
#[derive(Clone, Copy, PartialEq, Eq, Structural, Debug)]
pub enum SatelliteCategory {
    Communications,
    EarthObservation,
    Navigation,
    Weather,
    Science,
}

/// The category's identifier.
pub open spec fn category_name(category: SatelliteCategory) -> Seq<char> {
    match category {
        SatelliteCategory::Communications => "communications"@,
        SatelliteCategory::EarthObservation => "earth_observation"@,
        SatelliteCategory::Navigation => "navigation"@,
        SatelliteCategory::Weather => "weather"@,
        SatelliteCategory::Science => "science"@,
    }
}

impl SatelliteCategory {
    /// The category's identifier.
    pub fn as_str(&self) -> (text: &'static str)
        ensures
            text@ == category_name(*self),
    {
        match self {
            SatelliteCategory::Communications => "communications",
            SatelliteCategory::EarthObservation => "earth_observation",
            SatelliteCategory::Navigation => "navigation",
            SatelliteCategory::Weather => "weather",
            SatelliteCategory::Science => "science",
        }
    }
}

/// The orbital regions.
#[derive(Clone, Copy, PartialEq, Eq, Structural, Debug)]
pub enum Shell {
    Leo,
    Meo,
    Geo,
    Heo,
}

/// A parameter drawn from a range: `steps` of 2^-53 of the way from `lo` to `hi`, all in units of
/// one over `per`. A fixed parameter has equal ends.
#[derive(Clone, Copy, PartialEq, Eq, Structural, Debug)]
pub struct Quantity {
    pub lo: u64,
    pub hi: u64,
    pub per: u64,
    pub steps: u64,
}

/// The quantity in units of 2^-53 over `per`.
pub open spec fn scaled(q: Quantity) -> int {
    q.lo * UNIT_STEPS + (q.hi - q.lo) * q.steps
}

/// One generated satellite.
#[derive(Debug)]
pub struct SatelliteConfig {
    pub name: String,
    pub norad_id: u32,
    pub category: SatelliteCategory,
    pub semi_major_axis_km: Quantity,
    pub eccentricity: Quantity,
    pub inclination_deg: Quantity,
    pub raan_deg: Quantity,
    pub arg_perigee_deg: Quantity,
    pub mean_anomaly_epoch_deg: Quantity,
    pub epoch_unix: u64,
}

impl Clone for SatelliteConfig {
    fn clone(&self) -> (copy: Self)
        ensures
            copy == *self,
    {
        SatelliteConfig {
            name: self.name.clone(),
            norad_id: self.norad_id,
            category: self.category,
            semi_major_axis_km: self.semi_major_axis_km,
            eccentricity: self.eccentricity,
            inclination_deg: self.inclination_deg,
            raan_deg: self.raan_deg,
            arg_perigee_deg: self.arg_perigee_deg,
            mean_anomaly_epoch_deg: self.mean_anomaly_epoch_deg,
            epoch_unix: self.epoch_unix,
        }
    }
}

/// A satellite, with its name as characters.
pub struct Satellite {
    pub name: Seq<char>,
    pub norad_id: int,
    pub category: SatelliteCategory,
    pub semi_major_axis_km: Quantity,
    pub eccentricity: Quantity,
    pub inclination_deg: Quantity,
    pub raan_deg: Quantity,
    pub arg_perigee_deg: Quantity,
    pub mean_anomaly_epoch_deg: Quantity,
    pub epoch_unix: int,
}

impl View for SatelliteConfig {
    type V = Satellite;

    open spec fn view(&self) -> Satellite {
        Satellite {
            name: self.name@,
            norad_id: self.norad_id as int,
            category: self.category,
            semi_major_axis_km: self.semi_major_axis_km,
            eccentricity: self.eccentricity,
            inclination_deg: self.inclination_deg,
            raan_deg: self.raan_deg,
            arg_perigee_deg: self.arg_perigee_deg,
            mean_anomaly_epoch_deg: self.mean_anomaly_epoch_deg,
            epoch_unix: self.epoch_unix as int,
        }
    }
}

/// The 64-bit FNV-1a hash.
pub open spec fn fnv(bytes: Seq<u8>) -> u64
    decreases bytes.len(),
{
    if bytes.len() == 0 {
        FNV_BASIS
    } else {
        (fnv(bytes.drop_last()) ^ (bytes.last() as u64)).wrapping_mul(FNV_PRIME)
    }
}

/// The hash of a text.
pub open spec fn text_hash(text: Seq<char>) -> u64 {
    fnv(encode_utf8(text))
}

/// What is hashed for one parameter of a satellite.
pub open spec fn keyed(name: Seq<char>, key: Seq<char>) -> Seq<char> {
    name + ":"@ + key
}

/// The draw for one parameter: a number of 2^-53 steps out of [0, 1).
pub open spec fn unit_steps(name: Seq<char>, key: Seq<char>) -> u64 {
    text_hash(keyed(name, key)) >> 11u64
}

/// The parameter that a name draws from a range.
pub open spec fn drawn(name: Seq<char>, key: Seq<char>, lo: u64, hi: u64, per: u64) -> Quantity {
    Quantity { lo, hi, per, steps: unit_steps(name, key) }
}

/// A parameter without a draw.
pub open spec fn fixed(value: u64, per: u64) -> Quantity {
    Quantity { lo: value, hi: value, per, steps: 0 }
}

/// Where the share of low orbit ends.
pub open spec fn leo_end(w: OrbitWeights) -> Number {
    number_of(w.leo)
}

/// Where the share of medium orbit ends.
pub open spec fn meo_end(w: OrbitWeights) -> Number {
    sum(leo_end(w), number_of(w.meo))
}

/// Where the share of the geostationary belt ends.
pub open spec fn geo_end(w: OrbitWeights) -> Number {
    sum(meo_end(w), number_of(w.geo))
}

/// The sum of the weights, added up in order.
pub open spec fn total_weight(w: OrbitWeights) -> Number {
    sum(geo_end(w), number_of(w.heo))
}

/// The region that a draw falls in, with the sum of the weights shared out in order.
pub open spec fn shell_at(steps: int, w: OrbitWeights) -> Shell {
    let place = share(steps as nat, total_weight(w));
    if less(place, leo_end(w)) {
        Shell::Leo
    } else if less(place, meo_end(w)) {
        Shell::Meo
    } else if less(place, geo_end(w)) {
        Shell::Geo
    } else {
        Shell::Heo
    }
}

/// The category that a draw falls in.
pub open spec fn category_at(steps: int) -> SatelliteCategory {
    if steps < COMMUNICATIONS_END {
        SatelliteCategory::Communications
    } else if steps < EARTH_OBSERVATION_END {
        SatelliteCategory::EarthObservation
    } else if steps < SCIENCE_END {
        SatelliteCategory::Science
    } else if steps < WEATHER_END {
        SatelliteCategory::Weather
    } else {
        SatelliteCategory::Navigation
    }
}

/// The usual inclinations in low orbit, in tenths of a degree.
pub open spec fn low_inclination(choice: int) -> u64 {
    if choice == 0 {
        516
    } else if choice == 1 {
        978
    } else if choice == 2 {
        450
    } else if choice == 3 {
        285
    } else if choice == 4 {
        634
    } else {
        874
    }
}

/// Semi-major axis, eccentricity, inclination and argument of perigee of a satellite in a region.
pub open spec fn orbit_in(name: Seq<char>, shell: Shell) -> (Quantity, Quantity, Quantity, Quantity) {
    match shell {
        Shell::Leo => (
            drawn(name, "sma"@, 6771, 7571, 1),
            drawn(name, "ecc"@, 1, 200, 10_000),
            fixed(low_inclination((text_hash(keyed(name, "inc"@)) % 6) as int), 10),
            drawn(name, "argp"@, 0, 360, 1),
        ),
        Shell::Meo => (
            drawn(name, "sma"@, 24_000, 29_600, 1),
            drawn(name, "ecc"@, 1, 100, 10_000),
            drawn(name, "inc"@, 50, 65, 1),
            drawn(name, "argp"@, 0, 360, 1),
        ),
        Shell::Geo => (
            drawn(name, "sma"@, 42_154, 42_174, 1),
            fixed(1, 10_000),
            drawn(name, "inc"@, 0, 1, 10),
            fixed(0, 1),
        ),
        Shell::Heo => (
            drawn(name, "sma"@, 26_354, 26_754, 1),
            drawn(name, "ecc"@, 7_000, 7_400, 10_000),
            fixed(634, 10),
            fixed(270, 1),
        ),
    }
}

/// The satellite with a given name.
pub open spec fn satellite(name: Seq<char>, w: OrbitWeights) -> Satellite {
    let orbit = orbit_in(name, shell_at(unit_steps(name, "shell"@) as int, w));
    Satellite {
        name,
        norad_id: 100_000 + text_hash(name) % 900_000,
        category: category_at(unit_steps(name, "cat"@) as int),
        semi_major_axis_km: orbit.0,
        eccentricity: orbit.1,
        inclination_deg: orbit.2,
        raan_deg: drawn(name, "raan"@, 0, 360, 1),
        arg_perigee_deg: orbit.3,
        mean_anomaly_epoch_deg: drawn(name, "ma"@, 0, 360, 1),
        epoch_unix: EPOCH_UNIX as int,
    }
}

/// The name of the `number`th satellite of a batch.
pub open spec fn satellite_name(prefix: Seq<char>, number: nat) -> Seq<char> {
    prefix + "-"@ + zero_padded(number, 5)
}

/// The satellites of a batch.
pub open spec fn batch(prefix: Seq<char>, count: nat, w: OrbitWeights) -> Seq<Satellite> {
    Seq::new(count, |i: int| satellite(satellite_name(prefix, (i + 1) as nat), w))
}

/// FNV-1a: stable across builds and platforms, so that parameters stay pinned to names.
pub fn fnv1a64(bytes: &[u8]) -> (hash: u64)
    ensures
        hash == fnv(bytes@),
{
    let mut hash: u64 = FNV_BASIS;
    let mut i: usize = 0;
    assert(bytes@.take(0).len() == 0);
    while i < bytes.len()
        invariant
            i <= bytes.len(),
            hash == fnv(bytes@.take(i as int)),
        decreases bytes.len() - i,
    {
        proof {
            assert(bytes@.take(i + 1).drop_last() =~= bytes@.take(i as int));
            assert(bytes@.take(i + 1).last() == bytes@[i as int]);
        }
        hash = hash ^ (bytes[i] as u64);
        hash = hash.wrapping_mul(FNV_PRIME);
        i = i + 1;
    }
    assert(bytes@.take(bytes.len() as int) =~= bytes@);
    hash
}

fn keyed_hash(name: &str, key: &str) -> (hash: u64)
    ensures
        hash == text_hash(keyed(name@, key@)),
{
    let mut text: String = name.to_owned();
    text.append(":");
    text.append(key);
    fnv1a64(text.as_str().as_bytes())
}

/// The draw for one parameter of a satellite, as a number of 2^-53 steps out of [0, 1).
pub fn unit(name: &str, key: &str) -> (steps: u64)
    ensures
        steps == unit_steps(name@, key@),
        steps < UNIT_STEPS,
{
    let h: u64 = keyed_hash(name, key);
    assert(h >> 11u64 < 0x20_0000_0000_0000u64) by (bit_vector);
    h >> 11u64
}

/// The parameter that a name draws from a range.
pub fn in_range(name: &str, key: &str, lo: u64, hi: u64, per: u64) -> (q: Quantity)
    ensures
        q == drawn(name@, key@, lo, hi, per),
{
    Quantity { lo, hi, per, steps: unit(name, key) }
}

fn settled(value: u64, per: u64) -> (q: Quantity)
    ensures
        q == fixed(value, per),
{
    Quantity { lo: value, hi: value, per, steps: 0 }
}

/// The sum of the weights, added up in order.
pub fn total(w: &OrbitWeights) -> (total: Binary)
    ensures
        total.well_formed(),
        total@ == total_weight(*w),
{
    let leo = Binary::of(w.leo);
    let meo = Binary::of(w.meo);
    let geo = Binary::of(w.geo);
    let heo = Binary::of(w.heo);
    leo.plus(&meo).plus(&geo).plus(&heo)
}

/// The region that a draw falls in, with the sum of the weights shared out in order.
pub fn pick_shell(steps: u64, w: &OrbitWeights) -> (shell: Shell)
    requires
        steps < UNIT_STEPS,
    ensures
        shell == shell_at(steps as int, *w),
{
    let leo_end = Binary::of(w.leo);
    let meo_end = leo_end.plus(&Binary::of(w.meo));
    let geo_end = meo_end.plus(&Binary::of(w.geo));
    let place = total(w).part(steps);
    if place.below(&leo_end) {
        Shell::Leo
    } else if place.below(&meo_end) {
        Shell::Meo
    } else if place.below(&geo_end) {
        Shell::Geo
    } else {
        Shell::Heo
    }
}

/// The category that a draw falls in.
pub fn pick_category(steps: u64) -> (category: SatelliteCategory)
    ensures
        category == category_at(steps as int),
{
    if steps < COMMUNICATIONS_END {
        SatelliteCategory::Communications
    } else if steps < EARTH_OBSERVATION_END {
        SatelliteCategory::EarthObservation
    } else if steps < SCIENCE_END {
        SatelliteCategory::Science
    } else if steps < WEATHER_END {
        SatelliteCategory::Weather
    } else {
        SatelliteCategory::Navigation
    }
}

fn inclination_family(choice: u64) -> (tenths: u64)
    ensures
        tenths == low_inclination(choice as int),
{
    match choice {
        0 => 516,
        1 => 978,
        2 => 450,
        3 => 285,
        4 => 634,
        _ => 874,
    }
}

/// The satellite with a given name.
pub fn build_sat(name: String, w: &OrbitWeights) -> (sat: SatelliteConfig)
    ensures
        sat@ == satellite(name@, *w),
{
    let hash: u64 = fnv1a64(name.as_str().as_bytes());
    let norad_id: u32 = 100_000 + (hash % 900_000) as u32;
    let n: &str = name.as_str();
    let shell = pick_shell(unit(n, "shell"), w);
    let (semi_major_axis_km, eccentricity, inclination_deg, arg_perigee_deg): (
        Quantity,
        Quantity,
        Quantity,
        Quantity,
    ) = match shell {
        Shell::Leo => (
            in_range(n, "sma", 6771, 7571, 1),
            in_range(n, "ecc", 1, 200, 10_000),
            settled(inclination_family(keyed_hash(n, "inc") % 6), 10),
            in_range(n, "argp", 0, 360, 1),
        ),
        Shell::Meo => (
            in_range(n, "sma", 24_000, 29_600, 1),
            in_range(n, "ecc", 1, 100, 10_000),
            in_range(n, "inc", 50, 65, 1),
            in_range(n, "argp", 0, 360, 1),
        ),
        Shell::Geo => (
            in_range(n, "sma", 42_154, 42_174, 1),
            settled(1, 10_000),
            in_range(n, "inc", 0, 1, 10),
            settled(0, 1),
        ),
        Shell::Heo => (
            in_range(n, "sma", 26_354, 26_754, 1),
            in_range(n, "ecc", 7_000, 7_400, 10_000),
            settled(634, 10),
            settled(270, 1),
        ),
    };
    let category = pick_category(unit(n, "cat"));
    let raan_deg = in_range(n, "raan", 0, 360, 1);
    let mean_anomaly_epoch_deg = in_range(n, "ma", 0, 360, 1);
    SatelliteConfig {
        name,
        norad_id,
        category,
        semi_major_axis_km,
        eccentricity,
        inclination_deg,
        raan_deg,
        arg_perigee_deg,
        mean_anomaly_epoch_deg,
        epoch_unix: EPOCH_UNIX,
    }
}

/// The satellites of a batch, in order.
pub fn generate(preset: &Preset, weights: &OrbitWeights) -> (sats: Vec<SatelliteConfig>)
    ensures
        sats@.map_values(|s: SatelliteConfig| s@) == batch(
            preset.sat_prefix@,
            preset.count as nat,
            *weights,
        ),
{
    let mut sats: Vec<SatelliteConfig> = Vec::new();
    let mut i: u32 = 0;
    while i < preset.count
        invariant
            i <= preset.count,
            sats@.len() == i,
            forall|j: int|
                0 <= j < i ==> (#[trigger] sats@[j])@ == satellite(
                    satellite_name(preset.sat_prefix@, (j + 1) as nat),
                    *weights,
                ),
        decreases preset.count - i,
    {
        i = i + 1;
        let mut name: String = preset.sat_prefix.clone();
        name.append("-");
        push_zero_padded(&mut name, i as u64, 5);
        sats.push(build_sat(name, weights));
    }
    assert(sats@.map_values(|s: SatelliteConfig| s@) =~= batch(
        preset.sat_prefix@,
        preset.count as nat,
        *weights,
    ));
    sats
}

/// Smaller batches are prefixes of larger ones.
pub proof fn smaller_batches_are_prefixes(
    prefix: Seq<char>,
    small: nat,
    large: nat,
    w: OrbitWeights,
)
    requires
        small <= large,
    ensures
        batch(prefix, small, w) == batch(prefix, large, w).take(small as int),
{
    assert(batch(prefix, small, w) =~= batch(prefix, large, w).take(small as int));
}

/// Satellite numbers lie between 100,000 and 999,999.
pub proof fn norad_ids_have_six_digits(name: Seq<char>, w: OrbitWeights)
    ensures
        100_000 <= satellite(name, w).norad_id <= 999_999,
{
}

/// A draw takes fewer steps than make up one.
pub proof fn draws_stay_below_one(name: Seq<char>, key: Seq<char>)
    ensures
        unit_steps(name, key) < UNIT_STEPS,
{
    let h = text_hash(keyed(name, key));
    assert(h >> 11u64 < 0x20_0000_0000_0000u64) by (bit_vector);
}

/// Every orbit is physically sane, whatever the name and the weights: the semi-major axis lies
/// between 6,640 and 42,200 km, the eccentricity in [0, 0.75), and the perigee above 6,550 km.
pub proof fn orbits_are_sane(name: Seq<char>, w: OrbitWeights)
    ensures
        ({
            let sat = satellite(name, w);
            let axis = scaled(sat.semi_major_axis_km);
            let ecc = scaled(sat.eccentricity);
            let one = UNIT_STEPS as int;
            &&& sat.semi_major_axis_km.per == 1
            &&& sat.eccentricity.per == 10_000
            &&& 6_640 * one < axis < 42_200 * one
            &&& 0 <= ecc < 7_500 * one
            &&& axis * (10_000 * one - ecc) > 6_550 * one * (10_000 * one)
        }),
{
    let sat = satellite(name, w);
    let shell = shell_at(unit_steps(name, "shell"@) as int, w);
    draws_stay_below_one(name, "sma"@);
    draws_stay_below_one(name, "ecc"@);
    let one = UNIT_STEPS as int;
    let a = sat.semi_major_axis_km;
    let e = sat.eccentricity;
    assert(a.lo <= a.hi && e.lo <= e.hi);
    lemma_scaled_bounds(a);
    lemma_scaled_bounds(e);
    let axis = scaled(a);
    let ecc = scaled(e);
    let low = a.lo as int;
    let high = e.hi as int;
    assert(low * (10_000 - high) > 6_550 * 10_000) by {
        match shell {
            Shell::Leo => {},
            Shell::Meo => {},
            Shell::Geo => {},
            Shell::Heo => {},
        }
    }
    assert(axis * (10_000 * one - ecc) >= (low * one) * ((10_000 - high) * one))
        by (nonlinear_arith)
        requires
            axis >= low * one,
            10_000 * one - ecc >= (10_000 - high) * one,
            low >= 0,
            one > 0,
            high <= 10_000,
    ;
    assert((low * one) * ((10_000 - high) * one) > 6_550 * one * (10_000 * one))
        by (nonlinear_arith)
        requires
            low * (10_000 - high) > 6_550 * 10_000,
            one > 0,
    ;
}

proof fn lemma_scaled_bounds(q: Quantity)
    requires
        q.lo <= q.hi,
        q.steps < UNIT_STEPS,
    ensures
        q.lo * UNIT_STEPS <= scaled(q) <= q.hi * UNIT_STEPS,
{
    let span = q.hi - q.lo;
    assert(0 <= span * q.steps <= span * UNIT_STEPS) by (nonlinear_arith)
        requires
            span >= 0,
            0 <= q.steps < UNIT_STEPS,
    ;
    assert((q.hi - q.lo) * UNIT_STEPS == q.hi * UNIT_STEPS - q.lo * UNIT_STEPS)
        by (nonlinear_arith);
}

/// A region without weight gets no satellite: of weights that are finite, none of them negative,
/// with a finite positive sum that is not among the tiniest doubles.
pub proof fn weightless_shells_stay_empty(steps: int, w: OrbitWeights)
    requires
        0 <= steps < UNIT_STEPS,
        number_of(w.leo) matches Number::Finite(n) && n >= 0,
        number_of(w.meo) matches Number::Finite(n) && n >= 0,
        number_of(w.geo) matches Number::Finite(n) && n >= 0,
        number_of(w.heo) matches Number::Finite(n) && n >= 0,
        meo_end(w) is Finite,
        geo_end(w) is Finite,
        total_weight(w) matches Number::Finite(n) && n >= UNIT_STEPS,
    ensures
        number_of(w.leo) == Number::Finite(0) ==> shell_at(steps, w) != Shell::Leo,
        number_of(w.meo) == Number::Finite(0) ==> shell_at(steps, w) != Shell::Meo,
        number_of(w.geo) == Number::Finite(0) ==> shell_at(steps, w) != Shell::Geo,
        number_of(w.heo) == Number::Finite(0) ==> shell_at(steps, w) != Shell::Heo,
{
    let leo = number_of(w.leo)->Finite_0;
    let total = total_weight(w)->Finite_0;
    let meo_sum = leo + number_of(w.meo)->Finite_0;
    let geo_sum = meo_end(w)->Finite_0 + number_of(w.geo)->Finite_0;
    let total_sum = geo_end(w)->Finite_0 + number_of(w.heo)->Finite_0;
    doubles_are_held(w.leo);
    finite_doubles_are_limited(w.leo);
    rounding_is_idempotent(size(meo_sum));
    rounding_is_idempotent(size(geo_sum));
    rounding_is_idempotent(size(total_sum));
    if number_of(w.meo) == Number::Finite(0) {
        adding_zero_changes_nothing(leo);
    }
    if number_of(w.geo) == Number::Finite(0) {
        adding_zero_changes_nothing(meo_end(w)->Finite_0);
    }
    if number_of(w.heo) == Number::Finite(0) {
        adding_zero_changes_nothing(geo_end(w)->Finite_0);
        shares_are_less_than_the_whole(steps as nat, total as nat);
    }
}

proof fn lemma_leading_digit(n: nat)
    requires
        n > 0,
    ensures
        decimal(n)[0] != '0',
    decreases n,
{
    if n >= 10 {
        lemma_leading_digit(n / 10);
        decimal_nonempty(n / 10);
        assert(decimal(n)[0] == decimal(n / 10)[0]);
    } else {
        assert(decimal(n)[0] == crate::text::digit_char(n));
    }
}

proof fn lemma_padded_digits(n: nat, i: int)
    requires
        0 <= i < zero_padded(n, 5).len(),
    ensures
        '0' <= zero_padded(n, 5)[i] <= '9',
{
    let d = decimal(n);
    let fill = zero_padded(n, 5).len() - d.len();
    if i >= fill {
        decimal_holds_digits(n, i - fill);
    }
}

proof fn lemma_padded_injective(a: nat, b: nat)
    requires
        zero_padded(a, 5) == zero_padded(b, 5),
    ensures
        a == b,
{
    let whole = zero_padded(a, 5);
    let da = decimal(a);
    let db = decimal(b);
    decimal_nonempty(a);
    decimal_nonempty(b);
    if da.len() < db.len() {
        let at = whole.len() - db.len();
        assert(zero_padded(b, 5)[at] == db[0]);
        assert(zero_padded(a, 5)[at] == '0');
        assert(b > 0);
        lemma_leading_digit(b);
    } else if db.len() < da.len() {
        let at = whole.len() - da.len();
        assert(zero_padded(a, 5)[at] == da[0]);
        assert(zero_padded(b, 5)[at] == '0');
        assert(a > 0);
        lemma_leading_digit(a);
    } else {
        assert(zero_padded(a, 5).skip(whole.len() - da.len()) =~= da);
        assert(zero_padded(b, 5).skip(whole.len() - db.len()) =~= db);
        decimal_is_injective(a, b);
    }
}

/// No two satellites share a name: neither two of one batch nor two of batches with different
/// prefixes.
pub proof fn names_are_unique(prefix_a: Seq<char>, a: nat, prefix_b: Seq<char>, b: nat)
    requires
        satellite_name(prefix_a, a) == satellite_name(prefix_b, b),
    ensures
        prefix_a == prefix_b,
        a == b,
{
    reveal_strlit("-");
    let name_a = satellite_name(prefix_a, a);
    let name_b = satellite_name(prefix_b, b);
    let la = prefix_a.len();
    let lb = prefix_b.len();
    assert("-"@.len() == 1 && "-"@[0] == '-');
    assert(name_a.len() == la + 1 + zero_padded(a, 5).len());
    assert(name_b.len() == lb + 1 + zero_padded(b, 5).len());
    assert(name_a[la as int] == '-');
    assert(name_b[lb as int] == '-');
    decimal_nonempty(a);
    decimal_nonempty(b);
    if la < lb {
        let at = lb - la - 1;
        assert(name_a[lb as int] == zero_padded(a, 5)[at]);
        lemma_padded_digits(a, at);
    } else if lb < la {
        let at = la - lb - 1;
        assert(name_b[la as int] == zero_padded(b, 5)[at]);
        lemma_padded_digits(b, at);
    } else {
        assert(name_a.take(la as int) =~= prefix_a);
        assert(name_b.take(lb as int) =~= prefix_b);
        assert(name_a.skip(la as int + 1) =~= zero_padded(a, 5));
        assert(name_b.skip(lb as int + 1) =~= zero_padded(b, 5));
        lemma_padded_injective(a, b);
    }
}

} // verus!
