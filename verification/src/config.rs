//! The fleet configuration and its validation.
use crate::binary::not_positive;
use crate::double::{
    is_nan, not_above_zero, product_exceeds_cap, product_floor, product_over_cap, rank,
    whole_product, Double, DoubleTree,
};
use crate::engine::CHANNEL_COUNT;
use crate::satgen::{total, total_weight};
use crate::text::{decimal, push_decimal, quoted};
use vstd::prelude::*;
use vstd::string::*;

verus! {

/// Presets may target at most this many points per second: less than what the service was measured
/// to sustain, so that streams never build an unbounded backlog.
pub const MAX_POINTS_PER_SEC: u64 = 100_000;

/// How the fleet is shared out over the orbital regions. The weights are doubles, given by their
/// bit patterns.
#[derive(Clone, Copy, PartialEq, Eq, Structural, Debug)]
pub struct OrbitWeights {
    pub leo: u64,
    pub meo: u64,
    pub geo: u64,
    pub heo: u64,
}

/// The bit pattern of 0.70.
pub const DEFAULT_LEO: u64 = 0x3FE6_6666_6666_6666;

/// The bit pattern of 0.15.
pub const DEFAULT_MEO: u64 = 0x3FC3_3333_3333_3333;

/// The bit pattern of 0.10.
pub const DEFAULT_GEO: u64 = 0x3FB9_9999_9999_999A;

/// The bit pattern of 0.05.
pub const DEFAULT_HEO: u64 = 0x3FA9_9999_9999_999A;

impl Default for OrbitWeights {
    fn default() -> (w: Self)
        ensures
            w == (OrbitWeights {
                leo: DEFAULT_LEO,
                meo: DEFAULT_MEO,
                geo: DEFAULT_GEO,
                heo: DEFAULT_HEO,
            }),
    {
        OrbitWeights {
            leo: DEFAULT_LEO,
            meo: DEFAULT_MEO,
            geo: DEFAULT_GEO,
            heo: DEFAULT_HEO,
        }
    }
}

/// A place that satellites are observed from.
#[derive(Debug)]
pub struct GroundStationConfig {
    pub name: String,
    pub latitude_deg: Double,
    pub longitude_deg: Double,
    pub altitude_m: Double,
}

impl Clone for GroundStationConfig {
    fn clone(&self) -> (copy: Self)
        ensures
            copy == *self,
    {
        GroundStationConfig {
            name: self.name.clone(),
            latitude_deg: self.latitude_deg.clone(),
            longitude_deg: self.longitude_deg.clone(),
            altitude_m: self.altitude_m.clone(),
        }
    }
}

/// A batch of satellites.
#[derive(Debug)]
pub struct Preset {
    /// Batch identifier; stored as the `batch` property on every asset.
    pub name: String,
    /// Label applied to the batch's assets.
    pub label: String,
    /// Prefix of the satellite names, e.g. "RC1K" for "RC1K-00042".
    pub sat_prefix: String,
    /// Number of satellites.
    pub count: u32,
    /// Ticks per second.
    pub rate_hz: Double,
}

impl Clone for Preset {
    fn clone(&self) -> (copy: Self)
        ensures
            copy == *self,
    {
        Preset {
            name: self.name.clone(),
            label: self.label.clone(),
            sat_prefix: self.sat_prefix.clone(),
            count: self.count,
            rate_hz: self.rate_hz.clone(),
        }
    }
}

/// A batch, with texts as characters.
pub struct PresetTree {
    pub name: Seq<char>,
    pub label: Seq<char>,
    pub sat_prefix: Seq<char>,
    pub count: u32,
    pub rate_hz: DoubleTree,
}

impl View for Preset {
    type V = PresetTree;

    open spec fn view(&self) -> PresetTree {
        PresetTree {
            name: self.name@,
            label: self.label@,
            sat_prefix: self.sat_prefix@,
            count: self.count,
            rate_hz: self.rate_hz@,
        }
    }
}

impl Preset {
    /// The points per second that the batch aims at, without decimals.
    pub fn points_per_sec(&self) -> (points: u64)
        ensures
            points == product_floor(
                self.count as nat * CHANNEL_COUNT as nat,
                self.rate_hz.bits,
            ),
    {
        whole_product(self.count as u64 * CHANNEL_COUNT, self.rate_hz.bits)
    }
}

/// The fleet: labels, observer, orbit mix and batches.
#[derive(Debug)]
pub struct FleetConfig {
    pub common_label: String,
    pub ground_station: Option<GroundStationConfig>,
    pub orbits: OrbitWeights,
    pub presets: Vec<Preset>,
}

/// What is wrong with a fleet configuration. The texts are the offending names.
#[derive(Debug)]
pub enum ConfigError {
    NoPresets,
    ZeroCount(String),
    NonPositiveRate(String),
    TooManyPoints { name: String, count: u32, rate: String },
    DuplicateName(String),
    DuplicatePrefix(String),
    DuplicateLabel(String),
    NoOrbitWeight,
}

/// A configuration error, with the texts as characters.
pub enum Fault {
    NoPresets,
    ZeroCount(Seq<char>),
    NonPositiveRate(Seq<char>),
    TooManyPoints { name: Seq<char>, count: nat, rate: Seq<char> },
    DuplicateName(Seq<char>),
    DuplicatePrefix(Seq<char>),
    DuplicateLabel(Seq<char>),
    NoOrbitWeight,
}

impl View for ConfigError {
    type V = Fault;

    open spec fn view(&self) -> Fault {
        match self {
            ConfigError::NoPresets => Fault::NoPresets,
            ConfigError::ZeroCount(name) => Fault::ZeroCount(name@),
            ConfigError::NonPositiveRate(name) => Fault::NonPositiveRate(name@),
            ConfigError::TooManyPoints { name, count, rate } => Fault::TooManyPoints {
                name: name@,
                count: *count as nat,
                rate: rate@,
            },
            ConfigError::DuplicateName(name) => Fault::DuplicateName(name@),
            ConfigError::DuplicatePrefix(prefix) => Fault::DuplicatePrefix(prefix@),
            ConfigError::DuplicateLabel(label) => Fault::DuplicateLabel(label@),
            ConfigError::NoOrbitWeight => Fault::NoOrbitWeight,
        }
    }
}

/// Whether the preset targets more points per second than the cap allows, in double arithmetic.
pub open spec fn over_cap(preset: Preset) -> bool {
    product_exceeds_cap(preset.count as nat * CHANNEL_COUNT as nat, preset.rate_hz.bits)
}

/// The first thing wrong with the preset at `i`, given the presets before it.
pub open spec fn preset_fault(presets: Seq<Preset>, i: int) -> Option<Fault> {
    let p = presets[i];
    if p.count == 0 {
        Some(Fault::ZeroCount(p.name@))
    } else if !is_nan(p.rate_hz.bits) && rank(p.rate_hz.bits) <= 0 {
        Some(Fault::NonPositiveRate(p.name@))
    } else if over_cap(p) {
        Some(
            Fault::TooManyPoints {
                name: p.name@,
                count: p.count as nat,
                rate: p.rate_hz.text@,
            },
        )
    } else if exists|j: int| 0 <= j < i && (#[trigger] presets[j]).name@ == p.name@ {
        Some(Fault::DuplicateName(p.name@))
    } else if exists|j: int| 0 <= j < i && (#[trigger] presets[j]).sat_prefix@ == p.sat_prefix@ {
        Some(Fault::DuplicatePrefix(p.sat_prefix@))
    } else if exists|j: int| 0 <= j < i && (#[trigger] presets[j]).label@ == p.label@ {
        Some(Fault::DuplicateLabel(p.label@))
    } else {
        None
    }
}

/// Whether the first `upto` presets are in order.
pub open spec fn presets_sound(presets: Seq<Preset>, upto: int) -> bool {
    forall|i: int| 0 <= i < upto ==> (#[trigger] preset_fault(presets, i)) is None
}

/// Whether nothing is wrong with the fleet.
pub open spec fn fleet_sound(fleet: FleetConfig) -> bool {
    &&& fleet.presets@.len() > 0
    &&& presets_sound(fleet.presets@, fleet.presets@.len() as int)
    &&& !not_positive(total_weight(fleet.orbits))
}

/// Whether `fault` is the first thing wrong with the fleet.
pub open spec fn is_first_fault(fleet: FleetConfig, fault: Fault) -> bool {
    if fleet.presets@.len() == 0 {
        fault == Fault::NoPresets
    } else if presets_sound(fleet.presets@, fleet.presets@.len() as int) {
        not_positive(total_weight(fleet.orbits)) && fault == Fault::NoOrbitWeight
    } else {
        exists|i: int|
            {
                &&& 0 <= i < fleet.presets@.len()
                &&& presets_sound(fleet.presets@, i)
                &&& #[trigger] preset_fault(fleet.presets@, i) == Some(fault)
            }
    }
}

/// Which text field of a preset is compared.
#[derive(Clone, Copy, PartialEq, Eq, Structural)]
enum Field {
    Name,
    Prefix,
    Label,
}

spec fn field_of(preset: Preset, field: Field) -> Seq<char> {
    match field {
        Field::Name => preset.name@,
        Field::Prefix => preset.sat_prefix@,
        Field::Label => preset.label@,
    }
}

fn field_text(preset: &Preset, field: Field) -> (text: &String)
    ensures
        text@ == field_of(*preset, field),
{
    match field {
        Field::Name => &preset.name,
        Field::Prefix => &preset.sat_prefix,
        Field::Label => &preset.label,
    }
}

fn used_before(presets: &Vec<Preset>, i: usize, field: Field) -> (used: bool)
    requires
        i < presets.len(),
    ensures
        used == exists|j: int|
            0 <= j < i && field_of(#[trigger] presets@[j], field) == field_of(
                presets@[i as int],
                field,
            ),
{
    let mut j: usize = 0;
    while j < i
        invariant
            j <= i < presets.len(),
            forall|k: int|
                0 <= k < j ==> field_of(#[trigger] presets@[k], field) != field_of(
                    presets@[i as int],
                    field,
                ),
        decreases i - j,
    {
        if *field_text(&presets[j], field) == *field_text(&presets[i], field) {
            assert(field_of(presets@[j as int], field) == field_of(presets@[i as int], field));
            return true;
        }
        j = j + 1;
    }
    false
}

fn check_preset(presets: &Vec<Preset>, i: usize) -> (fault: Option<ConfigError>)
    requires
        i < presets.len(),
    ensures
        match fault {
            Some(error) => preset_fault(presets@, i as int) == Some(error@),
            None => preset_fault(presets@, i as int) is None,
        },
{
    let p = &presets[i];
    if p.count == 0 {
        return Some(ConfigError::ZeroCount(p.name.clone()));
    }
    if not_above_zero(p.rate_hz.bits) {
        return Some(ConfigError::NonPositiveRate(p.name.clone()));
    }
    if product_over_cap(p.count as u64 * CHANNEL_COUNT, p.rate_hz.bits) {
        return Some(
            ConfigError::TooManyPoints {
                name: p.name.clone(),
                count: p.count,
                rate: p.rate_hz.text.clone(),
            },
        );
    }
    let name_used = used_before(presets, i, Field::Name);
    assert(name_used == exists|j: int|
        0 <= j < i && (#[trigger] presets@[j]).name@ == presets@[i as int].name@);
    if name_used {
        return Some(ConfigError::DuplicateName(p.name.clone()));
    }
    let prefix_used = used_before(presets, i, Field::Prefix);
    assert(prefix_used == exists|j: int|
        0 <= j < i && (#[trigger] presets@[j]).sat_prefix@ == presets@[i as int].sat_prefix@);
    if prefix_used {
        return Some(ConfigError::DuplicatePrefix(p.sat_prefix.clone()));
    }
    let label_used = used_before(presets, i, Field::Label);
    assert(label_used == exists|j: int|
        0 <= j < i && (#[trigger] presets@[j]).label@ == presets@[i as int].label@);
    if label_used {
        return Some(ConfigError::DuplicateLabel(p.label.clone()));
    }
    None
}

impl FleetConfig {
    /// Checks the configuration: presets in order, each of them first by itself and then against
    /// those before it, and last the orbit weights.
    pub fn validate(&self) -> (checked: Result<(), ConfigError>)
        ensures
            match checked {
                Ok(()) => fleet_sound(*self),
                Err(error) => !fleet_sound(*self) && is_first_fault(*self, error@),
            },
    {
        if self.presets.len() == 0 {
            return Err(ConfigError::NoPresets);
        }
        let mut i: usize = 0;
        while i < self.presets.len()
            invariant
                i <= self.presets.len(),
                self.presets@.len() > 0,
                presets_sound(self.presets@, i as int),
            decreases self.presets.len() - i,
        {
            match check_preset(&self.presets, i) {
                Some(error) => {
                    assert(preset_fault(self.presets@, i as int) == Some(error@));
                    return Err(error);
                },
                None => {},
            }
            i = i + 1;
        }
        if total(&self.orbits).is_not_positive() {
            return Err(ConfigError::NoOrbitWeight);
        }
        Ok(())
    }
}

/// A sound fleet has no two batches that share a name, a prefix or a label.
pub proof fn sound_batches_are_distinct(fleet: FleetConfig, i: int, j: int)
    requires
        fleet_sound(fleet),
        0 <= j < i < fleet.presets@.len(),
    ensures
        fleet.presets@[i].name@ != fleet.presets@[j].name@,
        fleet.presets@[i].sat_prefix@ != fleet.presets@[j].sat_prefix@,
        fleet.presets@[i].label@ != fleet.presets@[j].label@,
{
    assert(preset_fault(fleet.presets@, i) is None);
}

/// In a sound fleet every batch has satellites and keeps to the cap, and no rate is zero or below.
pub proof fn sound_batches_keep_to_the_cap(fleet: FleetConfig, i: int)
    requires
        fleet_sound(fleet),
        0 <= i < fleet.presets@.len(),
    ensures
        fleet.presets@[i].count > 0,
        !over_cap(fleet.presets@[i]),
        is_nan(fleet.presets@[i].rate_hz.bits) || rank(fleet.presets@[i].rate_hz.bits) > 0,
{
    assert(preset_fault(fleet.presets@, i) is None);
}

/// The error messages. `target` is the offending preset's points per second, without decimals.
pub open spec fn fault_text(fault: Fault, target: Seq<char>) -> Seq<char> {
    match fault {
        Fault::NoPresets => "fleet config has no presets"@,
        Fault::ZeroCount(name) => "preset '"@ + name + "' has count 0"@,
        Fault::NonPositiveRate(name) => "preset '"@ + name + "' has non-positive rate_hz"@,
        Fault::TooManyPoints { name, count, rate } => "preset '"@ + name + "' targets "@ + target
            + " pts/s, above the "@ + decimal(MAX_POINTS_PER_SEC as nat) + " pts/s cap ("@ + decimal(
            count,
        ) + " sats x "@ + decimal(CHANNEL_COUNT as nat) + " channels x "@ + rate + " Hz)"@,
        Fault::DuplicateName(name) => "duplicate preset name '"@ + name + "'"@,
        Fault::DuplicatePrefix(prefix) => "duplicate sat_prefix '"@ + prefix + "'"@,
        Fault::DuplicateLabel(label) => "duplicate preset label '"@ + label + "'"@,
        Fault::NoOrbitWeight => "orbit weights must sum to a positive value"@,
    }
}

impl ConfigError {
    /// The message. `target` is the offending preset's points per second, without decimals; only
    /// the message about the point rate shows it.
    pub fn message(&self, target: &str) -> (text: String)
        ensures
            text@ == fault_text(self@, target@),
    {
        match self {
            ConfigError::NoPresets => "fleet config has no presets".to_owned(),
            ConfigError::ZeroCount(name) => quoted("preset '", name.as_str(), "' has count 0"),
            ConfigError::NonPositiveRate(name) => quoted(
                "preset '",
                name.as_str(),
                "' has non-positive rate_hz",
            ),
            ConfigError::TooManyPoints { name, count, rate } => {
                let mut text: String = "preset '".to_owned();
                text.append(name.as_str());
                text.append("' targets ");
                text.append(target);
                text.append(" pts/s, above the ");
                push_decimal(&mut text, MAX_POINTS_PER_SEC);
                text.append(" pts/s cap (");
                push_decimal(&mut text, *count as u64);
                text.append(" sats x ");
                push_decimal(&mut text, CHANNEL_COUNT);
                text.append(" channels x ");
                text.append(rate.as_str());
                text.append(" Hz)");
                text
            },
            ConfigError::DuplicateName(name) => quoted(
                "duplicate preset name '",
                name.as_str(),
                "'",
            ),
            ConfigError::DuplicatePrefix(prefix) => quoted(
                "duplicate sat_prefix '",
                prefix.as_str(),
                "'",
            ),
            ConfigError::DuplicateLabel(label) => quoted(
                "duplicate preset label '",
                label.as_str(),
                "'",
            ),
            ConfigError::NoOrbitWeight => "orbit weights must sum to a positive value".to_owned(),
        }
    }
}

} // verus!
