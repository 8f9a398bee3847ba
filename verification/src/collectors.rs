//! The satellites that are sampled: which are chosen, and the names they go by.
use crate::config::GroundStationConfig;
use crate::double::Double;
use crate::satgen::SatelliteCategory;
use crate::text::{characters, decimal, decimal_is_injective, push_decimal, texts};
use vstd::prelude::*;
use vstd::string::*;

verus! {

/// How often a collector is due.
#[derive(Clone, Copy, PartialEq, Eq, Structural, Debug)]
pub enum Tier {
    Fast,
    Medium,
    Slow,
}

/// What `str::to_lowercase` of std returns.
pub uninterp spec fn lowercase_of(text: Seq<char>) -> Seq<char>;

/// What `char::is_alphanumeric` of std returns.
pub uninterp spec fn alphanumeric(c: char) -> bool;

/// `str::to_lowercase` of std: a function of the characters. Which letters it maps is fixed by
/// the Unicode tables of std and not stated.
#[verifier::external_body]
fn lowercase(text: &str) -> (lower: String)
    ensures
        lower@ == lowercase_of(text@),
{
    text.to_lowercase()
}

/// `char::is_alphanumeric` of std: a function of the character. Which characters are letters or
/// numbers is fixed by the Unicode tables of std and not stated.
#[verifier::external_body]
fn is_alphanumeric(c: char) -> (yes: bool)
    ensures
        yes == alphanumeric(c),
{
    c.is_alphanumeric()
}

/// The text with an underscore for each character that is neither a letter nor a number.
pub open spec fn underscored(text: Seq<char>) -> Seq<char> {
    text.map_values(
        |c: char|
            if alphanumeric(c) {
                c
            } else {
                '_'
            },
    )
}

/// The name of a satellite as a key: lowercase, with underscores for spaces and the like.
pub open spec fn sanitized(name: Seq<char>) -> Seq<char> {
    underscored(lowercase_of(name))
}

/// The text with an underscore for each character that is neither a letter nor a number.
pub fn underscore(text: &str) -> (key: String)
    ensures
        key@ == underscored(text@),
{
    let list = characters(text);
    let mut key = String::new();
    assert(key@ =~= underscored(list@).take(0));
    for i in 0..list.len()
        invariant
            key@ == underscored(list@).take(i as int),
    {
        let c: char = if is_alphanumeric(list[i]) {
            list[i]
        } else {
            '_'
        };
        key.push(c);
        assert(key@ =~= underscored(list@).take(i + 1));
    }
    assert(key@ =~= underscored(text@));
    key
}

/// A satellite of a constellation, with its orbit.
#[derive(Debug)]
pub struct SatelliteConfig {
    pub name: String,
    pub norad_id: u32,
    pub category: SatelliteCategory,
    pub semi_major_axis_km: Double,
    pub eccentricity: Double,
    pub inclination_deg: Double,
    pub raan_deg: Double,
    pub arg_perigee_deg: Double,
    pub mean_anomaly_epoch_deg: Double,
    pub epoch_unix: Double,
}

/// The satellites to sample, and the place that they are observed from.
#[derive(Debug)]
pub struct ConstellationConfig {
    pub ground_station: Option<GroundStationConfig>,
    pub satellites: Vec<SatelliteConfig>,
}

/// Collects the telemetry of one satellite.
#[derive(Debug)]
pub struct SatelliteCollector {
    pub config: SatelliteConfig,
    pub ground_station: Option<GroundStationConfig>,
    /// The key under which the telemetry is collected.
    pub name: String,
}

impl SatelliteCollector {
    /// The collector of a satellite.
    pub fn new(
        config: SatelliteConfig,
        ground_station: Option<GroundStationConfig>,
    ) -> (collector: SatelliteCollector)
        ensures
            collector.name@ == sanitized(config.name@),
            collector.config == config,
            collector.ground_station == ground_station,
    {
        let lower = lowercase(config.name.as_str());
        let name = underscore(lower.as_str());
        SatelliteCollector { config, ground_station, name }
    }

    /// The key under which the telemetry is collected.
    pub fn name(&self) -> (name: &String)
        ensures
            name@ == self.name@,
    {
        &self.name
    }

    /// Satellites are sampled at every interval.
    pub fn tier(&self) -> (tier: Tier)
        ensures
            tier == Tier::Fast,
    {
        Tier::Fast
    }
}

/// The satellite at place `i` is chosen: everything is when nothing was asked for, else what has
/// one of the names asked for, in upper or lower case.
pub open spec fn is_chosen(lowered: Seq<Seq<char>>, wanted: Seq<Seq<char>>, i: int) -> bool {
    wanted.len() == 0 || wanted.contains(lowered[i])
}

/// The places of the chosen ones among the first `n`, in order.
pub open spec fn chosen(lowered: Seq<Seq<char>>, wanted: Seq<Seq<char>>, n: nat) -> Seq<usize>
    decreases n,
{
    if n == 0 {
        Seq::empty()
    } else {
        let before = chosen(lowered, wanted, (n - 1) as nat);
        if is_chosen(lowered, wanted, n - 1) {
            before.push((n - 1) as usize)
        } else {
            before
        }
    }
}

/// The lowercase forms of the texts.
pub open spec fn lowered(names: Seq<Seq<char>>) -> Seq<Seq<char>> {
    names.map_values(|s: Seq<char>| lowercase_of(s))
}

fn lower_all(names: &Vec<String>) -> (list: Vec<String>)
    ensures
        texts(list@) == lowered(texts(names@)),
{
    let mut list: Vec<String> = Vec::new();
    let ghost goal = lowered(texts(names@));
    for i in 0..names.len()
        invariant
            goal == lowered(texts(names@)),
            list@.len() == i,
            forall|k: int| 0 <= k < i ==> (#[trigger] list@[k])@ == goal[k],
    {
        assert(goal[i as int] == lowercase_of(names@[i as int]@));
        list.push(lowercase(names[i].as_str()));
    }
    assert(texts(list@) =~= goal);
    list
}

/// The places of the names that are among those wanted, where both are lowercase already.
pub fn matching(names: &Vec<String>, wanted: &Vec<String>) -> (places: Vec<usize>)
    ensures
        places@ == chosen(texts(names@), texts(wanted@), names@.len()),
{
    let ghost all = texts(names@);
    let ghost asked = texts(wanted@);
    let mut places: Vec<usize> = Vec::new();
    for i in 0..names.len()
        invariant
            all == texts(names@),
            asked == texts(wanted@),
            places@ == chosen(all, asked, i as nat),
    {
        let mut found: bool = wanted.len() == 0;
        for j in 0..wanted.len()
            invariant
                i < names.len(),
                all == texts(names@),
                asked == texts(wanted@),
                found == (wanted@.len() == 0 || exists|k: int|
                    0 <= k < j && #[trigger] asked[k] == all[i as int]),
        {
            assert(asked[j as int] == wanted@[j as int]@);
            assert(all[i as int] == names@[i as int]@);
            if wanted[j] == names[i] {
                found = true;
            }
        }
        assert(found == is_chosen(all, asked, i as int));
        if found {
            places.push(i);
        }
    }
    places
}

/// The names of the satellites.
pub open spec fn satellite_names(satellites: Seq<SatelliteConfig>) -> Seq<Seq<char>> {
    satellites.map_values(|s: SatelliteConfig| s.name@)
}

impl ConstellationConfig {
    /// The places of the satellites to sample.
    pub fn choose_satellites(&self, wanted: &Vec<String>) -> (places: Vec<usize>)
        ensures
            places@ == chosen(
                lowered(satellite_names(self.satellites@)),
                lowered(texts(wanted@)),
                self.satellites@.len(),
            ),
    {
        let ghost all = satellite_names(self.satellites@);
        let mut names: Vec<String> = Vec::new();
        for i in 0..self.satellites.len()
            invariant
                all == satellite_names(self.satellites@),
                names@.len() == i,
                forall|k: int| 0 <= k < i ==> (#[trigger] names@[k])@ == lowercase_of(all[k]),
        {
            assert(all[i as int] == self.satellites@[i as int].name@);
            names.push(lowercase(self.satellites[i].name.as_str()));
        }
        assert(texts(names@) =~= lowered(all));
        let wanted_lower = lower_all(wanted);
        matching(&names, &wanted_lower)
    }
}

/// Every how many cycles a snapshot is made.
pub fn snapshot_interval(no_delta: bool, snapshot_every: u64) -> (interval: u64)
    ensures
        interval == if no_delta {
            1
        } else {
            snapshot_every
        },
{
    if no_delta {
        1
    } else {
        snapshot_every
    }
}

/// The name of a noise channel's octave. The first octave has the channel's own name.
pub open spec fn octave_name(channel: Seq<char>, octave: nat) -> Seq<char> {
    if octave == 0 {
        channel
    } else {
        channel + ".oct"@ + decimal(octave)
    }
}

/// The name of a noise channel's octave.
pub fn octave_channel(channel: &str, octave: u64) -> (name: String)
    ensures
        name@ == octave_name(channel@, octave as nat),
{
    let mut name = channel.to_owned();
    if octave > 0 {
        name.append(".oct");
        push_decimal(&mut name, octave);
    }
    name
}

/// Different octaves of a channel have different names, so that their noise is not the same.
pub proof fn octaves_are_told_apart(channel: Seq<char>, a: nat, b: nat)
    requires
        octave_name(channel, a) == octave_name(channel, b),
    ensures
        a == b,
{
    reveal_strlit(".oct");
    let len = channel.len() as int;
    if a == 0 || b == 0 {
        assert(octave_name(channel, a).len() == octave_name(channel, b).len());
    } else {
        assert(octave_name(channel, a).skip(len + 4) =~= decimal(a));
        assert(octave_name(channel, b).skip(len + 4) =~= decimal(b));
        decimal_is_injective(a, b);
    }
}

/// With nothing asked for, every satellite is chosen.
pub proof fn no_filter_chooses_all(names: Seq<Seq<char>>, n: nat)
    requires
        n <= usize::MAX,
    ensures
        chosen(names, Seq::empty(), n) == Seq::new(n, |i: int| i as usize),
    decreases n,
{
    if n > 0 {
        no_filter_chooses_all(names, (n - 1) as nat);
    }
    assert(chosen(names, Seq::empty(), n) =~= Seq::new(n, |i: int| i as usize));
}

} // verus!
