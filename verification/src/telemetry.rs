//! What a satellite's category fixes of its telemetry.
use crate::satgen::SatelliteCategory;
use vstd::prelude::*;

verus! {

/// The figures of a category.
#[derive(Clone, Copy, PartialEq, Eq, Structural, Debug)]
pub struct Figures {
    /// Carrier frequency in megahertz.
    pub carrier_mhz: u32,
    /// Power of the solar panels in full sun, in watts.
    pub max_power_w: u32,
    /// Temperature in the sun, in degrees Celsius.
    pub hot_c: i32,
    /// Temperature in the shade, in degrees Celsius.
    pub cold_c: i32,
    /// Throughput over a good link, in megabits per second.
    pub max_throughput_mbps: u32,
}

/// The figures of a category.
pub open spec fn figures_of(category: SatelliteCategory) -> Figures {
    match category {
        SatelliteCategory::Communications => Figures {
            carrier_mhz: 12_000,
            max_power_w: 3000,
            hot_c: 55,
            cold_c: (-25) as i32,
            max_throughput_mbps: 150,
        },
        SatelliteCategory::EarthObservation => Figures {
            carrier_mhz: 8200,
            max_power_w: 800,
            hot_c: 45,
            cold_c: (-40) as i32,
            max_throughput_mbps: 800,
        },
        SatelliteCategory::Navigation => Figures {
            carrier_mhz: 1575,
            max_power_w: 1500,
            hot_c: 45,
            cold_c: (-40) as i32,
            max_throughput_mbps: 2,
        },
        SatelliteCategory::Weather => Figures {
            carrier_mhz: 8000,
            max_power_w: 1200,
            hot_c: 45,
            cold_c: (-40) as i32,
            max_throughput_mbps: 20,
        },
        SatelliteCategory::Science => Figures {
            carrier_mhz: 2250,
            max_power_w: 600,
            hot_c: 35,
            cold_c: (-60) as i32,
            max_throughput_mbps: 10,
        },
    }
}

/// The figures of a category.
pub fn figures(category: SatelliteCategory) -> (f: Figures)
    ensures
        f == figures_of(category),
{
    let (carrier_mhz, max_power_w, max_throughput_mbps): (u32, u32, u32) = match category {
        SatelliteCategory::Communications => (12_000, 3000, 150),
        SatelliteCategory::EarthObservation => (8200, 800, 800),
        SatelliteCategory::Navigation => (1575, 1500, 2),
        SatelliteCategory::Weather => (8000, 1200, 20),
        SatelliteCategory::Science => (2250, 600, 10),
    };
    let (hot_c, cold_c): (i32, i32) = match category {
        SatelliteCategory::Communications => (55, -25),
        SatelliteCategory::Science => (35, -60),
        _ => (45, -40),
    };
    Figures { carrier_mhz, max_power_w, hot_c, cold_c, max_throughput_mbps }
}

/// Every category is warmer in the sun than in the shade.
pub proof fn sun_warms(category: SatelliteCategory)
    ensures
        figures_of(category).cold_c < figures_of(category).hot_c,
{
}

} // verus!
