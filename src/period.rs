//! One hour of the forecast, and the policy that says whether it is a good
//! hour for a bike ride.
use vstd::prelude::*;

use crate::wind::{parse_wind_speed, wind_speed_of};

verus! {

/// Precipitation chances from this percentage up rule an hour out.
pub const PRECIPITATION_LIMIT_PERCENT: i64 = 25;

/// Lowest temperature (°F) of the mild band.
pub const MILD_LOW_F: i64 = 50;

/// Highest temperature (°F) of the mild band; the warm band starts above it.
pub const MILD_HIGH_F: i64 = 65;

/// Highest temperature (°F) of the warm band.
pub const WARM_HIGH_F: i64 = 83;

/// In the mild band the wind must stay below this speed (mph).
pub const MILD_WIND_LIMIT_MPH: u8 = 13;

/// In the warm band the wind may reach this speed (mph), and no more.
pub const WARM_WIND_LIMIT_MPH: u8 = 18;

/// One forecast period as the forecast service describes it.
pub struct ForecastPeriod {
    /// RFC 3339 timestamp with offset, e.g. `2023-06-01T09:00:00-04:00`.
    pub start_time: String,
    pub end_time: String,
    pub is_daytime: bool,
    pub temperature: i64,
    /// Chance of precipitation in percent; `None` where the forecast has none.
    pub precipitation_probability: Option<i64>,
    /// Free text such as `"12 mph"` or `"10 to 15 mph"`.
    pub wind_speed: String,
}

/// The chance of rain is known and below the limit.
pub open spec fn dry_enough(precipitation: Option<i64>) -> bool {
    match precipitation {
        Some(v) => v < PRECIPITATION_LIMIT_PERCENT,
        None => false,
    }
}

/// The wind is acceptable for the temperature: below 13 mph from 50 °F to
/// 65 °F, at most 18 mph above 65 °F up to 83 °F, and no wind is acceptable
/// outside 50 °F to 83 °F.
pub open spec fn wind_ok_at(temperature: i64, wind: u8) -> bool {
    if MILD_LOW_F <= temperature && temperature <= MILD_HIGH_F {
        wind < MILD_WIND_LIMIT_MPH
    } else if MILD_HIGH_F < temperature && temperature <= WARM_HIGH_F {
        wind <= WARM_WIND_LIMIT_MPH
    } else {
        false
    }
}

/// A good hour for a ride: daylight, little chance of rain, and a wind that
/// the temperature allows.
pub open spec fn bikeable(p: ForecastPeriod) -> bool {
    &&& p.is_daytime
    &&& dry_enough(p.precipitation_probability)
    &&& wind_ok_at(p.temperature, wind_speed_of(p.wind_speed@))
}

/// Whether the period is a good hour for a ride.
pub fn is_bikeable(p: &ForecastPeriod) -> (r: bool)
    ensures
        r == bikeable(*p),
{
    if !p.is_daytime {
        return false;
    }
    let dry = match p.precipitation_probability {
        Some(v) => v < PRECIPITATION_LIMIT_PERCENT,
        None => false,
    };
    if !dry {
        return false;
    }
    let t = p.temperature;
    if MILD_LOW_F <= t && t <= MILD_HIGH_F {
        parse_wind_speed(p.wind_speed.as_str()) < MILD_WIND_LIMIT_MPH
    } else if MILD_HIGH_F < t && t <= WARM_HIGH_F {
        parse_wind_speed(p.wind_speed.as_str()) <= WARM_WIND_LIMIT_MPH
    } else {
        false
    }
}

} // verus!
