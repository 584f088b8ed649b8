//! Weather tiles: the icon of a `wttr.in` condition code and the texts shown
//! for temperature and wind.
use vstd::prelude::*;
use crate::text::{lowercase, str_eq, to_lowercase};

verus! {

/// A weather tile for one location.
pub struct WeatherLauncher {
    pub location: String,
}

/// Icon name shown for a `wttr.in` weather code.
pub open spec fn weather_icon(code: Seq<char>) -> Seq<char> {
    if code == "113"@ {
        "weather-clear"@
    } else if code == "116"@ {
        "weather-few-clouds"@
    } else if code == "119"@ || code == "122"@ {
        "weather-many-clouds"@
    } else if code == "143"@ || code == "248"@ || code == "260"@ {
        "weather-mist"@
    } else if code == "176"@ || code == "263"@ || code == "299"@ || code == "305"@ || code
        == "353"@ || code == "356"@ {
        "weather-showers"@
    } else if code == "179"@ || code == "362"@ || code == "365"@ || code == "374"@ {
        "weather-freezing-scattered-rain-storm"@
    } else if code == "182"@ || code == "185"@ || code == "281"@ || code == "284"@ || code
        == "311"@ || code == "314"@ || code == "317"@ || code == "350"@ || code == "377"@ {
        "weather-freezing-scattered-rain"@
    } else if code == "200"@ || code == "302"@ || code == "308"@ || code == "359"@ || code
        == "386"@ || code == "389"@ {
        "weather-storm"@
    } else if code == "227"@ || code == "320"@ {
        "weather-snow-scattered-day"@
    } else if code == "230"@ || code == "329"@ || code == "332"@ || code == "338"@ {
        "weather-snow-storm"@
    } else if code == "323"@ || code == "326"@ || code == "335"@ || code == "368"@ || code
        == "371"@ || code == "392"@ || code == "395"@ {
        "weather-snow-scattered-storm"@
    } else if code == "266"@ || code == "293"@ || code == "296"@ {
        "weather-showers-scattered"@
    } else {
        "weather-none-available"@
    }
}

impl WeatherLauncher {
    /// The icon for a weather code; unknown codes show `weather-none-available`.
    pub fn match_weather_code(code: &str) -> (icon: String)
        ensures
            icon@ == weather_icon(code@),
    {
        let icon = if str_eq(code, "113") {
            "weather-clear"
        } else if str_eq(code, "116") {
            "weather-few-clouds"
        } else if str_eq(code, "119") || str_eq(code, "122") {
            "weather-many-clouds"
        } else if str_eq(code, "143") || str_eq(code, "248") || str_eq(code, "260") {
            "weather-mist"
        } else if str_eq(code, "176") || str_eq(code, "263") || str_eq(code, "299") || str_eq(
            code,
            "305",
        ) || str_eq(code, "353") || str_eq(code, "356") {
            "weather-showers"
        } else if str_eq(code, "179") || str_eq(code, "362") || str_eq(code, "365") || str_eq(
            code,
            "374",
        ) {
            "weather-freezing-scattered-rain-storm"
        } else if str_eq(code, "182") || str_eq(code, "185") || str_eq(code, "281") || str_eq(
            code,
            "284",
        ) || str_eq(code, "311") || str_eq(code, "314") || str_eq(code, "317") || str_eq(
            code,
            "350",
        ) || str_eq(code, "377") {
            "weather-freezing-scattered-rain"
        } else if str_eq(code, "200") || str_eq(code, "302") || str_eq(code, "308") || str_eq(
            code,
            "359",
        ) || str_eq(code, "386") || str_eq(code, "389") {
            "weather-storm"
        } else if str_eq(code, "227") || str_eq(code, "320") {
            "weather-snow-scattered-day"
        } else if str_eq(code, "230") || str_eq(code, "329") || str_eq(code, "332") || str_eq(
            code,
            "338",
        ) {
            "weather-snow-storm"
        } else if str_eq(code, "323") || str_eq(code, "326") || str_eq(code, "335") || str_eq(
            code,
            "368",
        ) || str_eq(code, "371") || str_eq(code, "392") || str_eq(code, "395") {
            "weather-snow-scattered-storm"
        } else if str_eq(code, "266") || str_eq(code, "293") || str_eq(code, "296") {
            "weather-showers-scattered"
        } else {
            "weather-none-available"
        };
        String::from_str(icon)
    }
}

/// Length units that make wind speeds show in miles per hour.
pub open spec fn is_imperial(unit: Seq<char>) -> bool {
    unit == "inches"@ || unit == "inch"@ || unit == "in"@ || unit == "feet"@ || unit == "foot"@
        || unit == "ft"@ || unit == "yards"@ || unit == "yard"@ || unit == "yd"@ || unit
        == "miles"@ || unit == "mile"@ || unit == "mi"@
}

/// Whether the configured length unit, in any case, is an imperial one.
pub fn uses_imperial(lengths: &str) -> (r: bool)
    ensures
        r == is_imperial(lowercase(lengths@)),
{
    let l = to_lowercase(lengths);
    let u = l.as_str();
    str_eq(u, "inches") || str_eq(u, "inch") || str_eq(u, "in") || str_eq(u, "feet") || str_eq(
        u,
        "foot",
    ) || str_eq(u, "ft") || str_eq(u, "yards") || str_eq(u, "yard") || str_eq(u, "yd") || str_eq(
        u,
        "miles",
    ) || str_eq(u, "mile") || str_eq(u, "mi")
}

/// The arrow for one of the eight wind sectors, clockwise from north.
pub open spec fn wind_arrow_spec(sector: int) -> Seq<char> {
    if sector == 0 {
        "↑"@
    } else if sector == 1 {
        "↗"@
    } else if sector == 2 {
        "→"@
    } else if sector == 3 {
        "↘"@
    } else if sector == 4 {
        "↓"@
    } else if sector == 5 {
        "↙"@
    } else if sector == 6 {
        "←"@
    } else {
        "↖"@
    }
}

/// The arrow for a wind sector; there are eight of them.
pub fn wind_arrow(sector: usize) -> (r: Option<String>)
    ensures
        match r {
            Some(a) => sector < 8 && a@ == wind_arrow_spec(sector as int),
            None => sector >= 8,
        },
{
    if sector >= 8 {
        return None;
    }
    let a = if sector == 0 {
        "↑"
    } else if sector == 1 {
        "↗"
    } else if sector == 2 {
        "→"
    } else if sector == 3 {
        "↘"
    } else if sector == 4 {
        "↓"
    } else if sector == 5 {
        "↙"
    } else if sector == 6 {
        "←"
    } else {
        "↖"
    };
    Some(String::from_str(a))
}

/// The temperature text: Fahrenheit where the configured unit is `t` or `T`,
/// Celsius otherwise.
pub open spec fn temperature_text(unit: Seq<char>, temp_f: Seq<char>, temp_c: Seq<char>) -> Seq<
    char,
> {
    if unit == "t"@ || unit == "T"@ {
        temp_f + "°F"@
    } else {
        temp_c + "°C"@
    }
}

/// The wind text: the arrow, the speed and its unit.
pub open spec fn wind_text(arrow: Seq<char>, imperial: bool, miles: Seq<char>, kmph: Seq<char>) -> Seq<
    char,
> {
    if imperial {
        arrow + miles + "mph"@
    } else {
        arrow + kmph + "km/h"@
    }
}

/// The texts of a weather tile: temperature, icon and wind, from the values
/// of the current condition and the configured units.
pub fn weather_texts(
    temperature_unit: &str,
    length_unit: &str,
    temp_f: &str,
    temp_c: &str,
    code: &str,
    arrow: &str,
    miles: &str,
    kmph: &str,
) -> (r: (String, String, String))
    ensures
        r.0@ == temperature_text(temperature_unit@, temp_f@, temp_c@),
        r.1@ == weather_icon(code@),
        r.2@ == wind_text(arrow@, is_imperial(lowercase(length_unit@)), miles@, kmph@),
{
    let mut temp = String::new();
    if str_eq(temperature_unit, "t") || str_eq(temperature_unit, "T") {
        temp.append(temp_f);
        temp.append("°F");
    } else {
        temp.append(temp_c);
        temp.append("°C");
    }
    let icon = WeatherLauncher::match_weather_code(code);
    let mut wind = String::from_str(arrow);
    if uses_imperial(length_unit) {
        wind.append(miles);
        wind.append("mph");
    } else {
        wind.append(kmph);
        wind.append("km/h");
    }
    (temp, icon, wind)
}

} // verus!
