//! Unit conversions: reading a query such as `5 km to mi`, and the units
//! and currencies the calculator knows. The arithmetic on the amounts is
//! done by the caller.
use vstd::prelude::*;
use vstd::string::StringSliceAdditionalSpecFns;
use crate::config::ConfigUnits;
use crate::regex_match::{captures, group, group_at, opt_views, regex_captures};
use crate::text::{contains, contains_str, lowercase, str_eq, to_lowercase, trim, trim_str};

verus! {

/// The calculator tile, with what it may compute.
pub struct CalculatorLauncher {
    pub capabilities: Option<Vec<String>>,
}

/// The calculator.
pub struct Calculator;

/// Lengths, in meters.
pub struct Length;

/// Weights, in kilograms.
pub struct Weight;

/// Volumes, in liters.
pub struct Volume;

/// A currency the calculator converts.
#[derive(PartialEq, Eq, Structural, Clone, Copy)]
pub enum CurrencyCode {
    Usd,
    Eur,
    Jpy,
    Gbp,
    Aud,
    Cad,
    Chf,
    Cny,
    Nzd,
    Sek,
    Nok,
    Mxn,
    Sgd,
    Hkd,
    Krw,
}

/// A unit the calculator converts between.
#[derive(PartialEq, Eq, Structural, Clone, Copy)]
pub enum Unit {
    Kilometer,
    Meter,
    Centimeter,
    Millimeter,
    Micrometer,
    Inch,
    Feet,
    Yard,
    Mile,
    Kilogram,
    Gram,
    Milligram,
    Pound,
    Ounce,
    Tablespoon,
    Teaspoon,
    Pinch,
    Dash,
    Liter,
    Milliliter,
    CubicMeter,
    Gallon,
    Quart,
    Pint,
    Cup,
    FluidOunce,
    Currency(CurrencyCode),
}

/// The length unit a lower-case word names.
pub open spec fn length_unit(u: Seq<char>) -> Option<Unit> {
    if u == "kilometers"@ || u == "kilometer"@ || u == "kilos"@ || u == "km"@ {
        Some(Unit::Kilometer)
    } else if u == "meters"@ || u == "meter"@ || u == "m"@ {
        Some(Unit::Meter)
    } else if u == "centimeters"@ || u == "centimeter"@ || u == "cm"@ || u == "cents"@ {
        Some(Unit::Centimeter)
    } else if u == "millimeters"@ || u == "millimeter"@ || u == "mm"@ {
        Some(Unit::Millimeter)
    } else if u == "micrometers"@ || u == "micrometer"@ || u == "um"@ || u == "µm"@ {
        Some(Unit::Micrometer)
    } else if u == "inches"@ || u == "inch"@ || u == "in"@ {
        Some(Unit::Inch)
    } else if u == "feet"@ || u == "foot"@ || u == "ft"@ {
        Some(Unit::Feet)
    } else if u == "yards"@ || u == "yard"@ || u == "yd"@ {
        Some(Unit::Yard)
    } else if u == "miles"@ || u == "mile"@ || u == "mi"@ {
        Some(Unit::Mile)
    } else {
        None
    }
}

/// The weight unit a lower-case word names.
pub open spec fn weight_unit(u: Seq<char>) -> Option<Unit> {
    if u == "kilograms"@ || u == "kilogram"@ || u == "kg"@ {
        Some(Unit::Kilogram)
    } else if u == "grams"@ || u == "gram"@ || u == "g"@ {
        Some(Unit::Gram)
    } else if u == "milligrams"@ || u == "milligram"@ || u == "mg"@ {
        Some(Unit::Milligram)
    } else if u == "pounds"@ || u == "pound"@ || u == "lbs"@ {
        Some(Unit::Pound)
    } else if u == "ounces"@ || u == "ounce"@ || u == "oz"@ {
        Some(Unit::Ounce)
    } else if u == "tablespoons"@ || u == "tablespoon"@ || u == "tbsp"@ {
        Some(Unit::Tablespoon)
    } else if u == "teaspoons"@ || u == "teaspoon"@ || u == "tsp"@ {
        Some(Unit::Teaspoon)
    } else if u == "pinch"@ || u == "pinches"@ {
        Some(Unit::Pinch)
    } else if u == "dash"@ || u == "dashes"@ {
        Some(Unit::Dash)
    } else {
        None
    }
}

/// The volume unit a lower-case word names.
pub open spec fn volume_unit(u: Seq<char>) -> Option<Unit> {
    if u == "liters"@ || u == "liter"@ || u == "l"@ {
        Some(Unit::Liter)
    } else if u == "milliliters"@ || u == "milliliter"@ || u == "ml"@ {
        Some(Unit::Milliliter)
    } else if u == "cubicmeters"@ || u == "cubicmeter"@ || u == "m3"@ {
        Some(Unit::CubicMeter)
    } else if u == "gallons"@ || u == "gallon"@ || u == "gal"@ {
        Some(Unit::Gallon)
    } else if u == "quarts"@ || u == "quart"@ || u == "qt"@ {
        Some(Unit::Quart)
    } else if u == "pints"@ || u == "pint"@ || u == "pt"@ {
        Some(Unit::Pint)
    } else if u == "cups"@ || u == "cup"@ {
        Some(Unit::Cup)
    } else if u == "fluidounces"@ || u == "fluidounce"@ || u == "fl oz"@ || u == "oz"@ {
        Some(Unit::FluidOunce)
    } else {
        None
    }
}

/// The currency a lower-case, trimmed word names.
pub open spec fn currency_of(u: Seq<char>) -> Option<CurrencyCode> {
    if u == "usd"@ || u == "dollar"@ || u == "us dollar"@ || u == "bucks"@ {
        Some(CurrencyCode::Usd)
    } else if u == "eur"@ || u == "euro"@ || u == "euros"@ || u == "european euro"@ {
        Some(CurrencyCode::Eur)
    } else if u == "jpy"@ || u == "yen"@ || u == "japanese yen"@ {
        Some(CurrencyCode::Jpy)
    } else if u == "gbp"@ || u == "pound"@ || u == "british pound"@ || u == "pound sterling"@ {
        Some(CurrencyCode::Gbp)
    } else if u == "aud"@ || u == "australian dollar"@ || u == "aussie dollar"@ || u == "aussie"@ {
        Some(CurrencyCode::Aud)
    } else if u == "cad"@ || u == "canadian dollar"@ || u == "loonie"@ {
        Some(CurrencyCode::Cad)
    } else if u == "chf"@ || u == "swiss franc"@ || u == "franc"@ {
        Some(CurrencyCode::Chf)
    } else if u == "cny"@ || u == "chinese yuan"@ || u == "renminbi"@ || u == "yuan"@ {
        Some(CurrencyCode::Cny)
    } else if u == "nzd"@ || u == "new zealand dollar"@ || u == "kiwi"@ {
        Some(CurrencyCode::Nzd)
    } else if u == "sek"@ || u == "swedish krona"@ || u == "krona"@ {
        Some(CurrencyCode::Sek)
    } else if u == "nok"@ || u == "norwegian krone"@ || u == "krone"@ {
        Some(CurrencyCode::Nok)
    } else if u == "mxn"@ || u == "mexican peso"@ || u == "peso"@ {
        Some(CurrencyCode::Mxn)
    } else if u == "sgd"@ || u == "singapore dollar"@ {
        Some(CurrencyCode::Sgd)
    } else if u == "hkd"@ || u == "hong kong dollar"@ {
        Some(CurrencyCode::Hkd)
    } else if u == "krw"@ || u == "south korean won"@ || u == "won"@ {
        Some(CurrencyCode::Krw)
    } else {
        None
    }
}

/// The fifteen currency codes.
pub open spec fn is_currency_code(u: Seq<char>) -> bool {
    u == "usd"@ || u == "eur"@ || u == "jpy"@ || u == "gbp"@ || u == "aud"@ || u == "cad"@ || u
        == "chf"@ || u == "cny"@ || u == "nzd"@ || u == "sek"@ || u == "nok"@ || u == "mxn"@ || u
        == "sgd"@ || u == "hkd"@ || u == "krw"@
}

pub open spec fn currency_symbol_spec(c: CurrencyCode) -> Seq<char> {
    match c {
        CurrencyCode::Usd => "$"@,
        CurrencyCode::Eur => "€"@,
        CurrencyCode::Jpy => "¥"@,
        CurrencyCode::Gbp => "£"@,
        CurrencyCode::Aud => "A$"@,
        CurrencyCode::Cad => "C$"@,
        CurrencyCode::Chf => "CHF"@,
        CurrencyCode::Cny => "¥"@,
        CurrencyCode::Nzd => "NZ$"@,
        CurrencyCode::Sek => "kr"@,
        CurrencyCode::Nok => "kr"@,
        CurrencyCode::Mxn => "Mex$"@,
        CurrencyCode::Sgd => "S$"@,
        CurrencyCode::Hkd => "HK$"@,
        CurrencyCode::Krw => "₩"@,
    }
}

impl Length {
    /// The length unit `unit` names, in any case.
    pub fn match_unit(unit: &str) -> (r: Option<Unit>)
        ensures
            r == length_unit(lowercase(unit@)),
    {
        let l = to_lowercase(unit);
        let u = l.as_str();
        if str_eq(u, "kilometers") || str_eq(u, "kilometer") || str_eq(u, "kilos") || str_eq(u, "km") {
            Some(Unit::Kilometer)
        } else if str_eq(u, "meters") || str_eq(u, "meter") || str_eq(u, "m") {
            Some(Unit::Meter)
        } else if str_eq(u, "centimeters") || str_eq(u, "centimeter") || str_eq(u, "cm") || str_eq(
            u,
            "cents",
        ) {
            Some(Unit::Centimeter)
        } else if str_eq(u, "millimeters") || str_eq(u, "millimeter") || str_eq(u, "mm") {
            Some(Unit::Millimeter)
        } else if str_eq(u, "micrometers") || str_eq(u, "micrometer") || str_eq(u, "um") || str_eq(
            u,
            "µm",
        ) {
            Some(Unit::Micrometer)
        } else if str_eq(u, "inches") || str_eq(u, "inch") || str_eq(u, "in") {
            Some(Unit::Inch)
        } else if str_eq(u, "feet") || str_eq(u, "foot") || str_eq(u, "ft") {
            Some(Unit::Feet)
        } else if str_eq(u, "yards") || str_eq(u, "yard") || str_eq(u, "yd") {
            Some(Unit::Yard)
        } else if str_eq(u, "miles") || str_eq(u, "mile") || str_eq(u, "mi") {
            Some(Unit::Mile)
        } else {
            None
        }
    }
}

impl Weight {
    /// The weight unit `unit` names, in any case.
    pub fn match_unit(unit: &str) -> (r: Option<Unit>)
        ensures
            r == weight_unit(lowercase(unit@)),
    {
        let l = to_lowercase(unit);
        let u = l.as_str();
        if str_eq(u, "kilograms") || str_eq(u, "kilogram") || str_eq(u, "kg") {
            Some(Unit::Kilogram)
        } else if str_eq(u, "grams") || str_eq(u, "gram") || str_eq(u, "g") {
            Some(Unit::Gram)
        } else if str_eq(u, "milligrams") || str_eq(u, "milligram") || str_eq(u, "mg") {
            Some(Unit::Milligram)
        } else if str_eq(u, "pounds") || str_eq(u, "pound") || str_eq(u, "lbs") {
            Some(Unit::Pound)
        } else if str_eq(u, "ounces") || str_eq(u, "ounce") || str_eq(u, "oz") {
            Some(Unit::Ounce)
        } else if str_eq(u, "tablespoons") || str_eq(u, "tablespoon") || str_eq(u, "tbsp") {
            Some(Unit::Tablespoon)
        } else if str_eq(u, "teaspoons") || str_eq(u, "teaspoon") || str_eq(u, "tsp") {
            Some(Unit::Teaspoon)
        } else if str_eq(u, "pinch") || str_eq(u, "pinches") {
            Some(Unit::Pinch)
        } else if str_eq(u, "dash") || str_eq(u, "dashes") {
            Some(Unit::Dash)
        } else {
            None
        }
    }
}

impl Volume {
    /// The volume unit `unit` names, in any case.
    pub fn match_unit(unit: &str) -> (r: Option<Unit>)
        ensures
            r == volume_unit(lowercase(unit@)),
    {
        let l = to_lowercase(unit);
        let u = l.as_str();
        if str_eq(u, "liters") || str_eq(u, "liter") || str_eq(u, "l") {
            Some(Unit::Liter)
        } else if str_eq(u, "milliliters") || str_eq(u, "milliliter") || str_eq(u, "ml") {
            Some(Unit::Milliliter)
        } else if str_eq(u, "cubicmeters") || str_eq(u, "cubicmeter") || str_eq(u, "m3") {
            Some(Unit::CubicMeter)
        } else if str_eq(u, "gallons") || str_eq(u, "gallon") || str_eq(u, "gal") {
            Some(Unit::Gallon)
        } else if str_eq(u, "quarts") || str_eq(u, "quart") || str_eq(u, "qt") {
            Some(Unit::Quart)
        } else if str_eq(u, "pints") || str_eq(u, "pint") || str_eq(u, "pt") {
            Some(Unit::Pint)
        } else if str_eq(u, "cups") || str_eq(u, "cup") {
            Some(Unit::Cup)
        } else if str_eq(u, "fluidounces") || str_eq(u, "fluidounce") || str_eq(u, "fl oz") || str_eq(
            u,
            "oz",
        ) {
            Some(Unit::FluidOunce)
        } else {
            None
        }
    }
}

/// Exchange rates, looked up by currency.
pub struct Currency;

impl Currency {
    /// Whether `unit` is one of the fifteen currency codes, in any case.
    pub fn unit_exists(unit: &str) -> (r: bool)
        ensures
            r == is_currency_code(lowercase(unit@)),
    {
        let l = to_lowercase(unit);
        let u = l.as_str();
        str_eq(u, "usd") || str_eq(u, "eur") || str_eq(u, "jpy") || str_eq(u, "gbp") || str_eq(
            u,
            "aud",
        ) || str_eq(u, "cad") || str_eq(u, "chf") || str_eq(u, "cny") || str_eq(u, "nzd")
            || str_eq(u, "sek") || str_eq(u, "nok") || str_eq(u, "mxn") || str_eq(u, "sgd")
            || str_eq(u, "hkd") || str_eq(u, "krw")
    }

    /// The currency `unit` names, in any case and without surrounding
    /// whitespace.
    pub fn match_unit(unit: &str) -> (r: Option<CurrencyCode>)
        ensures
            r == currency_of(trim(lowercase(unit@))),
    {
        let l = to_lowercase(unit);
        let t = trim_str(l.as_str());
        let u = t.as_str();
        if str_eq(u, "usd") || str_eq(u, "dollar") || str_eq(u, "us dollar") || str_eq(u, "bucks") {
            Some(CurrencyCode::Usd)
        } else if str_eq(u, "eur") || str_eq(u, "euro") || str_eq(u, "euros") || str_eq(
            u,
            "european euro",
        ) {
            Some(CurrencyCode::Eur)
        } else if str_eq(u, "jpy") || str_eq(u, "yen") || str_eq(u, "japanese yen") {
            Some(CurrencyCode::Jpy)
        } else if str_eq(u, "gbp") || str_eq(u, "pound") || str_eq(u, "british pound") || str_eq(
            u,
            "pound sterling",
        ) {
            Some(CurrencyCode::Gbp)
        } else if str_eq(u, "aud") || str_eq(u, "australian dollar") || str_eq(u, "aussie dollar")
            || str_eq(u, "aussie") {
            Some(CurrencyCode::Aud)
        } else if str_eq(u, "cad") || str_eq(u, "canadian dollar") || str_eq(u, "loonie") {
            Some(CurrencyCode::Cad)
        } else if str_eq(u, "chf") || str_eq(u, "swiss franc") || str_eq(u, "franc") {
            Some(CurrencyCode::Chf)
        } else if str_eq(u, "cny") || str_eq(u, "chinese yuan") || str_eq(u, "renminbi") || str_eq(
            u,
            "yuan",
        ) {
            Some(CurrencyCode::Cny)
        } else if str_eq(u, "nzd") || str_eq(u, "new zealand dollar") || str_eq(u, "kiwi") {
            Some(CurrencyCode::Nzd)
        } else if str_eq(u, "sek") || str_eq(u, "swedish krona") || str_eq(u, "krona") {
            Some(CurrencyCode::Sek)
        } else if str_eq(u, "nok") || str_eq(u, "norwegian krone") || str_eq(u, "krone") {
            Some(CurrencyCode::Nok)
        } else if str_eq(u, "mxn") || str_eq(u, "mexican peso") || str_eq(u, "peso") {
            Some(CurrencyCode::Mxn)
        } else if str_eq(u, "sgd") || str_eq(u, "singapore dollar") {
            Some(CurrencyCode::Sgd)
        } else if str_eq(u, "hkd") || str_eq(u, "hong kong dollar") {
            Some(CurrencyCode::Hkd)
        } else if str_eq(u, "krw") || str_eq(u, "south korean won") || str_eq(u, "won") {
            Some(CurrencyCode::Krw)
        } else {
            None
        }
    }
}

/// The unit a word names for the kind of quantity (`weights`, `volumes`,
/// `currencies`, anything else meaning lengths); a currency counts only
/// where it is one of the codes and the rates are loaded.
pub open spec fn measurement_unit(unit: Seq<char>, kind: Seq<char>, rates_loaded: bool) -> Option<
    Unit,
> {
    if kind == "weights"@ {
        weight_unit(lowercase(unit))
    } else if kind == "volumes"@ {
        volume_unit(lowercase(unit))
    } else if kind == "currencies"@ {
        if is_currency_code(lowercase(unit)) && rates_loaded {
            match currency_of(trim(lowercase(unit))) {
                Some(c) => Some(Unit::Currency(c)),
                None => None,
            }
        } else {
            None
        }
    } else {
        length_unit(lowercase(unit))
    }
}

pub struct Measurements;

impl Measurements {
    pub fn match_unit(unit: &str, unit_str: &str, rates_loaded: bool) -> (r: Option<Unit>)
        ensures
            r == measurement_unit(unit@, unit_str@, rates_loaded),
    {
        if str_eq(unit_str, "weights") {
            Weight::match_unit(unit)
        } else if str_eq(unit_str, "volumes") {
            Volume::match_unit(unit)
        } else if str_eq(unit_str, "currencies") {
            if Currency::unit_exists(unit) && rates_loaded {
                match Currency::match_unit(unit) {
                    Some(c) => Some(Unit::Currency(c)),
                    None => None,
                }
            } else {
                None
            }
        } else {
            Length::match_unit(unit)
        }
    }
}

/// The configured unit that a bare amount is converted to.
pub open spec fn default_target(kind: Seq<char>, units: ConfigUnits) -> Seq<char> {
    if kind == "weights"@ {
        lowercase(units.weights@)
    } else if kind == "volumes"@ {
        lowercase(units.volumes@)
    } else if kind == "currencies"@ {
        lowercase(units.currency@)
    } else {
        lowercase(units.lengths@)
    }
}

/// A conversion to compute: the amount as written and the two units.
pub struct Conversion {
    pub amount: String,
    pub from: Unit,
    pub to: Unit,
}

/// The pattern of a full conversion, `<amount> <unit> in|to <unit>`.
pub const FULL_PATTERN: &'static str = "(?i)(\\d+(?:\\.\\d+)?)\\s*([a-zA-Z]+)\\s*(in|to)\\s*([a-zA-Z]+)";

/// The pattern of a bare amount with a unit.
pub const PART_PATTERN: &'static str = "(?i)(\\d+(?:\\.\\d+)?)\\s*([a-zA-Z]+)";

/// The conversion a query asks for: a full one where it matches, else a
/// bare amount converted to the configured unit. Both units must be known.
pub open spec fn conversion_of(
    keyword: Seq<char>,
    kind: Seq<char>,
    units: ConfigUnits,
    rates_loaded: bool,
) -> Option<(Seq<char>, Unit, Unit)> {
    match regex_captures(FULL_PATTERN@, keyword) {
        Some(Some(g)) => match (group(g, 1), group(g, 2), group(g, 4)) {
            (Some(a), Some(f), Some(t)) => match (
                measurement_unit(lowercase(f), kind, rates_loaded),
                measurement_unit(lowercase(t), kind, rates_loaded),
            ) {
                (Some(fu), Some(tu)) => Some((a, fu, tu)),
                _ => None,
            },
            _ => None,
        },
        Some(None) => match regex_captures(PART_PATTERN@, keyword) {
            Some(Some(g)) => match (group(g, 1), group(g, 2)) {
                (Some(a), Some(f)) => match (
                    measurement_unit(lowercase(f), kind, rates_loaded),
                    measurement_unit(default_target(kind, units), kind, rates_loaded),
                ) {
                    (Some(fu), Some(tu)) => Some((a, fu, tu)),
                    _ => None,
                },
                _ => None,
            },
            _ => None,
        },
        None => None,
    }
}

/// A bare amount with a weight is converted to the configured weight unit:
/// where the query is no full conversion but reads as an amount and a unit,
/// and both that unit and the `weights` setting name weights, the
/// conversion goes from that weight to the configured one.
pub proof fn lemma_bare_weight_to_setting(
    keyword: Seq<char>,
    units: ConfigUnits,
    rates_loaded: bool,
    g: Seq<Option<Seq<char>>>,
    amount: Seq<char>,
    unit: Seq<char>,
)
    requires
        regex_captures(FULL_PATTERN@, keyword) == Some(None::<Seq<Option<Seq<char>>>>),
        regex_captures(PART_PATTERN@, keyword) == Some(Some(g)),
        group(g, 1) == Some(amount),
        group(g, 2) == Some(unit),
        weight_unit(lowercase(lowercase(unit))) is Some,
        weight_unit(lowercase(lowercase(units.weights@))) is Some,
    ensures
        conversion_of(keyword, "weights"@, units, rates_loaded) == Some(
            (
                amount,
                weight_unit(lowercase(lowercase(unit)))->0,
                weight_unit(lowercase(lowercase(units.weights@)))->0,
            ),
        ),
{
}

/// A bare amount with a volume is converted to the configured volume unit.
pub proof fn lemma_bare_volume_to_setting(
    keyword: Seq<char>,
    units: ConfigUnits,
    rates_loaded: bool,
    g: Seq<Option<Seq<char>>>,
    amount: Seq<char>,
    unit: Seq<char>,
)
    requires
        regex_captures(FULL_PATTERN@, keyword) == Some(None::<Seq<Option<Seq<char>>>>),
        regex_captures(PART_PATTERN@, keyword) == Some(Some(g)),
        group(g, 1) == Some(amount),
        group(g, 2) == Some(unit),
        volume_unit(lowercase(lowercase(unit))) is Some,
        volume_unit(lowercase(lowercase(units.volumes@))) is Some,
    ensures
        conversion_of(keyword, "volumes"@, units, rates_loaded) == Some(
            (
                amount,
                volume_unit(lowercase(lowercase(unit)))->0,
                volume_unit(lowercase(lowercase(units.volumes@)))->0,
            ),
        ),
{
    reveal_strlit("weights");
    reveal_strlit("volumes");
    assert("volumes"@ != "weights"@) by {
        assert("volumes"@[0] != "weights"@[0]);
    }
}

/// A bare amount with a length is converted to the configured length unit,
/// lengths being the kind for any kind other than weights, volumes and
/// currencies.
pub proof fn lemma_bare_length_to_setting(
    keyword: Seq<char>,
    kind: Seq<char>,
    units: ConfigUnits,
    rates_loaded: bool,
    g: Seq<Option<Seq<char>>>,
    amount: Seq<char>,
    unit: Seq<char>,
)
    requires
        kind != "weights"@,
        kind != "volumes"@,
        kind != "currencies"@,
        regex_captures(FULL_PATTERN@, keyword) == Some(None::<Seq<Option<Seq<char>>>>),
        regex_captures(PART_PATTERN@, keyword) == Some(Some(g)),
        group(g, 1) == Some(amount),
        group(g, 2) == Some(unit),
        length_unit(lowercase(lowercase(unit))) is Some,
        length_unit(lowercase(lowercase(units.lengths@))) is Some,
    ensures
        conversion_of(keyword, kind, units, rates_loaded) == Some(
            (
                amount,
                length_unit(lowercase(lowercase(unit)))->0,
                length_unit(lowercase(lowercase(units.lengths@)))->0,
            ),
        ),
{
}

impl Calculator {
    /// Reads a conversion query such as `5 km to mi` or `3 lbs`.
    pub fn measurement(keyword: &str, unit_str: &str, units: &ConfigUnits, rates_loaded: bool) -> (r:
        Option<Conversion>)
        ensures
            match r {
                Some(c) => conversion_of(keyword@, unit_str@, *units, rates_loaded) == Some(
                    (c.amount@, c.from, c.to),
                ),
                None => conversion_of(keyword@, unit_str@, *units, rates_loaded) is None,
            },
    {
        match captures(FULL_PATTERN, keyword) {
            None => None,
            Some(Some(g)) => {
                let a = group_at(&g, 1);
                let f = group_at(&g, 2);
                let t = group_at(&g, 4);
                match (a, f, t) {
                    (Some(a), Some(f), Some(t)) => {
                        let fl = to_lowercase(f.as_str());
                        let tl = to_lowercase(t.as_str());
                        match (
                            Measurements::match_unit(fl.as_str(), unit_str, rates_loaded),
                            Measurements::match_unit(tl.as_str(), unit_str, rates_loaded),
                        ) {
                            (Some(fu), Some(tu)) => Some(Conversion { amount: a, from: fu, to: tu }),
                            _ => None,
                        }
                    },
                    _ => None,
                }
            },
            Some(None) => match captures(PART_PATTERN, keyword) {
                Some(Some(g)) => {
                    let a = group_at(&g, 1);
                    let f = group_at(&g, 2);
                    match (a, f) {
                        (Some(a), Some(f)) => {
                            let fl = to_lowercase(f.as_str());
                            let target = if str_eq(unit_str, "weights") {
                                to_lowercase(units.weights.as_str())
                            } else if str_eq(unit_str, "volumes") {
                                to_lowercase(units.volumes.as_str())
                            } else if str_eq(unit_str, "currencies") {
                                to_lowercase(units.currency.as_str())
                            } else {
                                to_lowercase(units.lengths.as_str())
                            };
                            match (
                                Measurements::match_unit(fl.as_str(), unit_str, rates_loaded),
                                Measurements::match_unit(target.as_str(), unit_str, rates_loaded),
                            ) {
                                (Some(fu), Some(tu)) => Some(
                                    Conversion { amount: a, from: fu, to: tu },
                                ),
                                _ => None,
                            }
                        },
                        _ => None,
                    }
                },
                _ => None,
            },
        }
    }
}

/// Whether a result's unit name takes a plural `s`: not for exactly one and
/// not for currencies.
pub fn plural_suffix(is_one: bool, unit_str: &str) -> (r: &'static str)
    ensures
        r@ == if is_one || unit_str@ == "currencies"@ {
            ""@
        } else {
            "s"@
        },
{
    if is_one || str_eq(unit_str, "currencies") {
        ""
    } else {
        "s"
    }
}

/// Temperature scales.
#[derive(PartialEq, Eq, Structural, Clone, Copy)]
pub enum TempUnit {
    Celsius,
    Fahrenheit,
}

/// The scale a word of `bytes` UTF-8 bytes names: `c` or a longer part of
/// `celsius` is Celsius, `f` or a longer part of `fahrenheit` Fahrenheit,
/// anything else Celsius.
pub open spec fn temp_unit(u: Seq<char>, bytes: nat) -> TempUnit {
    if u == "c"@ || (bytes > 1 && contains("celsius"@, u)) {
        TempUnit::Celsius
    } else if u == "f"@ || (bytes > 1 && contains("fahrenheit"@, u)) {
        TempUnit::Fahrenheit
    } else {
        TempUnit::Celsius
    }
}

pub fn parse_temp_unit(unit: &str) -> (r: TempUnit)
    ensures
        r == temp_unit(unit@, unit.spec_bytes().len()),
{
    let n = unit.as_bytes().len();
    if str_eq(unit, "c") || (n > 1 && contains_str("celsius", unit)) {
        TempUnit::Celsius
    } else if str_eq(unit, "f") || (n > 1 && contains_str("fahrenheit", unit)) {
        TempUnit::Fahrenheit
    } else {
        TempUnit::Celsius
    }
}

/// The pattern of a temperature query such as `20 c to f`.
pub const TEMPERATURE_PATTERN: &'static str = "(?i)^(?P<value>\\d+(?:\\.\\d+)?)\\s*(?:degrees?|°)?\\s*(?P<from>(c|f)(elsius|ahrenheit)?)?\\s*(?:to|as|in)?\\s*(?:degrees?|°)?\\s*(?P<to>(c|f)(elsius|ahrenheit)?)?$";

/// The other scale.
pub open spec fn other_scale(u: TempUnit) -> TempUnit {
    match u {
        TempUnit::Celsius => TempUnit::Fahrenheit,
        TempUnit::Fahrenheit => TempUnit::Celsius,
    }
}

/// A temperature query: the amount as written and the scale to convert
/// to; the source scale must be named, and the target defaults to the
/// other scale. Groups 1, 2 and 5 are the amount, the source and the
/// target.
pub open spec fn temperature_of(keyword: Seq<char>) -> Option<(Seq<char>, TempUnit)> {
    match regex_captures(TEMPERATURE_PATTERN@, keyword) {
        Some(Some(g)) => match (group(g, 1), group(g, 2)) {
            (Some(v), Some(f)) => {
                let from = temp_unit(lowercase(f), utf8_len(lowercase(f)));
                let to = match group(g, 5) {
                    Some(t) => temp_unit(t, utf8_len(t)),
                    None => other_scale(from),
                };
                Some((v, to))
            },
            _ => None,
        },
        _ => None,
    }
}

/// The number of UTF-8 bytes of a text.
pub open spec fn utf8_len(s: Seq<char>) -> nat {
    vstd::utf8::encode_utf8(s).len()
}

impl Calculator {
    /// Reads a temperature query: the amount and the scale to convert to.
    pub fn temperature(keyword: &str) -> (r: Option<(String, TempUnit)>)
        ensures
            match r {
                Some((v, to)) => temperature_of(keyword@) == Some((v@, to)),
                None => temperature_of(keyword@) is None,
            },
    {
        match captures(TEMPERATURE_PATTERN, keyword) {
            Some(Some(g)) => {
                let v = group_at(&g, 1);
                let f = group_at(&g, 2);
                match (v, f) {
                    (Some(v), Some(f)) => {
                        let fl = to_lowercase(f.as_str());
                        proof {
                            vstd::utf8::encode_utf8_decode_utf8(fl@);
                        }
                        let from = parse_temp_unit(fl.as_str());
                        let to = match group_at(&g, 5) {
                            Some(t) => parse_temp_unit(t.as_str()),
                            None => match from {
                                TempUnit::Celsius => TempUnit::Fahrenheit,
                                TempUnit::Fahrenheit => TempUnit::Celsius,
                            },
                        };
                        Some((v, to))
                    },
                    _ => None,
                }
            },
            _ => None,
        }
    }
}

/// What follows the first `:` of a symbol.
pub open spec fn after_colon(symbol: Seq<char>) -> Option<Seq<char>> {
    match crate::desktop::index_of(symbol, ':') {
        Some(i) => Some(symbol.skip(i + 1)),
        None => None,
    }
}

/// Whether the part after the colon can be cut after its third byte: that
/// is where a character starts or ends.
pub open spec fn forex_splittable(symbol: Seq<char>) -> bool {
    match after_colon(symbol) {
        Some(p) => vstd::utf8::is_char_boundary(vstd::utf8::encode_utf8(p), 3),
        None => true,
    }
}

/// The currency a forex symbol such as `FX_IDC:EURUSD` quotes, in lower
/// case: the first three bytes after the colon.
pub open spec fn forex_code_spec(symbol: Seq<char>) -> Option<Seq<char>> {
    match after_colon(symbol) {
        Some(p) => Some(
            lowercase(vstd::utf8::decode_utf8(vstd::utf8::encode_utf8(p).subrange(0, 3))),
        ),
        None => None,
    }
}

/// The currencies whose rates against the dollar must all be known before
/// conversions between currencies are offered.
pub open spec fn rate_codes() -> Seq<Seq<char>> {
    seq![
        "eur"@, "jpy"@, "gbp"@, "aud"@, "cad"@, "chf"@, "cny"@, "nzd"@, "sek"@, "nok"@, "mxn"@,
        "sgd"@, "hkd"@, "krw"@,
    ]
}

fn listed_code(keys: &Vec<String>, code: &str) -> (r: bool)
    ensures
        r == keys@.map_values(|k: String| k@).contains(code@),
{
    let ghost kv = keys@.map_values(|k: String| k@);
    let mut i: usize = 0;
    while i < keys.len()
        invariant
            i <= keys@.len(),
            kv == keys@.map_values(|k: String| k@),
            forall|j: int| 0 <= j < i ==> kv[j] != code@,
        decreases keys@.len() - i,
    {
        if str_eq(keys[i].as_str(), code) {
            assert(kv[i as int] == code@);
            return true;
        }
        i = i + 1;
    }
    false
}

impl Currency {
    /// Whether rates were read for every currency of `rate_codes`, given
    /// the currencies (lowercase codes) that rates were read for; where one
    /// is missing no rates are kept.
    pub fn has_all_rates(keys: &Vec<String>) -> (r: bool)
        ensures
            r == forall|i: int|
                0 <= i < rate_codes().len() ==> keys@.map_values(|k: String| k@).contains(
                    #[trigger] rate_codes()[i],
                ),
    {
        let codes: Vec<&str> = vec![
            "eur", "jpy", "gbp", "aud", "cad", "chf", "cny", "nzd", "sek", "nok", "mxn", "sgd", "hkd",
            "krw",
        ];
        assert(codes@.map_values(|c: &str| c@) =~= rate_codes());
        let mut i: usize = 0;
        while i < codes.len()
            invariant
                i <= codes@.len(),
                codes@.map_values(|c: &str| c@) == rate_codes(),
                forall|j: int| 0 <= j < i ==> keys@.map_values(|k: String| k@).contains(
                    #[trigger] rate_codes()[j],
                ),
            decreases codes@.len() - i,
        {
            assert(codes@.map_values(|c: &str| c@)[i as int] == codes@[i as int]@);
            if !listed_code(keys, codes[i]) {
                return false;
            }
            i = i + 1;
        }
        true
    }
}

impl Currency {
    /// The currency a symbol of the exchange-rate list quotes; none without
    /// a colon.
    pub fn forex_code(symbol: &str) -> (r: Option<String>)
        requires
            forex_splittable(symbol@),
        ensures
            match r {
                Some(c) => forex_code_spec(symbol@) == Some(c@),
                None => forex_code_spec(symbol@) is None,
            },
    {
        let v = crate::text::chars_of(symbol);
        match crate::desktop::find_char(v.as_slice(), ':') {
            None => None,
            Some(i) => {
                let n = vstd::string::StrSliceExecFns::unicode_len(symbol);
                let pair = vstd::string::StrSliceExecFns::substring_char(symbol, i + 1, n);
                assert(pair@ =~= symbol@.skip(i + 1));
                let (to, _) = pair.split_at(3);
                proof {
                    vstd::utf8::encode_utf8_decode_utf8(to@);
                }
                Some(to_lowercase(to))
            },
        }
    }
}

} // verus!
