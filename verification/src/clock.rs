//! A clock widget's format: its strftime pattern read by chrono, and its
//! locale.
use vstd::prelude::*;
use chrono::format::{Item, ParseError, StrftimeItems};
use chrono::Locale;
use crate::config::{clock_pattern, spec_clock_pattern};

verus! {

#[verifier::external_type_specification]
#[verifier::external_body]
pub struct ExStrftimeItem<'a>(Item<'a>);

#[verifier::external_type_specification]
#[verifier::external_body]
pub struct ExStrftimeError(ParseError);

#[verifier::external_type_specification]
#[verifier::external_body]
pub struct ExLocale(Locale);

/// Whether chrono's strftime reader accepts a pattern: every specifier in
/// it is one that chrono knows.
pub uninterp spec fn strftime_accepts(pattern: Seq<char>) -> bool;

/// The items chrono reads from an accepted strftime pattern.
pub uninterp spec fn strftime_items(pattern: Seq<char>) -> Seq<Item<'static>>;

/// Whether chrono knows a locale by this name (such as "de_DE").
pub uninterp spec fn locale_known(name: Seq<char>) -> bool;

/// The locale chrono gives for a name it knows.
pub uninterp spec fn chrono_locale(name: Seq<char>) -> Locale;

/// Calls `chrono::format::StrftimeItems::parse_to_owned` on the pattern.
/// Claimed: it succeeds exactly when chrono accepts the pattern, and the
/// items it returns depend on the pattern alone (named `strftime_items`).
#[verifier::external_body]
fn parse_strftime(pattern: &str) -> (r: Result<Vec<Item<'static>>, ParseError>)
    ensures
        r.is_ok() == strftime_accepts(pattern@),
        r matches Ok(v) ==> v@ == strftime_items(pattern@),
{
    StrftimeItems::new(pattern).parse_to_owned()
}

/// Calls `chrono::Locale::try_from` on a locale name. Claimed: it finds a
/// locale exactly when chrono knows the name, and the locale it finds
/// depends on the name alone (named `chrono_locale`).
#[verifier::external_body]
fn lookup_locale(name: &str) -> (r: Option<Locale>)
    ensures
        r.is_some() == locale_known(name@),
        r matches Some(l) ==> l == chrono_locale(name@),
{
    Locale::try_from(name).ok()
}

/// A clock format that chrono accepted, with the configured locale if
/// chrono knows it (`None` stands for the POSIX locale).
pub struct ClockFormat {
    pub items: Vec<Item<'static>>,
    pub locale: Option<Locale>,
}

/// Why a clock format was refused.
#[derive(Debug, Clone, PartialEq, Eq)]
pub enum ClockFormatError {
    /// chrono does not accept the pattern (which is kept).
    InvalidPattern(String),
}

/// Reads a clock widget's `format` setting ("24hr", "12hr" or a strftime
/// pattern) and its `locale` setting.
pub fn clock_format(format: &str, locale: Option<&str>) -> (r: Result<ClockFormat, ClockFormatError>)
    ensures
        r.is_ok() == strftime_accepts(spec_clock_pattern(format@)),
        r matches Err(ClockFormatError::InvalidPattern(p)) ==> p@ == spec_clock_pattern(format@),
        r matches Ok(cf) ==> cf.items@ == strftime_items(spec_clock_pattern(format@)),
        r matches Ok(cf) ==> cf.locale == (match locale {
            Some(l) => if locale_known(l@) { Some(chrono_locale(l@)) } else { None },
            None => None,
        }),
{
    let pattern = clock_pattern(format);
    match parse_strftime(pattern.as_str()) {
        Ok(items) => {
            let found = match locale {
                Some(l) => lookup_locale(l),
                None => None,
            };
            Ok(ClockFormat { items, locale: found })
        },
        Err(_) => Err(ClockFormatError::InvalidPattern(pattern)),
    }
}

} // verus!
