//! Battery state: how the power-supply status reads, which icon stands for a
//! charge level, and the monitor's cached reading.
use vstd::prelude::*;
use crate::text::{trim, trimmed};

verus! {

/// Whether the battery charges, discharges normally, or runs low.
#[derive(Debug, Clone, Copy, PartialEq, Eq, Structural)]
pub enum BatteryState {
    NotCharging,
    Charging,
    Low,
}

/// A battery reading: charge in percent and state.
#[derive(Debug, Clone, Copy, PartialEq, Eq, Structural)]
pub struct BatteryInfo {
    pub capacity: u32,
    pub state: BatteryState,
}

/// The state a status text and a capacity stand for: "Charging" and "Full"
/// charge; "Discharging" under ten percent is low; anything else is not charging.
pub open spec fn spec_battery_state(status: Seq<char>, capacity: u32) -> BatteryState {
    let t = trim(status);
    if t == "Charging"@ || t == "Full"@ {
        BatteryState::Charging
    } else if t == "Discharging"@ && capacity < 10 {
        BatteryState::Low
    } else {
        BatteryState::NotCharging
    }
}

/// Classifies the power supply's `status` text, given the capacity.
pub fn battery_state_from_status(status: &str, capacity: u32) -> (s: BatteryState)
    ensures
        s == spec_battery_state(status@, capacity),
{
    let t = trimmed(status);
    let charging = "Charging".to_owned();
    let full = "Full".to_owned();
    let discharging = "Discharging".to_owned();
    if t == charging || t == full {
        BatteryState::Charging
    } else if t == discharging && capacity < 10 {
        BatteryState::Low
    } else {
        BatteryState::NotCharging
    }
}

/// The charge level: the `capacity` attribute if it read as a number, else the
/// charge ratio, else the energy ratio (both in percent), else 100.
pub fn capacity_from_sources(capacity: Option<u32>, charge_percent: Option<u32>, energy_percent: Option<u32>) -> (c: u32)
    ensures
        c == (match capacity {
            Some(v) => v,
            None => match charge_percent {
                Some(v) => v,
                None => match energy_percent {
                    Some(v) => v,
                    None => 100u32,
                },
            },
        }),
{
    match capacity {
        Some(v) => v,
        None => match charge_percent {
            Some(v) => v,
            None => match energy_percent {
                Some(v) => v,
                None => 100,
            },
        },
    }
}

/// A full reading from the status text and the charge sources.
pub fn read_battery_info(status: &str, capacity: Option<u32>, charge_percent: Option<u32>, energy_percent: Option<u32>) -> (i: BatteryInfo)
    ensures
        i.capacity == (match capacity {
            Some(v) => v,
            None => match charge_percent {
                Some(v) => v,
                None => match energy_percent {
                    Some(v) => v,
                    None => 100u32,
                },
            },
        }),
        i.state == spec_battery_state(status@, i.capacity),
{
    let c = capacity_from_sources(capacity, charge_percent, energy_percent);
    let s = battery_state_from_status(status, c);
    BatteryInfo { capacity: c, state: s }
}

/// How a battery widget shows the charge.
#[derive(Debug, Clone, Copy, PartialEq, Eq, Structural)]
pub enum BatteryIconMode {
    Percentage,
    Icon,
    Both,
}

impl BatteryIconMode {
    /// An icon is drawn in every mode but `Percentage`.
    pub fn should_draw_icon(self) -> (b: bool)
        ensures
            b == (self != BatteryIconMode::Percentage),
    {
        self != BatteryIconMode::Percentage
    }

    /// The percentage is drawn in every mode but `Icon`.
    pub fn should_draw_text(self) -> (b: bool)
        ensures
            b == (self != BatteryIconMode::Icon),
    {
        self != BatteryIconMode::Icon
    }
}

/// The mode a `mode` setting names: "icon", "percentage" or "both"; other
/// strings name none.
pub fn battery_mode_from_str(mode: &str) -> (m: Option<BatteryIconMode>)
    ensures
        mode@ == "icon"@ ==> m == Some(BatteryIconMode::Icon),
        mode@ == "percentage"@ ==> m == Some(BatteryIconMode::Percentage),
        mode@ == "both"@ ==> m == Some(BatteryIconMode::Both),
        mode@ != "icon"@ && mode@ != "percentage"@ && mode@ != "both"@ ==> m.is_none(),
{
    proof {
        reveal_strlit("icon");
        reveal_strlit("percentage");
        reveal_strlit("both");
        assert("icon"@.len() != "percentage"@.len());
        assert("icon"@[0] != "both"@[0]);
        assert("percentage"@.len() != "both"@.len());
    }
    let s = mode.to_owned();
    if s == "icon".to_owned() {
        Some(BatteryIconMode::Icon)
    } else if s == "percentage".to_owned() {
        Some(BatteryIconMode::Percentage)
    } else if s == "both".to_owned() {
        Some(BatteryIconMode::Both)
    } else {
        None
    }
}

/// Icon names of the discharging battery, from empty to full.
pub open spec fn plain_icon_names() -> Seq<Seq<char>> {
    seq![
        "battery-000"@, "battery-020"@, "battery-030"@, "battery-050"@,
        "battery-060"@, "battery-080"@, "battery-090"@, "battery-100"@,
    ]
}

/// Icon names of the charging battery, from low to full.
pub open spec fn charging_icon_names() -> Seq<Seq<char>> {
    seq![
        "battery-020-charging"@, "battery-030-charging"@, "battery-050-charging"@,
        "battery-060-charging"@, "battery-080-charging"@, "battery-090-charging"@,
        "battery-100-charging"@,
    ]
}

/// The icon name drawn beside the percentage when the battery charges but the
/// mode draws no level icon.
pub fn bolt_icon_name() -> (s: String)
    ensures
        s@ == "battery-100-charging"@,
{
    "battery-100-charging".to_owned()
}

/// The discharging icon names, in the order of `plain_icon_index`.
pub fn plain_icon_list() -> (v: Vec<String>)
    ensures
        v@.len() == plain_icon_names().len(),
        forall|i: int| 0 <= i < v@.len() ==> #[trigger] v@[i]@ == plain_icon_names()[i],
{
    let v = vec![
        "battery-000".to_owned(), "battery-020".to_owned(), "battery-030".to_owned(),
        "battery-050".to_owned(), "battery-060".to_owned(), "battery-080".to_owned(),
        "battery-090".to_owned(), "battery-100".to_owned(),
    ];
    v
}

/// The charging icon names, in the order of `charging_icon_index`.
pub fn charging_icon_list() -> (v: Vec<String>)
    ensures
        v@.len() == charging_icon_names().len(),
        forall|i: int| 0 <= i < v@.len() ==> #[trigger] v@[i]@ == charging_icon_names()[i],
{
    let v = vec![
        "battery-020-charging".to_owned(), "battery-030-charging".to_owned(),
        "battery-050-charging".to_owned(), "battery-060-charging".to_owned(),
        "battery-080-charging".to_owned(), "battery-090-charging".to_owned(),
        "battery-100-charging".to_owned(),
    ];
    v
}

/// Which discharging icon shows a capacity: 0; 1-20; 21-30; 31-50; 51-60;
/// 61-80; 81-99; 100 and above.
pub open spec fn spec_plain_icon_index(capacity: u32) -> int {
    if capacity == 0 { 0 }
    else if capacity <= 20 { 1 }
    else if capacity <= 30 { 2 }
    else if capacity <= 50 { 3 }
    else if capacity <= 60 { 4 }
    else if capacity <= 80 { 5 }
    else if capacity <= 99 { 6 }
    else { 7 }
}

/// Which charging icon shows a capacity: 0-20; 21-30; 31-50; 51-60; 61-80;
/// 81-99; 100 and above.
pub open spec fn spec_charging_icon_index(capacity: u32) -> int {
    if capacity <= 20 { 0 }
    else if capacity <= 30 { 1 }
    else if capacity <= 50 { 2 }
    else if capacity <= 60 { 3 }
    else if capacity <= 80 { 4 }
    else if capacity <= 99 { 5 }
    else { 6 }
}

/// The charge level, in percent, that each discharging icon shows.
pub open spec fn plain_icon_levels() -> Seq<int> {
    seq![0, 20, 30, 50, 60, 80, 90, 100]
}

/// The charge level, in percent, that each charging icon shows.
pub open spec fn charging_icon_levels() -> Seq<int> {
    seq![20, 30, 50, 60, 80, 90, 100]
}

/// The three digits with which an icon name gives a level of 0 to 100.
pub open spec fn level_digits(level: int) -> Seq<char> {
    seq![
        ((level / 100) + 48) as char,
        ((level / 10) % 10 + 48) as char,
        (level % 10 + 48) as char,
    ]
}

/// Each icon's name gives the level it shows.
pub proof fn law_icon_names_give_levels()
    ensures
        plain_icon_names().len() == plain_icon_levels().len(),
        charging_icon_names().len() == charging_icon_levels().len(),
        forall|i: int| 0 <= i < plain_icon_names().len() ==>
            #[trigger] plain_icon_names()[i] == "battery-"@ + level_digits(plain_icon_levels()[i]),
        forall|i: int| 0 <= i < charging_icon_names().len() ==>
            #[trigger] charging_icon_names()[i] == "battery-"@ + level_digits(charging_icon_levels()[i]) + "-charging"@,
{
    reveal_strlit("battery-");
    reveal_strlit("-charging");
    reveal_strlit("battery-000");
    reveal_strlit("battery-020");
    reveal_strlit("battery-030");
    reveal_strlit("battery-050");
    reveal_strlit("battery-060");
    reveal_strlit("battery-080");
    reveal_strlit("battery-090");
    reveal_strlit("battery-100");
    reveal_strlit("battery-020-charging");
    reveal_strlit("battery-030-charging");
    reveal_strlit("battery-050-charging");
    reveal_strlit("battery-060-charging");
    reveal_strlit("battery-080-charging");
    reveal_strlit("battery-090-charging");
    reveal_strlit("battery-100-charging");
    assert forall|i: int| 0 <= i < plain_icon_names().len() implies
        #[trigger] plain_icon_names()[i] == "battery-"@ + level_digits(plain_icon_levels()[i]) by {
        assert(plain_icon_names()[i] =~= "battery-"@ + level_digits(plain_icon_levels()[i]));
    }
    assert forall|i: int| 0 <= i < charging_icon_names().len() implies
        #[trigger] charging_icon_names()[i] == "battery-"@ + level_digits(charging_icon_levels()[i]) + "-charging"@ by {
        assert(charging_icon_names()[i] =~= "battery-"@ + level_digits(charging_icon_levels()[i]) + "-charging"@);
    }
}

/// The discharging icon follows the charge: a fuller battery never shows an
/// emptier icon; an empty battery, and only an empty one, shows the empty
/// icon; a full one shows the full icon; up to 90% the icon shows the lowest
/// level at or above the charge, and from 91% to 99% it shows 90%.
pub proof fn law_plain_icon_follows_charge(c1: u32, c2: u32)
    ensures
        c1 <= c2 ==> spec_plain_icon_index(c1) <= spec_plain_icon_index(c2),
        0 <= spec_plain_icon_index(c1) < plain_icon_levels().len(),
        (spec_plain_icon_index(c1) == 0) <==> c1 == 0,
        c1 >= 100 ==> spec_plain_icon_index(c1) == plain_icon_levels().len() - 1,
        1 <= c1 <= 90 ==> plain_icon_levels()[spec_plain_icon_index(c1) - 1] < c1 <= plain_icon_levels()[spec_plain_icon_index(c1)],
        91 <= c1 <= 99 ==> plain_icon_levels()[spec_plain_icon_index(c1)] == 90,
{
}

/// The charging icon follows the charge: a fuller battery never shows a lower
/// icon; up to 20% it shows 20%; up to 90% it shows the lowest level at or
/// above the charge; from 91% to 99% it shows 90%; full, it shows 100%.
pub proof fn law_charging_icon_follows_charge(c1: u32, c2: u32)
    ensures
        c1 <= c2 ==> spec_charging_icon_index(c1) <= spec_charging_icon_index(c2),
        0 <= spec_charging_icon_index(c1) < charging_icon_levels().len(),
        c1 <= 20 ==> spec_charging_icon_index(c1) == 0,
        c1 >= 100 ==> spec_charging_icon_index(c1) == charging_icon_levels().len() - 1,
        21 <= c1 <= 90 ==> charging_icon_levels()[spec_charging_icon_index(c1) - 1] < c1 <= charging_icon_levels()[spec_charging_icon_index(c1)],
        91 <= c1 <= 99 ==> charging_icon_levels()[spec_charging_icon_index(c1)] == 90,
{
}

/// Index into `plain_icon_list` for a capacity.
pub fn plain_icon_index(capacity: u32) -> (i: usize)
    ensures
        i == spec_plain_icon_index(capacity),
        i < 8,
{
    if capacity == 0 { 0 }
    else if capacity <= 20 { 1 }
    else if capacity <= 30 { 2 }
    else if capacity <= 50 { 3 }
    else if capacity <= 60 { 4 }
    else if capacity <= 80 { 5 }
    else if capacity <= 99 { 6 }
    else { 7 }
}

/// Index into `charging_icon_list` for a capacity.
pub fn charging_icon_index(capacity: u32) -> (i: usize)
    ensures
        i == spec_charging_icon_index(capacity),
        i < 7,
{
    if capacity <= 20 { 0 }
    else if capacity <= 30 { 1 }
    else if capacity <= 50 { 2 }
    else if capacity <= 60 { 3 }
    else if capacity <= 80 { 4 }
    else if capacity <= 99 { 5 }
    else { 6 }
}

/// Which icon a battery widget draws.
#[derive(Debug, Clone, Copy, PartialEq, Eq, Structural)]
pub enum BatteryIcon {
    /// The discharging icon at this index of `plain_icon_list`.
    Plain(usize),
    /// The charging icon at this index of `charging_icon_list`.
    Charging(usize),
    /// The charging bolt, when the mode draws no level icon.
    Bolt,
}

/// The icon for a mode and reading: a level icon where the mode draws icons,
/// the bolt where it does not but the battery charges, else none.
pub fn battery_icon(mode: BatteryIconMode, capacity: u32, state: BatteryState) -> (r: Option<BatteryIcon>)
    ensures
        mode != BatteryIconMode::Percentage ==> r == Some(if state == BatteryState::Charging {
            BatteryIcon::Charging(spec_charging_icon_index(capacity) as usize)
        } else {
            BatteryIcon::Plain(spec_plain_icon_index(capacity) as usize)
        }),
        mode == BatteryIconMode::Percentage ==> r == (if state == BatteryState::Charging {
            Some(BatteryIcon::Bolt)
        } else {
            None::<BatteryIcon>
        }),
{
    if mode.should_draw_icon() {
        if state == BatteryState::Charging {
            Some(BatteryIcon::Charging(charging_icon_index(capacity)))
        } else {
            Some(BatteryIcon::Plain(plain_icon_index(capacity)))
        }
    } else if state == BatteryState::Charging {
        Some(BatteryIcon::Bolt)
    } else {
        None
    }
}

/// The latest reading that the battery monitor took, if any.
#[derive(Debug, Clone, Copy, PartialEq, Eq)]
pub struct BatteryCache {
    pub latest: Option<BatteryInfo>,
}

impl BatteryCache {
    /// A cache that holds no reading yet.
    pub fn new() -> (c: BatteryCache)
        ensures
            c.latest.is_none(),
    {
        BatteryCache { latest: None }
    }

    /// Records the monitor's latest reading.
    pub fn store(&mut self, info: BatteryInfo)
        ensures
            final(self).latest == Some(info),
    {
        self.latest = Some(info);
    }
}

/// The cached reading as (capacity, state), if the monitor has taken one.
pub fn get_cached_battery_state(cache: &BatteryCache) -> (r: Option<(u32, BatteryState)>)
    ensures
        r == (match cache.latest {
            Some(i) => Some((i.capacity, i.state)),
            None => None,
        }),
{
    match cache.latest {
        Some(i) => Some((i.capacity, i.state)),
        None => None,
    }
}

/// The cached reading if there is one, else the direct reading.
pub fn get_battery_state(cache: &BatteryCache, direct: BatteryInfo) -> (r: (u32, BatteryState))
    ensures
        r == (match cache.latest {
            Some(i) => (i.capacity, i.state),
            None => (direct.capacity, direct.state),
        }),
{
    match get_cached_battery_state(cache) {
        Some(c) => c,
        None => (direct.capacity, direct.state),
    }
}

/// Whether a power supply whose `type` attribute reads `kind` is a battery.
pub fn is_battery_supply(kind: &str) -> (b: bool)
    ensures
        b == (trim(kind@) == "Battery"@),
{
    trimmed(kind) == "Battery".to_owned()
}

} // verus!
