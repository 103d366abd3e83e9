//! The schema model: plain-value snapshots of the upstream facility and
//! weekly-rotation payload, with optionality as the upstream schema permits.

use vstd::prelude::*;

verus! {

/// A calendar date held as plain year, month and day numbers.
///
/// The pipeline only ever compares dates, so the lexicographic order on
/// `(year, month, day)` is all the structure the model needs.
#[derive(Clone, Copy, PartialEq, Eq, Structural, Debug)]
pub struct Date {
    pub year: i32,
    pub month: u32,
    pub day: u32,
}

/// Lexicographic order on `(year, month, day)`: `a` lies on or before `b`.
pub open spec fn spec_date_le(a: Date, b: Date) -> bool {
    ||| a.year < b.year
    ||| (a.year == b.year && a.month < b.month)
    ||| (a.year == b.year && a.month == b.month && a.day <= b.day)
}

impl Date {
    /// `self` lies on or before `other` in calendar order.
    pub fn on_or_before(&self, other: &Date) -> (r: bool)
        ensures
            r == spec_date_le(*self, *other),
    {
        ||| self.year < other.year
        ||| (self.year == other.year && self.month < other.month)
        ||| (self.year == other.year && self.month == other.month && self.day <= other.day)
    }
}

/// One servable location of the catalog.
///
/// `publication_type_code == 1` marks a publicly listed facility; other codes
/// mark internal or hidden entries.
#[derive(Clone, Debug)]
pub struct Facility {
    pub facility_id: usize,
    pub facility_name: String,
    pub publication_type_code: usize,
}

/// One weekly rotation of a facility: a validity interval (open-ended when
/// `valid_to` is absent) and the days it schedules.
#[derive(Clone, Debug)]
pub struct WeeklyRota {
    pub facility_id: usize,
    pub valid_from: Date,
    pub valid_to: Option<Date>,
    pub day_of_week_array: Vec<DayOfWeek>,
}

/// One scheduled weekday of a rotation; codes run 1 = Monday .. 7 = Sunday.
/// An absent opening-hour array means the facility is closed that day.
#[derive(Clone, Debug)]
pub struct DayOfWeek {
    pub day_of_week_code: u32,
    pub opening_hour_array: Option<Vec<OpeningHour>>,
}

/// One opening-hour block of a day: a time range and its meal-time slots.
#[derive(Clone, Debug)]
pub struct OpeningHour {
    pub time_from: String,
    pub time_to: String,
    pub meal_time_array: Option<Vec<MealTime>>,
}

/// One named serving window (such as lunch) within an opening-hour block.
#[derive(Clone, Debug)]
pub struct MealTime {
    pub name: String,
    pub time_from: String,
    pub time_to: String,
    pub line_array: Option<Vec<LineElement>>,
}

/// One serving station of a meal-time slot, with at most one assigned meal.
#[derive(Clone, Debug)]
pub struct LineElement {
    pub name: String,
    pub meal: Option<Meal>,
}

/// One meal: name, free-text description and its ordered price tiers.
#[derive(Clone, Debug)]
pub struct Meal {
    pub name: String,
    pub description: String,
    pub meal_price_array: Vec<MealPrice>,
}

/// One customer-group price tier of a meal. The price is held as the display
/// text of the published number; the pipeline never computes with it.
#[derive(Clone, Debug)]
pub struct MealPrice {
    pub price: String,
    pub customer_group_desc: String,
}

} // verus!
