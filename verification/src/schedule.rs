//! The schedule navigator: narrows a set of weekly rotations down to the
//! line elements served by one facility on one date, failing closed at each
//! level the upstream schema leaves optional.

use vstd::prelude::*;
use crate::error::MensarError;
use crate::model::{Date, DayOfWeek, LineElement, MealTime, OpeningHour, WeeklyRota, spec_date_le};

verus! {

/// A rotation is active for a facility on a date when it belongs to that
/// facility and its validity interval contains the date (open-ended when
/// `valid_to` is absent).
pub open spec fn rota_active(r: WeeklyRota, facility_id: int, date: Date) -> bool {
    &&& r.facility_id == facility_id
    &&& spec_date_le(r.valid_from, date)
    &&& match r.valid_to {
        None => true,
        Some(t) => spec_date_le(date, t),
    }
}

/// The first rotation in input order that is active for the facility on the
/// date; the documented tie-break when several overlap.
pub open spec fn selected_rota(rotas: Seq<WeeklyRota>, facility_id: int, date: Date) -> Option<
    WeeklyRota,
>
    decreases rotas.len(),
{
    if rotas.len() == 0 {
        None
    } else if rota_active(rotas[0], facility_id, date) {
        Some(rotas[0])
    } else {
        selected_rota(rotas.drop_first(), facility_id, date)
    }
}

/// The first day entry of the rotation whose weekday code equals the target.
pub open spec fn selected_day(days: Seq<DayOfWeek>, weekday: u32) -> Option<DayOfWeek>
    decreases days.len(),
{
    if days.len() == 0 {
        None
    } else if days[0].day_of_week_code == weekday {
        Some(days[0])
    } else {
        selected_day(days.drop_first(), weekday)
    }
}

/// The line elements a day serves: its first opening-hour block's first
/// meal-time slot's line elements, absent or empty meaning closed.
pub open spec fn spec_menu_of_day(day: DayOfWeek) -> Option<Seq<LineElement>> {
    match day.opening_hour_array {
        None => None,
        Some(blocks) => if blocks@.len() == 0 {
            None
        } else {
            spec_menu_of_block(blocks@[0])
        },
    }
}

/// The line elements of an opening-hour block's first meal-time slot.
pub open spec fn spec_menu_of_block(block: OpeningHour) -> Option<Seq<LineElement>> {
    match block.meal_time_array {
        None => None,
        Some(slots) => if slots@.len() == 0 {
            None
        } else {
            spec_menu_of_slot(slots@[0])
        },
    }
}

/// The line elements of a meal-time slot: its line array verbatim, absent
/// meaning none. A present but empty array is an empty menu, not a failure.
pub open spec fn spec_menu_of_slot(slot: MealTime) -> Option<Seq<LineElement>> {
    match slot.line_array {
        None => None,
        Some(lines) => Some(lines@),
    }
}

/// The menu a rotation serves on the given weekday.
pub open spec fn spec_menu_of_rota(r: WeeklyRota, weekday: u32) -> Option<Seq<LineElement>> {
    match selected_day(r.day_of_week_array@, weekday) {
        None => None,
        Some(day) => spec_menu_of_day(day),
    }
}

/// The whole narrowing pipeline: first active rotation, target weekday,
/// first opening-hour block, first meal-time slot, its line elements.
pub open spec fn spec_resolve_menu(
    rotas: Seq<WeeklyRota>,
    facility_id: int,
    date: Date,
    weekday: u32,
) -> Option<Seq<LineElement>> {
    match selected_rota(rotas, facility_id, date) {
        None => None,
        Some(r) => spec_menu_of_rota(r, weekday),
    }
}

/// A day is closed when it carries no opening-hour blocks at all.
pub open spec fn day_closed(day: DayOfWeek) -> bool {
    match day.opening_hour_array {
        None => true,
        Some(blocks) => blocks@.len() == 0,
    }
}

/// An opening-hour block carries no meal-time slots.
pub open spec fn block_without_slots(block: OpeningHour) -> bool {
    match block.meal_time_array {
        None => true,
        Some(slots) => slots@.len() == 0,
    }
}

/// A meal-time slot carries no line-element array at all.
pub open spec fn slot_without_line_array(slot: MealTime) -> bool {
    slot.line_array is None
}

/// No rotation is selected exactly when none is active for the facility on
/// the date.
pub proof fn lemma_selected_rota_none(rotas: Seq<WeeklyRota>, facility_id: int, date: Date)
    ensures
        (selected_rota(rotas, facility_id, date) is None) <==> (forall|i: int|
            0 <= i < rotas.len() ==> !rota_active(#[trigger] rotas[i], facility_id, date)),
    decreases rotas.len(),
{
    if rotas.len() == 0 {
    } else if rota_active(rotas[0], facility_id, date) {
    } else {
        let rest = rotas.drop_first();
        lemma_selected_rota_none(rest, facility_id, date);
        if selected_rota(rotas, facility_id, date) is None {
            assert forall|i: int|
                0 <= i < rotas.len() implies !rota_active(
                #[trigger] rotas[i],
                facility_id,
                date,
            ) by {
                if i > 0 {
                    assert(rotas[i] == rest[i - 1]);
                }
            }
        } else {
            let j = choose|j: int|
                0 <= j < rest.len() && rota_active(#[trigger] rest[j], facility_id, date);
            assert(rotas[j + 1] == rest[j]);
        }
    }
}

/// No day is selected exactly when no entry carries the target weekday code.
pub proof fn lemma_selected_day_none(days: Seq<DayOfWeek>, weekday: u32)
    ensures
        (selected_day(days, weekday) is None) <==> (forall|i: int|
            0 <= i < days.len() ==> (#[trigger] days[i]).day_of_week_code != weekday),
    decreases days.len(),
{
    if days.len() == 0 {
    } else if days[0].day_of_week_code == weekday {
    } else {
        let rest = days.drop_first();
        lemma_selected_day_none(rest, weekday);
        if selected_day(days, weekday) is None {
            assert forall|i: int|
                0 <= i < days.len() implies (#[trigger] days[i]).day_of_week_code != weekday by {
                if i > 0 {
                    assert(days[i] == rest[i - 1]);
                }
            }
        } else {
            let j = choose|j: int|
                0 <= j < rest.len() && (#[trigger] rest[j]).day_of_week_code == weekday;
            assert(days[j + 1] == rest[j]);
        }
    }
}

/// When several rotations overlap the target date for the same facility, the
/// first one in input order is authoritative: the resolved menu is the one
/// that rotation serves on the target weekday.
pub proof fn lemma_first_rota_authoritative(
    rotas: Seq<WeeklyRota>,
    facility_id: int,
    date: Date,
    weekday: u32,
    i: int,
)
    requires
        0 <= i < rotas.len(),
        rota_active(rotas[i], facility_id, date),
        forall|j: int| 0 <= j < i ==> !rota_active(#[trigger] rotas[j], facility_id, date),
    ensures
        selected_rota(rotas, facility_id, date) == Some(rotas[i]),
        spec_resolve_menu(rotas, facility_id, date, weekday) == spec_menu_of_rota(
            rotas[i],
            weekday,
        ),
    decreases i,
{
    if i == 0 {
    } else {
        let rest = rotas.drop_first();
        assert(rest[i - 1] == rotas[i]);
        assert forall|j: int|
            0 <= j < i - 1 implies !rota_active(#[trigger] rest[j], facility_id, date) by {
            assert(rest[j] == rotas[j + 1]);
        }
        lemma_first_rota_authoritative(rest, facility_id, date, weekday, i - 1);
    }
}

/// The navigation fails with no daily meals exactly when one of its five
/// narrowing steps comes up empty: no rotation covers the date, the weekday
/// is absent from the selected rotation, the selected day carries no
/// opening-hour blocks, its first block carries no meal-time slots, or the
/// first slot carries no line-element array. A present but empty line array
/// is not a failure: it is served verbatim as an empty menu.
pub proof fn lemma_no_daily_meals_cases(
    rotas: Seq<WeeklyRota>,
    facility_id: int,
    date: Date,
    weekday: u32,
)
    ensures
        (spec_resolve_menu(rotas, facility_id, date, weekday) is None) <==> match selected_rota(
            rotas,
            facility_id,
            date,
        ) {
            None => forall|i: int|
                0 <= i < rotas.len() ==> !rota_active(#[trigger] rotas[i], facility_id, date),
            Some(r) => match selected_day(r.day_of_week_array@, weekday) {
                None => forall|i: int|
                    0 <= i < r.day_of_week_array@.len() ==> (#[trigger] r.day_of_week_array@[i])
                        .day_of_week_code != weekday,
                Some(day) => {
                    ||| day_closed(day)
                    ||| (match day.opening_hour_array {
                        Some(blocks) => blocks@.len() > 0 && {
                            ||| block_without_slots(blocks@[0])
                            ||| (match blocks@[0].meal_time_array {
                                Some(slots) => slots@.len() > 0 && slot_without_line_array(
                                    slots@[0],
                                ),
                                None => false,
                            })
                        },
                        None => false,
                    })
                },
            },
        },
{
    lemma_selected_rota_none(rotas, facility_id, date);
    match selected_rota(rotas, facility_id, date) {
        None => {},
        Some(r) => {
            lemma_selected_day_none(r.day_of_week_array@, weekday);
        },
    }
}

/// Walks the rotations for the facility and target date and returns the
/// day's line elements, or `None` when any narrowing step comes up empty.
pub fn resolve_menu<'a>(
    rotas: &'a Vec<WeeklyRota>,
    facility_id: usize,
    date: Date,
    weekday: u32,
) -> (r: Option<&'a Vec<LineElement>>)
    ensures
        match r {
            Some(lines) => spec_resolve_menu(rotas@, facility_id as int, date, weekday) == Some(
                lines@,
            ),
            None => spec_resolve_menu(rotas@, facility_id as int, date, weekday) is None,
        },
{
    proof {
        assert(rotas@.skip(0) =~= rotas@);
    }
    let mut idx: usize = 0;
    while idx < rotas.len()
        invariant
            idx <= rotas@.len(),
            selected_rota(rotas@, facility_id as int, date) == selected_rota(
                rotas@.skip(idx as int),
                facility_id as int,
                date,
            ),
        decreases rotas@.len() - idx,
    {
        proof {
            assert(rotas@.skip(idx as int)[0] == rotas@[idx as int]);
            assert(rotas@.skip(idx as int).drop_first() =~= rotas@.skip(idx + 1));
        }
        let rota = &rotas[idx];
        let from_ok = rota.valid_from.on_or_before(&date);
        let to_ok = match &rota.valid_to {
            None => true,
            Some(t) => date.on_or_before(t),
        };
        if rota.facility_id == facility_id && from_ok && to_ok {
            return menu_of_rota(rota, weekday);
        }
        idx += 1;
    }
    proof {
        assert(rotas@.skip(rotas@.len() as int) =~= Seq::<WeeklyRota>::empty());
    }
    None
}

/// The navigator's outward face: the day's line elements, or the terminal
/// `NoDailyMeals` condition carrying the queried facility name.
pub fn daily_menu<'a>(
    rotas: &'a Vec<WeeklyRota>,
    facility_id: usize,
    facility: &str,
    date: Date,
    weekday: u32,
) -> (r: Result<&'a Vec<LineElement>, MensarError>)
    ensures
        match r {
            Ok(lines) => spec_resolve_menu(rotas@, facility_id as int, date, weekday) == Some(
                lines@,
            ),
            Err(e) => {
                &&& spec_resolve_menu(rotas@, facility_id as int, date, weekday) is None
                &&& (e matches MensarError::NoDailyMeals(f) && f@ == facility@)
            },
        },
{
    match resolve_menu(rotas, facility_id, date, weekday) {
        Some(lines) => Ok(lines),
        None => Err(MensarError::NoDailyMeals(String::from_str(facility))),
    }
}

/// The day-of-week narrowing of one rotation, then the within-day steps.
fn menu_of_rota<'a>(rota: &'a WeeklyRota, weekday: u32) -> (r: Option<&'a Vec<LineElement>>)
    ensures
        match r {
            Some(lines) => spec_menu_of_rota(*rota, weekday) == Some(lines@),
            None => spec_menu_of_rota(*rota, weekday) is None,
        },
{
    let days = &rota.day_of_week_array;
    proof {
        assert(days@.skip(0) =~= days@);
    }
    let mut idx: usize = 0;
    while idx < days.len()
        invariant
            idx <= days@.len(),
            selected_day(rota.day_of_week_array@, weekday) == selected_day(
                days@.skip(idx as int),
                weekday,
            ),
            days == &rota.day_of_week_array,
        decreases days@.len() - idx,
    {
        proof {
            assert(days@.skip(idx as int)[0] == days@[idx as int]);
            assert(days@.skip(idx as int).drop_first() =~= days@.skip(idx + 1));
        }
        if days[idx].day_of_week_code == weekday {
            return menu_of_day(&days[idx]);
        }
        idx += 1;
    }
    proof {
        assert(days@.skip(days@.len() as int) =~= Seq::<DayOfWeek>::empty());
    }
    None
}

/// The first-of-list policy at the opening-hour and meal-time levels: take
/// the first block and the first slot, failing closed when either level is
/// absent or empty. Deliberately not disambiguated by time of day.
fn menu_of_day<'a>(day: &'a DayOfWeek) -> (r: Option<&'a Vec<LineElement>>)
    ensures
        match r {
            Some(lines) => spec_menu_of_day(*day) == Some(lines@),
            None => spec_menu_of_day(*day) is None,
        },
{
    match &day.opening_hour_array {
        None => None,
        Some(blocks) => {
            if blocks.len() == 0 {
                return None;
            }
            match &blocks[0].meal_time_array {
                None => None,
                Some(slots) => {
                    if slots.len() == 0 {
                        return None;
                    }
                    match &slots[0].line_array {
                        None => None,
                        Some(lines) => Some(lines),
                    }
                },
            }
        },
    }
}

} // verus!
