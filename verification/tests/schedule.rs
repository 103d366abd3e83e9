use mensar::error::MensarError;
use mensar::model::{Date, DayOfWeek, LineElement, Meal, MealPrice, MealTime, OpeningHour, WeeklyRota};
use mensar::render::render;
use mensar::schedule::{daily_menu, resolve_menu};

fn date(year: i32, month: u32, day: u32) -> Date {
    Date { year, month, day }
}

fn slot(lines: Option<Vec<LineElement>>) -> MealTime {
    MealTime {
        name: String::from("lunch"),
        time_from: String::from("11:00"),
        time_to: String::from("13:30"),
        line_array: lines,
    }
}

fn block(slots: Option<Vec<MealTime>>) -> OpeningHour {
    OpeningHour {
        time_from: String::from("08:00"),
        time_to: String::from("15:00"),
        meal_time_array: slots,
    }
}

fn station(name: &str, meal: Option<Meal>) -> LineElement {
    LineElement {
        name: String::from(name),
        meal,
    }
}

fn soup() -> Meal {
    Meal {
        name: String::from("Soup"),
        description: String::from(""),
        meal_price_array: vec![
            MealPrice {
                price: String::from("8.5"),
                customer_group_desc: String::from("students"),
            },
            MealPrice {
                price: String::from("12.0"),
                customer_group_desc: String::from("guests"),
            },
        ],
    }
}

fn wednesday_rota(facility_id: usize) -> WeeklyRota {
    WeeklyRota {
        facility_id,
        valid_from: date(2024, 1, 1),
        valid_to: None,
        day_of_week_array: vec![DayOfWeek {
            day_of_week_code: 3,
            opening_hour_array: Some(vec![block(Some(vec![slot(Some(vec![
                station("A", None),
                station("B", Some(soup())),
            ]))]))]),
        }],
    }
}

#[test]
fn open_ended_rotation_serves_wednesday_menu() {
    let rotas = vec![wednesday_rota(4)];
    // 2024-01-03 is a Wednesday inside the open-ended validity interval.
    let lines = resolve_menu(&rotas, 4, date(2024, 1, 3), 3).unwrap();
    assert_eq!(lines.len(), 2);
    assert_eq!(lines[0].name, "A");
    assert!(lines[0].meal.is_none());
    assert_eq!(lines[1].name, "B");
    assert_eq!(lines[1].meal.as_ref().unwrap().name, "Soup");
}

#[test]
fn rendered_wednesday_menu_shows_station_meal_and_prices() {
    let rotas = vec![wednesday_rota(4)];
    let lines = resolve_menu(&rotas, 4, date(2024, 1, 3), 3).unwrap();
    assert_eq!(
        render(lines, false),
        "A\nB\n    Soup\n\n"
    );
    assert_eq!(
        render(lines, true),
        "A\nB\n    Soup\n\n\t\t\t\t8.5 / 12.0\n"
    );
}

#[test]
fn day_without_opening_hour_array_means_no_daily_meals() {
    let rotas = vec![WeeklyRota {
        facility_id: 4,
        valid_from: date(2024, 1, 1),
        valid_to: None,
        day_of_week_array: vec![DayOfWeek {
            day_of_week_code: 3,
            opening_hour_array: None,
        }],
    }];
    assert!(resolve_menu(&rotas, 4, date(2024, 1, 3), 3).is_none());
}

#[test]
fn no_rotation_covering_the_date_means_no_daily_meals() {
    let rotas = vec![wednesday_rota(4)];
    // Before the validity interval starts.
    assert!(resolve_menu(&rotas, 4, date(2023, 12, 27), 3).is_none());
    // Wrong facility.
    assert!(resolve_menu(&rotas, 5, date(2024, 1, 3), 3).is_none());
}

#[test]
fn closed_validity_interval_is_inclusive_on_both_ends() {
    let mut rota = wednesday_rota(4);
    rota.valid_to = Some(date(2024, 1, 7));
    let rotas = vec![rota];
    assert!(resolve_menu(&rotas, 4, date(2024, 1, 3), 3).is_some());
    assert!(resolve_menu(&rotas, 4, date(2024, 1, 1), 3).is_some());
    assert!(resolve_menu(&rotas, 4, date(2024, 1, 7), 3).is_some());
    assert!(resolve_menu(&rotas, 4, date(2024, 1, 8), 3).is_none());
}

#[test]
fn absent_weekday_means_no_daily_meals() {
    let rotas = vec![wednesday_rota(4)];
    assert!(resolve_menu(&rotas, 4, date(2024, 1, 4), 4).is_none());
}

#[test]
fn empty_opening_hours_means_no_daily_meals() {
    let rotas = vec![WeeklyRota {
        facility_id: 4,
        valid_from: date(2024, 1, 1),
        valid_to: None,
        day_of_week_array: vec![DayOfWeek {
            day_of_week_code: 3,
            opening_hour_array: Some(Vec::new()),
        }],
    }];
    assert!(resolve_menu(&rotas, 4, date(2024, 1, 3), 3).is_none());
}

#[test]
fn block_without_slots_means_no_daily_meals() {
    for slots in [None, Some(Vec::new())] {
        let rotas = vec![WeeklyRota {
            facility_id: 4,
            valid_from: date(2024, 1, 1),
            valid_to: None,
            day_of_week_array: vec![DayOfWeek {
                day_of_week_code: 3,
                opening_hour_array: Some(vec![block(slots)]),
            }],
        }];
        assert!(resolve_menu(&rotas, 4, date(2024, 1, 3), 3).is_none());
    }
}

#[test]
fn slot_without_line_array_means_no_daily_meals() {
    let rotas = vec![WeeklyRota {
        facility_id: 4,
        valid_from: date(2024, 1, 1),
        valid_to: None,
        day_of_week_array: vec![DayOfWeek {
            day_of_week_code: 3,
            opening_hour_array: Some(vec![block(Some(vec![slot(None)]))]),
        }],
    }];
    assert!(resolve_menu(&rotas, 4, date(2024, 1, 3), 3).is_none());
}

#[test]
fn present_but_empty_line_array_is_served_verbatim() {
    let rotas = vec![WeeklyRota {
        facility_id: 4,
        valid_from: date(2024, 1, 1),
        valid_to: None,
        day_of_week_array: vec![DayOfWeek {
            day_of_week_code: 3,
            opening_hour_array: Some(vec![block(Some(vec![slot(Some(Vec::new()))]))]),
        }],
    }];
    let lines = resolve_menu(&rotas, 4, date(2024, 1, 3), 3).unwrap();
    assert!(lines.is_empty());
    assert_eq!(render(lines, true), "");
    assert!(daily_menu(&rotas, 4, "poly", date(2024, 1, 3), 3).is_ok());
}

#[test]
fn first_overlapping_rotation_is_authoritative() {
    let mut second = wednesday_rota(4);
    second.day_of_week_array[0]
        .opening_hour_array
        .as_mut()
        .unwrap()[0]
        .meal_time_array
        .as_mut()
        .unwrap()[0]
        .line_array = Some(vec![station("Later", None)]);
    let rotas = vec![wednesday_rota(4), second];
    let lines = resolve_menu(&rotas, 4, date(2024, 1, 3), 3).unwrap();
    assert_eq!(lines[0].name, "A");
}

#[test]
fn first_active_rotation_with_closed_day_is_still_authoritative() {
    // The first rotation covering the date has no Wednesday entry; a later
    // overlapping rotation does, but the first match decides.
    let closed = WeeklyRota {
        facility_id: 4,
        valid_from: date(2024, 1, 1),
        valid_to: None,
        day_of_week_array: Vec::new(),
    };
    let rotas = vec![closed, wednesday_rota(4)];
    assert!(resolve_menu(&rotas, 4, date(2024, 1, 3), 3).is_none());
}

#[test]
fn daily_menu_hands_out_lines_or_no_daily_meals() {
    let rotas = vec![wednesday_rota(4)];
    let lines = daily_menu(&rotas, 4, "poly", date(2024, 1, 3), 3).unwrap();
    assert_eq!(lines.len(), 2);

    let err = daily_menu(&rotas, 4, "poly", date(2024, 1, 4), 4).unwrap_err();
    match &err {
        MensarError::NoDailyMeals(facility) => assert_eq!(facility, "poly"),
        other => panic!("unexpected error: {:?}", other),
    }
    assert_eq!(err.message(), "mensar: no daily meals for `poly`");
}

#[test]
fn rotations_of_other_facilities_are_skipped() {
    let rotas = vec![wednesday_rota(9), wednesday_rota(4)];
    assert!(resolve_menu(&rotas, 4, date(2024, 1, 3), 3).is_some());
}
