use mensar::model::{LineElement, Meal, MealPrice};
use mensar::render::{join_prices, render, render_element};

fn price(text: &str) -> MealPrice {
    MealPrice {
        price: String::from(text),
        customer_group_desc: String::from("students"),
    }
}

fn meal(name: &str, description: &str, prices: Vec<MealPrice>) -> Meal {
    Meal {
        name: String::from(name),
        description: String::from(description),
        meal_price_array: prices,
    }
}

#[test]
fn price_tiers_join_with_separator_in_input_order() {
    assert_eq!(join_prices(&vec![]), "");
    assert_eq!(join_prices(&vec![price("8.5")]), "8.5");
    assert_eq!(
        join_prices(&vec![price("8.5"), price("12.0"), price("14.5")]),
        "8.5 / 12.0 / 14.5"
    );
    assert_eq!(
        join_prices(&vec![price("12.0"), price("8.5")]),
        "12.0 / 8.5"
    );
}

#[test]
fn prices_off_emits_no_price_line() {
    let lines = vec![LineElement {
        name: String::from("Grill"),
        meal: Some(meal("Steak", "Grilled to order", vec![price("19.5")])),
    }];
    let text = render(&lines, false);
    assert_eq!(text, "Grill\n    Steak\n    Grilled to order\n");
    assert!(!text.contains("19.5"));
}

#[test]
fn prices_on_adds_exactly_one_indented_line() {
    let lines = vec![LineElement {
        name: String::from("Grill"),
        meal: Some(meal("Steak", "Grilled to order", vec![price("19.5")])),
    }];
    let without = render(&lines, false);
    let with = render(&lines, true);
    assert_eq!(with, format!("{}\t\t\t\t19.5\n", without));
}

#[test]
fn station_without_meal_prints_only_its_name() {
    let lines = vec![
        LineElement {
            name: String::from("A"),
            meal: None,
        },
        LineElement {
            name: String::from("B"),
            meal: None,
        },
    ];
    assert_eq!(render(&lines, true), "A\nB\n");
}

#[test]
fn long_description_wraps_at_forty_columns() {
    let description = "a very long meal description that certainly cannot fit on one line of forty columns";
    let element = LineElement {
        name: String::from("Home"),
        meal: Some(meal("Stew", description, vec![])),
    };
    let text = render_element(&element, false);
    assert_eq!(
        text,
        "Home\n    Stew\n    a very long meal description that\n    certainly cannot fit on one line of\n    forty columns\n"
    );
}

#[test]
fn meal_name_is_indented_four_spaces() {
    let element = LineElement {
        name: String::from("Garden"),
        meal: Some(meal("Salad", "Leaves", vec![])),
    };
    assert_eq!(
        render_element(&element, false),
        "Garden\n    Salad\n    Leaves\n"
    );
}

#[test]
fn empty_menu_renders_as_empty_text() {
    assert_eq!(render(&Vec::new(), false), "");
    assert_eq!(render(&Vec::new(), true), "");
}

#[test]
fn rendering_keeps_input_order_of_stations() {
    let lines = vec![
        LineElement {
            name: String::from("Z"),
            meal: None,
        },
        LineElement {
            name: String::from("A"),
            meal: None,
        },
    ];
    assert_eq!(render(&lines, false), "Z\nA\n");
}
