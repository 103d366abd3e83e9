use mensar::error::MensarError;
use mensar::model::Facility;
use mensar::resolver::{list_published, list_text, resolve};

fn facility(id: usize, name: &str, publication: usize) -> Facility {
    Facility {
        facility_id: id,
        facility_name: String::from(name),
        publication_type_code: publication,
    }
}

#[test]
fn query_resolves_to_first_match_in_catalog_order() {
    let catalog = vec![facility(1, "Polyterrasse", 1), facility(2, "Polybahn", 0)];
    let found = resolve(&catalog, "poly").unwrap();
    assert_eq!(found.facility_id, 1);
    assert_eq!(found.facility_name, "Polyterrasse");
}

#[test]
fn list_shows_only_published_facilities() {
    let catalog = vec![facility(1, "Polyterrasse", 1), facility(2, "Polybahn", 0)];
    let names = list_published(&catalog);
    assert_eq!(names, vec![String::from("Polyterrasse")]);
    assert_eq!(list_text(&catalog), "Polyterrasse\n");
}

#[test]
fn matching_folds_case_on_both_sides() {
    let catalog = vec![facility(7, "Mensa Polyterrasse", 1)];
    assert_eq!(resolve(&catalog, "POLYTERRASSE").unwrap().facility_id, 7);
    assert_eq!(resolve(&catalog, "mensa").unwrap().facility_id, 7);
}

#[test]
fn matching_is_substring_not_exact() {
    let catalog = vec![facility(3, "Clausiusbar", 1)];
    assert_eq!(resolve(&catalog, "usius").unwrap().facility_id, 3);
}

#[test]
fn unmatched_query_reports_facility_not_found() {
    let catalog = vec![facility(1, "Polyterrasse", 1)];
    let err = resolve(&catalog, "dozentenfoyer").unwrap_err();
    match &err {
        MensarError::FacilityNotFound(q) => assert_eq!(q, "dozentenfoyer"),
        other => panic!("unexpected error: {:?}", other),
    }
    assert_eq!(
        err.message(),
        "mensar: could not find facility `dozentenfoyer`"
    );
}

#[test]
fn hidden_facilities_still_resolve_by_query() {
    let catalog = vec![facility(1, "Polyterrasse", 1), facility(2, "Polybahn", 0)];
    assert_eq!(resolve(&catalog, "bahn").unwrap().facility_id, 2);
}

#[test]
fn empty_catalog_resolves_nothing_and_lists_nothing() {
    let catalog: Vec<Facility> = Vec::new();
    assert!(resolve(&catalog, "poly").is_err());
    assert!(list_published(&catalog).is_empty());
    assert_eq!(list_text(&catalog), "");
}
