use vaktijars::{
    resolve_location, score, top_k_of_scores, City, CityCatalog, CoreError, PREFIX_BONUS,
};

fn catalog(names: &[&str]) -> CityCatalog {
    let cities = names
        .iter()
        .enumerate()
        .map(|(i, n)| City::named(n, i as i64 * 1_000_000, -(i as i64) * 1_000_000).unwrap())
        .collect();
    CityCatalog::new(cities)
}

#[test]
fn score_values() {
    assert_eq!(score(0, true), -PREFIX_BONUS);
    assert_eq!(score(3, false), 3);
    assert_eq!(score(2, true), -8);
}

#[test]
fn top_k_orders_by_score_then_position() {
    assert_eq!(top_k_of_scores(&vec![3, 1, 1, 0], 2), vec![(0, 3), (1, 1)]);
    assert_eq!(top_k_of_scores(&vec![3, 1, 1, 0], 3), vec![(0, 3), (1, 1), (1, 2)]);
    assert_eq!(top_k_of_scores(&vec![2, -10], 5), vec![(-10, 1), (2, 0)]);
    assert_eq!(top_k_of_scores(&vec![2, -10], 0), vec![]);
    assert_eq!(top_k_of_scores(&vec![], 5), vec![]);
    assert_eq!(top_k_of_scores(&vec![4, 4, 4], 2), vec![(4, 0), (4, 1)]);
}

#[test]
fn paris_exact_match_first() {
    let c = catalog(&["Baris", "Parisot", "Pariz", "Paris", "Lyon", "Paris"]);
    let r = c.top_k("paris", 5).unwrap();
    assert_eq!(r.len(), 5);
    assert_eq!(r[0], (-10, 3));
    assert_eq!(r[1], (-10, 5));
    assert_eq!(r[2], (-8, 1));
    assert_eq!(r[3], (1, 0));
    assert_eq!(r[4], (1, 2));
}

#[test]
fn search_ignores_case() {
    let c = catalog(&["Lyon", "Paris"]);
    assert_eq!(c.top_k("PARIS", 1).unwrap(), vec![(-10, 1)]);
    assert_eq!(c.top_k("pArIs", 2).unwrap(), vec![(-10, 1), (5, 0)]);
}

#[test]
fn prefix_beats_fuzzy_at_equal_distance() {
    // both are one edit away from "pari"; only "Paris" starts with it
    let c = catalog(&["Bari", "Paris"]);
    assert_eq!(c.top_k("pari", 2).unwrap(), vec![(-9, 1), (1, 0)]);
}

#[test]
fn empty_query_is_rejected() {
    let c = catalog(&["Paris"]);
    assert_eq!(c.top_k("", 5), Err(CoreError::EmptyQuery));
    assert_eq!(c.best_match(""), Err(CoreError::EmptyQuery));
}

#[test]
fn empty_catalog() {
    let c = catalog(&[]);
    assert_eq!(c.top_k("paris", 5), Ok(vec![]));
    assert_eq!(c.best_match("paris"), Err(CoreError::EmptyCatalog));
}

#[test]
fn best_match_takes_first_minimum() {
    let c = catalog(&["Lyon", "Nice", "Nice"]);
    assert_eq!(c.best_match("nice"), Ok(1));
}

#[test]
fn resolve_from_query() {
    let c = catalog(&["Lyon", "Paris"]);
    assert_eq!(resolve_location(&c, Some("paris"), None, None), Ok((1_000_000, -1_000_000)));
    assert_eq!(resolve_location(&c, Some(""), Some(1), Some(2)), Err(CoreError::EmptyQuery));
    let empty = catalog(&[]);
    assert_eq!(
        resolve_location(&empty, Some("paris"), None, None),
        Err(CoreError::EmptyCatalog)
    );
}

#[test]
fn resolve_from_coordinates() {
    let c = catalog(&[]);
    assert_eq!(
        resolve_location(&c, None, Some(43_140_000), Some(20_520_000)),
        Ok((43_140_000, 20_520_000))
    );
    assert_eq!(
        resolve_location(&c, None, Some(91_000_000), Some(0)),
        Err(CoreError::InvalidCoordinate)
    );
    assert_eq!(
        resolve_location(&c, None, Some(1), None),
        Err(CoreError::MissingCoordinates)
    );
    assert_eq!(
        resolve_location(&c, None, None, None),
        Err(CoreError::MissingCoordinates)
    );
}
