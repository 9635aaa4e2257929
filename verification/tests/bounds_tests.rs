use veryl_ipxact::bounds::{combined_left_bound, left_bound};

#[test]
fn left_bound_constant_is_folded() {
    assert_eq!(left_bound("8"), "7");
    assert_eq!(left_bound("1"), "0");
    assert_eq!(left_bound("0"), "0");
}

#[test]
fn left_bound_parametric_keeps_expression() {
    assert_eq!(left_bound("WIDTH"), "WIDTH-1");
    assert_eq!(left_bound("WIDTH + 4"), "(WIDTH + 4)-1");
}

#[test]
fn combined_left_bound_multiplies_constants() {
    let dims = vec!["4".to_string(), "8".to_string()];
    assert_eq!(combined_left_bound(&dims), "31");
}

#[test]
fn combined_left_bound_falls_back_on_parametric() {
    let dims = vec!["WIDTH".to_string(), "8".to_string()];
    assert_eq!(combined_left_bound(&dims), "WIDTH-1");
}

#[test]
fn left_bound_trims_and_reads_like_u128_parse() {
    assert_eq!(left_bound("  16\t"), "15");
    assert_eq!(left_bound("+8"), "7");
    assert_eq!(left_bound("007"), "6");
    assert_eq!(left_bound(" W_2 "), "W_2-1");
    assert_eq!(left_bound("-8"), "(-8)-1");
    assert_eq!(left_bound("+"), "(+)-1");
    assert_eq!(left_bound(""), "()-1");
    assert_eq!(left_bound("a.b"), "(a.b)-1");
    assert_eq!(
        left_bound("340282366920938463463374607431768211455"),
        "340282366920938463463374607431768211454"
    );
    // One past u128::MAX is no constant: all digits, so a bare word.
    assert_eq!(
        left_bound("340282366920938463463374607431768211456"),
        "340282366920938463463374607431768211456-1"
    );
}

#[test]
fn combined_left_bound_edge_cases() {
    let none: Vec<String> = Vec::new();
    assert_eq!(combined_left_bound(&none), "0");
    let one = vec!["16".to_string()];
    assert_eq!(combined_left_bound(&one), left_bound("16"));
    let later = vec!["4".to_string(), "N+1".to_string()];
    assert_eq!(combined_left_bound(&later), "3");
    let huge = vec![
        "340282366920938463463374607431768211455".to_string(),
        "2".to_string(),
    ];
    assert_eq!(
        combined_left_bound(&huge),
        "340282366920938463463374607431768211454"
    );
    let zero = vec!["0".to_string(), "8".to_string()];
    assert_eq!(combined_left_bound(&zero), "0");
    let spaced = vec![" 2 ".to_string(), "3".to_string(), "\n4".to_string()];
    assert_eq!(combined_left_bound(&spaced), "23");
}
