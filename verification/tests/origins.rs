//! The origin model: satisfies, equality, and rendering.

use inlet::ast::origin::Origin;
use inlet::ast::path::Path;

fn chars(s: &str) -> Vec<char> {
    s.chars().collect()
}

fn exact(s: &str) -> Origin {
    Origin::Exact(Path::from(&chars(s)))
}

#[test]
fn universal_satisfies_only_universal() {
    assert!(Origin::Universal.satisfies(&Origin::Universal));
    assert!(!Origin::Universal.satisfies(&exact("a")));
}

#[test]
fn exact_satisfies_universal() {
    assert!(exact("a::b").satisfies(&Origin::Universal));
}

#[test]
fn exact_satisfies_itself() {
    assert!(exact("a::b::c").satisfies(&exact("a::b::c")));
    assert!(exact("a").satisfies(&exact("a")));
}

#[test]
fn exact_satisfies_its_prefixes() {
    assert!(exact("a::b::c").satisfies(&exact("a::b")));
    assert!(exact("a::b::c").satisfies(&exact("a")));
    assert!(!exact("a::b").satisfies(&exact("a::b::c")));
}

#[test]
fn prefixes_match_on_the_literal_string() {
    // The relation tests the literal canonical form, so a non-segment-
    // aligned prefix also matches: a recorded language decision.
    assert!(exact("a::bc").satisfies(&exact("a::b")));
    assert!(!exact("a::b").satisfies(&exact("a::bc")));
}

#[test]
fn satisfies_is_transitive_on_a_chain() {
    let a = exact("x::y::z");
    let b = exact("x::y");
    let c = exact("x");
    assert!(a.satisfies(&b));
    assert!(b.satisfies(&c));
    assert!(a.satisfies(&c));
}

#[test]
fn origin_equality_is_on_the_canonical_string() {
    assert!(exact("a::b") == exact("a::b"));
    assert!(exact("a::b") != exact("a::c"));
    assert!(Origin::Universal == Origin::Universal);
    assert!(Origin::Universal != exact("a"));
}

#[test]
fn origin_renders_as_star_or_path() {
    assert_eq!(Origin::Universal.to_chars().iter().collect::<String>(), "*");
    assert_eq!(exact("a::b").to_chars().iter().collect::<String>(), "a::b");
}

#[test]
fn path_round_trips_through_its_string() {
    let p = Path::from(&chars("alpha::beta::gamma"));
    assert_eq!(p.to_chars().iter().collect::<String>(), "alpha::beta::gamma");
    assert_eq!(p.segments.len(), 3);
    assert_eq!(p.segments[1].raw.iter().collect::<String>(), "beta");
}
