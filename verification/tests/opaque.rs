use djls_semantic::opaque::OpaqueRegions;
use djls_semantic::span::Span;

#[test]
fn test_opaque_regions_empty() {
    let regions = OpaqueRegions::default();
    assert!(!regions.is_opaque(0));
    assert!(!regions.is_opaque(100));
    assert!(regions.is_empty());
    assert!(OpaqueRegions::empty().is_empty());
}

#[test]
fn test_opaque_regions_basic() {
    let regions = OpaqueRegions::new(vec![Span::saturating_from_bounds_usize(10, 20)]);
    assert!(!regions.is_opaque(5));
    assert!(!regions.is_opaque(9));
    assert!(regions.is_opaque(10));
    assert!(regions.is_opaque(15));
    assert!(regions.is_opaque(19));
    assert!(!regions.is_opaque(20));
    assert!(!regions.is_opaque(25));
    assert!(!regions.is_empty());
}

#[test]
fn test_opaque_regions_multiple() {
    let regions = OpaqueRegions::new(vec![
        Span::saturating_from_bounds_usize(10, 20),
        Span::saturating_from_bounds_usize(30, 40),
    ]);
    assert!(regions.is_opaque(15));
    assert!(!regions.is_opaque(25));
    assert!(regions.is_opaque(35));
    assert!(!regions.is_opaque(45));
}

#[test]
fn test_opaque_regions_sorted() {
    let regions = OpaqueRegions::new(vec![
        Span::saturating_from_bounds_usize(30, 40),
        Span::saturating_from_bounds_usize(10, 20),
    ]);
    assert!(regions.is_opaque(15));
    assert!(regions.is_opaque(35));
    assert!(!regions.is_opaque(25));
}

#[test]
fn opaque_regions_many_unsorted() {
    let spans: Vec<Span> = (0..20u32).rev().map(|k| Span::new(k * 10, 5)).collect();
    let regions = OpaqueRegions::new(spans);
    for p in 0..200u32 {
        assert_eq!(regions.is_opaque(p), p % 10 < 5, "position {p}");
    }
}

#[test]
fn span_arithmetic() {
    let s = Span::new(10, 5);
    assert_eq!(s.start(), 10);
    assert_eq!(s.length(), 5);
    assert_eq!(s.end(), 15);
    assert!(s.contains(10));
    assert!(s.contains(14));
    assert!(!s.contains(15));
    assert_eq!(s.expand(2, 3), Span::new(8, 10));
    assert_eq!(Span::new(1, 2).expand(2, 2), Span::new(0, 6));
    assert_eq!(Span::new(u32::MAX - 1, 5).end(), u32::MAX);
    assert_eq!(Span::saturating_from_bounds_usize(5, 3), Span::new(5, 0));
}

#[test]
fn opaque_regions_accept_overlapping_spans() {
    let regions = OpaqueRegions::new(vec![
        Span::saturating_from_bounds_usize(30, 40),
        Span::saturating_from_bounds_usize(10, 35),
    ]);
    assert!(regions.is_opaque(12));
    assert!(!regions.is_opaque(5));
    assert!(!regions.is_opaque(45));
}

#[test]
fn opaque_regions_with_an_empty_span_at_a_shared_start() {
    let empty_first = OpaqueRegions::new(vec![
        Span::saturating_from_bounds_usize(3, 3),
        Span::saturating_from_bounds_usize(3, 8),
    ]);
    assert!(empty_first.is_opaque(5));

    let empty_last = OpaqueRegions::new(vec![
        Span::saturating_from_bounds_usize(3, 8),
        Span::saturating_from_bounds_usize(3, 3),
    ]);
    assert!(!empty_last.is_opaque(5));
}
