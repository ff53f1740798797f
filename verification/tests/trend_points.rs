use fwmap::history::TrendFormat;
use fwmap::trend::{classify_trend_metric, trend_points, trend_presentation, why_linked_note};

#[test]
fn points_come_out_oldest_first() {
    let rows = vec![(3, 300, 30, None), (2, 200, 20, Some("n".to_string())), (1, 100, 10, None)];
    let points = trend_points(rows, "rom", TrendFormat::Bytes);
    let ids: Vec<i64> = points.iter().map(|p| p.build_id).collect();
    assert_eq!(ids, vec![1, 2, 3]);
    assert_eq!(points[1].note.as_deref(), Some("n"));
    assert_eq!(points[2].value, 30);
    assert_eq!(points[0].created_at, 100);
    assert!(points.iter().all(|p| p.label == "rom" && p.format == TrendFormat::Bytes));
    assert!(trend_points(vec![], "x", TrendFormat::Count).is_empty());
}

#[test]
fn unknown_source_trend_is_a_percentage() {
    let q = classify_trend_metric("unknown_source").unwrap();
    let (label, format, note) = trend_presentation(&q);
    assert_eq!(label, "unknown_source");
    assert_eq!(format, TrendFormat::Percent);
    assert_eq!(note, None);
}

#[test]
fn why_linked_points_are_noted_with_their_explanation() {
    assert_eq!(why_linked_note("high", "main.o is kept"), "[high] main.o is kept");
}
