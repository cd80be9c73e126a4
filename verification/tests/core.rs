use engine_bench::metrics::{
    compute_bfactor, compute_nps, is_improvement, BFactor, Direction, MetricError, Nodes, Nps,
    Score, Time,
};
use engine_bench::diff::{Diff, DiffError, NodeDiff, ChangeKind};
use engine_bench::fields::{Extract, Fields};
use engine_bench::report::{aggregate, mean_result, Report};
use engine_bench::search_result::SearchResult;

fn result(position: &str, depth: usize, nodes: u32, time: u64, score: i32, mv: &str) -> SearchResult {
    SearchResult::new(position.to_string(), depth, nodes, time, score, mv.to_string()).unwrap()
}

#[test]
fn speed_matches_direct_division() {
    let nps = compute_nps(5000, 20).unwrap();
    assert_eq!(nps, Nps(250));
    let nps = compute_nps(99, 100).unwrap();
    assert_eq!(nps, Nps(0));
    assert_eq!(Nps::direction(), Direction::HigherIsBetter);
}

#[test]
fn speed_rejects_zero_time() {
    assert_eq!(compute_nps(5000, 0), Err(MetricError::InvalidMetricInput));
}

#[test]
fn branching_factor_is_integer_root() {
    assert_eq!(compute_bfactor(100, 2).unwrap(), BFactor(10));
    assert_eq!(compute_bfactor(99, 2).unwrap(), BFactor(9));
    assert_eq!(compute_bfactor(8855, 5).unwrap(), BFactor(6));
    assert_eq!(compute_bfactor(0, 3).unwrap(), BFactor(0));
    assert_eq!(compute_bfactor(1, 7).unwrap(), BFactor(1));
    assert_eq!(BFactor::direction(), Direction::LowerIsBetter);
}

#[test]
fn branching_factor_rejects_zero_depth() {
    assert_eq!(compute_bfactor(100, 0), Err(MetricError::InvalidMetricInput));
}

#[test]
fn directions_per_metric() {
    assert_eq!(Nodes::direction(), Direction::LowerIsBetter);
    assert_eq!(Time::direction(), Direction::LowerIsBetter);
    assert_eq!(Score::direction(), Direction::HigherIsBetter);
}

#[test]
fn improvement_goes_through_direction() {
    assert!(is_improvement(Direction::LowerIsBetter, 1000, 800));
    assert!(!is_improvement(Direction::LowerIsBetter, 1000, 1200));
    assert!(is_improvement(Direction::HigherIsBetter, 100, 150));
    assert!(!is_improvement(Direction::HigherIsBetter, 100, 100));
}

#[test]
fn diff_of_result_with_itself_is_all_zero() {
    let r = result("startpos", 5, 1000, 50, -30, "e2e4");
    let d = Diff::new(&r, &r).unwrap();
    assert_eq!(d.nodes.relative, 0);
    assert_eq!(d.time.relative, 0);
    assert_eq!(d.nps.relative, 0);
    assert_eq!(d.score.relative, 0);
    assert_eq!(d.branching_factor.relative, 0);
    assert!(!d.best_move.changed());
}

#[test]
fn diff_relative_change_is_per_ten_thousand() {
    let base = result("p", 5, 1000, 50, 40, "a");
    let fresh = result("p", 5, 800, 40, 30, "b");
    let d = Diff::new(&base, &fresh).unwrap();
    // (800 - 1000) * 10000 / 1000
    assert_eq!(d.nodes.relative, -2000);
    // (40 - 50) * 10000 / 50
    assert_eq!(d.time.relative, -2000);
    // (30 - 40) * 10000 / 40
    assert_eq!(d.score.relative, -2500);
    assert!(d.best_move.changed());
}

#[test]
fn diff_of_different_positions_fails() {
    let a = result("first-position", 5, 1000, 50, 0, "a");
    let b = result("second-position", 5, 900, 50, 0, "a");
    assert_eq!(Diff::new(&a, &b).unwrap_err(), DiffError::PositionMismatch);
}

#[test]
fn diff_zero_baseline_with_nonzero_fresh_fails() {
    let a = result("p", 5, 1000, 50, 0, "a");
    let b = result("p", 5, 1000, 50, 7, "a");
    assert_eq!(Diff::new(&a, &b).unwrap_err(), DiffError::UndefinedRelativeChange);
}

#[test]
fn diff_zero_baseline_with_zero_fresh_is_zero_change() {
    let a = result("p", 5, 1000, 50, 0, "a");
    let b = result("p", 5, 1000, 50, 0, "a");
    let d = Diff::new(&a, &b).unwrap();
    assert_eq!(d.score.relative, 0);
}

#[test]
fn aggregate_of_nothing_is_zero_report() {
    let r = aggregate(&Vec::new());
    assert_eq!(r, Report::zero());
    assert_eq!(r.count, 0);
    // Means of an empty report divide by one, never by zero.
    let n = r.divisor();
    assert_eq!(n, 1);
    assert_eq!(r.nodes.mean_first(n), 0);
    assert_eq!(r.nodes.mean_relative(n), 0);
}

#[test]
fn aggregate_is_order_insensitive() {
    let base = result("p", 5, 1000, 50, 40, "a");
    let f1 = result("p", 5, 800, 40, 30, "b");
    let f2 = result("p", 5, 1200, 60, 50, "c");
    let f3 = result("p", 5, 1000, 50, 40, "a");
    let a = Diff::new(&base, &f1).unwrap();
    let b = Diff::new(&base, &f2).unwrap();
    let c = Diff::new(&base, &f3).unwrap();
    let one = aggregate(&vec![a.clone(), b.clone(), c.clone()]);
    let two = aggregate(&vec![c, a, b]);
    assert_eq!(one, two);
}

#[test]
fn aggregate_sums_and_counts() {
    let base = result("p", 5, 1000, 50, 40, "a");
    let f1 = result("p", 5, 800, 40, 30, "b");
    let f2 = result("p", 5, 1200, 60, 50, "c");
    let r = aggregate(&vec![Diff::new(&base, &f1).unwrap(), Diff::new(&base, &f2).unwrap()]);
    assert_eq!(r.count, 2);
    assert_eq!(r.nodes.sum_first, 2000);
    assert_eq!(r.nodes.sum_second, 2000);
    assert_eq!(r.nodes.mean_second(r.divisor()), 1000);
    assert_eq!(r.time.sum_second, 100);
}

#[test]
fn improvement_counting_respects_direction() {
    let base = result("p", 5, 1000, 50, 40, "a");
    let better = result("p", 5, 800, 50, 40, "a");
    let worse = result("p", 5, 1200, 50, 40, "a");
    let r = aggregate(&vec![Diff::new(&base, &better).unwrap(), Diff::new(&base, &worse).unwrap()]);
    // Fewer nodes is the improvement: exactly one of the two diffs improved.
    assert_eq!(r.nodes.improved, 1);
    assert_eq!(r.count, 2);
    // Time was unchanged in both: no improvement either way.
    assert_eq!(r.time.improved, 0);
}

#[test]
fn mean_result_blanks_non_numeric_fields() {
    let a = result("p", 5, 1000, 50, 40, "a");
    let b = result("p", 5, 2000, 70, -20, "b");
    let m = mean_result(&vec![a, b]);
    assert_eq!(m.position, "");
    assert_eq!(m.best_move, "");
    assert_eq!(m.depth, 0);
    assert_eq!(m.nodes, Nodes(1500));
    assert_eq!(m.time, Time(60));
    assert_eq!(m.score, Score(10));
}

#[test]
fn mean_result_of_nothing_is_zero() {
    let m = mean_result(&Vec::new());
    assert_eq!(m.nodes, Nodes(0));
    assert_eq!(m.time, Time(0));
    assert_eq!(m.score, Score(0));
}

#[test]
fn metric_rendering() {
    assert_eq!(Nodes(8855).render(), "8855 nodes");
    assert_eq!(Time(35).render(), "35ms");
    assert_eq!(Nps(253).render(), "253knps");
    assert_eq!(BFactor(2).render(), "2");
    assert_eq!(Score(15).render(), "+0.15");
    assert_eq!(Score(-120).render(), "-1.20");
    assert_eq!(Score(0).render(), "+0.00");
}

#[test]
fn extract_selects_columns_in_order() {
    let r = result("startpos", 5, 100, 50, 0, "e2e4");
    let all = Fields::default();
    let cells = r.extract(&all);
    assert_eq!(
        cells,
        vec![
            "startpos".to_string(),
            "100 nodes".to_string(),
            "50ms".to_string(),
            "2knps".to_string(),
            "2".to_string(),
            "+0.00".to_string(),
        ]
    );
    let none = Fields {
        nodes: false,
        time: false,
        nps: false,
        branching: false,
        score: false,
        best_move: false,
    };
    assert_eq!(r.extract(&none), vec!["startpos".to_string()]);
}

#[test]
fn diff_extract_renders_aligned_cells() {
    let base = result("p", 5, 100, 50, 0, "a");
    let fresh = result("p", 5, 80, 50, 0, "a");
    let d = Diff::new(&base, &fresh).unwrap();
    let mut fields = Fields::default();
    fields.time = false;
    fields.nps = false;
    fields.branching = false;
    fields.score = false;
    let cells = d.extract(&fields);
    assert_eq!(cells.len(), 2);
    assert_eq!(cells[0], "p");
    let expected =
        "      100 nodes".to_string() + " " + "       80 nodes" + " " + "           (-20.00%)";
    assert_eq!(cells[1], expected);
}

#[test]
fn diff_classes_follow_directions() {
    let base = result("p", 5, 1000, 50, 40, "a");
    let fresh = result("p", 5, 800, 50, 50, "a");
    let d = Diff::new(&base, &fresh).unwrap();
    let classes = d.classes(&Fields::default());
    // position, nodes, time, nps, branching factor, score
    assert_eq!(classes[0], ChangeKind::Plain);
    assert_eq!(classes[1], ChangeKind::Improvement);
    assert_eq!(classes[2], ChangeKind::Unchanged);
    assert_eq!(classes[5], ChangeKind::Improvement);
}

#[test]
fn node_diff_constructor_checks_baseline() {
    let d = NodeDiff::new(Nodes(100), Nodes(150)).unwrap();
    assert_eq!(d.relative, 5000);
    assert_eq!(
        NodeDiff::new(Nodes(0), Nodes(1)).unwrap_err(),
        DiffError::UndefinedRelativeChange
    );
}

#[test]
fn metric_combine_and_scale() {
    assert_eq!(Nodes(300).combine(Nodes(700)), Nodes(1000));
    assert_eq!(Nodes(1000).scale_down(4), Nodes(250));
    assert_eq!(Score(-7).combine(Score(3)), Score(-4));
    assert_eq!(Score(-7).scale_down(2), Score(-3));
    assert_eq!(Time(90).scale_down(4), Time(22));
}

#[test]
fn result_constructor_rejects_undefined_rates() {
    let e = SearchResult::new("p".to_string(), 5, 100, 0, 0, "m".to_string());
    assert_eq!(e.unwrap_err(), MetricError::InvalidMetricInput);
    let e = SearchResult::new("p".to_string(), 0, 100, 50, 0, "m".to_string());
    assert_eq!(e.unwrap_err(), MetricError::InvalidMetricInput);
}

#[test]
fn result_combine_blanks_position() {
    let a = result("p", 5, 1000, 50, 40, "a");
    let b = result("p", 5, 500, 30, -10, "b");
    let c = a.combine(b);
    assert_eq!(c.position, "");
    assert_eq!(c.nodes, Nodes(1500));
    assert_eq!(c.time, Time(80));
    assert_eq!(c.score, Score(30));
}

#[test]
fn fields_from_cli_honors_all_flag() {
    let cli = engine_bench::cli::Cli {
        engine: "engine".to_string(),
        depth: 10,
        output: "out.json".to_string(),
        fens: None,
        snapshot: "snap.json".to_string(),
        save: false,
        all: true,
        nodes: false,
        time: false,
        nps: false,
        branching: false,
        score: false,
        best_move: false,
    };
    let f = Fields::from_cli(&cli);
    assert!(f.nodes && f.time && f.nps && f.branching && f.score && f.best_move);
}

#[test]
fn largest_values_stay_exact() {
    assert_eq!(compute_bfactor(u32::MAX, 1).unwrap(), BFactor(u32::MAX));
    assert_eq!(compute_nps(u32::MAX, 1).unwrap(), Nps(u32::MAX));
    let r = SearchResult::new("p".to_string(), 1, u32::MAX, 1, i32::MIN, "m".to_string()).unwrap();
    assert_eq!(r.nps, Nps(u32::MAX));
    assert_eq!(r.branching_factor, BFactor(u32::MAX));
    assert_eq!(r.score, Score(i32::MIN));
    assert_eq!(Nodes(0).render(), "0 nodes");
}
