use zk_coloring::color::Color;
use zk_coloring::graph::Graph;
use zk_coloring::prover::{build_graph, prove, prover, round};
use zk_coloring::session::{Result, Verifier, ACCEPTANCE_CONFIDENCE, CONFIDENCE_ONE};

#[test]
fn honest_prover_is_accepted() {
    let (result, confidence) = prover();
    assert_eq!(result, Result::Accepted);
    assert!(confidence > ACCEPTANCE_CONFIDENCE);
    assert!(confidence < CONFIDENCE_ONE);
    assert!(confidence as f64 / CONFIDENCE_ONE as f64 > 0.9999);
    assert_eq!(confidence, 999_924_660_680_709_525_035_635_316_936_311_055);
}

#[test]
fn honest_rounds_accept_within_tens_of_rounds() {
    let statement = build_graph();
    let mut verifier = Verifier::new();
    let mut rounds = 0;
    while verifier.result == Result::Undecided {
        let before = verifier.confidence;
        let (a, b) = round(&statement, &mut verifier).unwrap();
        assert_eq!(b, statement.get_adjacent(a)[0]);
        assert!(verifier.confidence > before);
        rounds += 1;
        assert!(rounds <= 33);
    }
    assert_eq!(rounds, 33);
    assert_eq!(verifier.result, Result::Accepted);
    assert!(verifier.confidence as f64 / CONFIDENCE_ONE as f64 > 0.9999);
    assert_eq!(round(&statement, &mut verifier), None);
    assert_eq!(verifier.result, Result::Accepted);
}

#[test]
fn round_rejects_an_edge_with_one_color() {
    let mut statement: Graph<Color> = Graph::new();
    let a = statement.add_vertex();
    let b = statement.add_vertex();
    statement.make_adjacent(a, b);
    statement.color(a, Color::Blue);
    statement.color(b, Color::Blue);
    let mut verifier = Verifier::new();
    assert!(round(&statement, &mut verifier).is_some());
    assert_eq!(verifier.result, Result::Rejected);
    assert_eq!(verifier.confidence, CONFIDENCE_ONE);
    assert_eq!(round(&statement, &mut verifier), None);
    assert_eq!(prove(&statement), (Result::Rejected, CONFIDENCE_ONE));
}

#[test]
fn prove_rejects_an_invalid_coloring_when_its_edge_is_asked_for() {
    // vertex 3 is given the colour of its first neighbour: the edge from 3
    // is the only one asked for that shows it, so a run may end either way
    let mut statement = build_graph();
    statement.color(3, Color::Red);
    assert!(!statement.is_valid_coloring());
    let mut rejected = 0;
    for _ in 0..40 {
        let (result, confidence) = prove(&statement);
        match result {
            Result::Rejected => {
                assert_eq!(confidence, CONFIDENCE_ONE);
                rejected += 1;
            }
            Result::Accepted => {
                assert_eq!(confidence, 999_924_660_680_709_525_035_635_316_936_311_055)
            }
            Result::Undecided => panic!("prove returned without a decision"),
        }
    }
    assert!(rejected >= 1);
}

#[test]
fn round_rejects_only_on_the_edge_with_one_color() {
    let mut statement = build_graph();
    statement.color(3, Color::Red);
    for _ in 0..40 {
        let mut verifier = Verifier::new();
        let (a, b) = round(&statement, &mut verifier).unwrap();
        if a == 3 {
            assert_eq!(b, 1);
            assert_eq!(verifier.result, Result::Rejected);
            assert_eq!(verifier.confidence, CONFIDENCE_ONE);
        } else {
            assert_eq!(verifier.result, Result::Undecided);
            assert_eq!(verifier.confidence, 250_000_000_000_000_000_000_000_000_000_000_000);
        }
    }
}

#[test]
fn prove_accepts_a_valid_coloring_of_two_vertices() {
    let mut statement: Graph<Color> = Graph::new();
    let a = statement.add_vertex();
    let b = statement.add_vertex();
    statement.make_adjacent(a, b);
    statement.color(a, Color::Red);
    statement.color(b, Color::Green);
    let (result, confidence) = prove(&statement);
    assert_eq!(result, Result::Accepted);
    assert_eq!(confidence, 999_938_964_843_750_000_000_000_000_000_000_000);
}

#[test]
fn round_on_a_graph_with_an_isolated_vertex_may_ask_for_nothing() {
    let mut statement: Graph<Color> = Graph::new();
    let only = statement.add_vertex();
    statement.color(only, Color::Green);
    let mut verifier = Verifier::new();
    for _ in 0..20 {
        assert_eq!(round(&statement, &mut verifier), None);
        assert_eq!(verifier.result, Result::Undecided);
        assert_eq!(verifier.confidence, 0);
    }
}
