use zk_coloring::color::Color;
use zk_coloring::commitment::{Commitment, ZKCommitment};
use zk_coloring::graph::Graph;
use zk_coloring::prover::build_graph;
use zk_coloring::session::{Result, Verifier, ACCEPTANCE_CONFIDENCE, CONFIDENCE_ONE};

fn committed() -> (Graph<Color>, Graph<Commitment>) {
    let g = build_graph();
    let commitment = g.commit();
    (g, commitment)
}

fn pass_round(verifier: &mut Verifier, vertex: usize) {
    let (g, commitment) = committed();
    let (a, b) = verifier.challenge_vertex(commitment.zk_commit(), vertex).unwrap();
    let (color_a, color_b) = g.colors_for(a, b).unwrap();
    let (salt_a, salt_b) = commitment.colors_for(a, b).unwrap();
    verifier.verify_coloring(color_a, &salt_a.secret, color_b, &salt_b.secret);
}

fn as_fraction(confidence: u128) -> f64 {
    confidence as f64 / CONFIDENCE_ONE as f64
}

#[test]
fn constants_are_one_and_the_threshold() {
    assert_eq!(CONFIDENCE_ONE, 10u128.pow(36));
    assert_eq!(ACCEPTANCE_CONFIDENCE, 9999 * 10u128.pow(32));
    assert!((as_fraction(ACCEPTANCE_CONFIDENCE) - 0.9999).abs() < 1e-15);
    assert_eq!(as_fraction(CONFIDENCE_ONE), 1.0);
}

#[test]
fn new_verifier_is_undecided_without_confidence() {
    let verifier = Verifier::new();
    assert_eq!(verifier.result, Result::Undecided);
    assert_eq!(verifier.confidence, 0);
    assert_eq!(verifier.result(), Result::Undecided);
    assert_eq!(verifier.confidence(), 0);
}

#[test]
fn result_in_words() {
    assert_eq!(Result::Undecided.to_string(), "undecided");
    assert_eq!(Result::Accepted.to_string(), "accepted");
    assert_eq!(Result::Rejected.to_string(), "rejected");
}

#[test]
fn challenge_is_the_vertex_and_its_first_neighbour() {
    let expected = [(0, 1), (1, 0), (2, 1), (3, 1)];
    for (vertex, edge) in expected.iter().enumerate() {
        let mut verifier = Verifier::new();
        let (_, commitment) = committed();
        assert_eq!(verifier.challenge_vertex(commitment.zk_commit(), vertex), Some(*edge));
        assert_eq!(verifier.result, Result::Undecided);
        assert_eq!(verifier.confidence, 0);
    }
}

#[test]
fn challenge_of_a_missing_vertex_is_none() {
    let mut verifier = Verifier::new();
    let (_, commitment) = committed();
    assert_eq!(verifier.challenge_vertex(commitment.zk_commit(), 4), None);
    assert_eq!(verifier.result, Result::Undecided);
    assert_eq!(verifier.confidence, 0);
}

#[test]
fn challenge_of_an_isolated_vertex_changes_nothing() {
    let mut g = build_graph();
    let lonely = g.add_vertex();
    g.color(lonely, Color::Red);
    let commitment = g.commit();

    let mut verifier = Verifier::new();
    pass_round(&mut verifier, 0);
    let before = verifier.confidence;
    assert_eq!(verifier.challenge_vertex(commitment.zk_commit(), lonely), None);
    assert_eq!(verifier.confidence, before);
    assert_eq!(verifier.result, Result::Undecided);

    // the edge and the graph of the round before are still the ones in force:
    // a reveal for the new graph does not open the old hashes
    let (color_a, color_b) = g.colors_for(0, 1).unwrap();
    let (salt_a, salt_b) = commitment.colors_for(0, 1).unwrap();
    verifier.verify_coloring(color_a, &salt_a.secret, color_b, &salt_b.secret);
    assert_eq!(verifier.result, Result::Rejected);
}

#[test]
fn choose_random_vertices_asks_for_an_edge_of_the_graph() {
    let mut seen = [false; 4];
    for _ in 0..200 {
        let mut verifier = Verifier::new();
        let (g, commitment) = committed();
        let (a, b) = verifier.choose_random_vertices(commitment.zk_commit()).unwrap();
        assert!(a < 4);
        assert_eq!(b, g.get_adjacent(a)[0]);
        seen[a] = true;
    }
    assert_eq!(seen, [true; 4]);
}

#[test]
fn choose_random_vertices_on_one_isolated_vertex_is_none() {
    let mut g: Graph<Color> = Graph::new();
    let only = g.add_vertex();
    g.color(only, Color::Blue);
    let mut verifier = Verifier::new();
    for _ in 0..10 {
        assert_eq!(verifier.choose_random_vertices(g.commit().zk_commit()), None);
        assert_eq!(verifier.result, Result::Undecided);
        assert_eq!(verifier.confidence, 0);
    }
}

#[test]
fn a_passed_round_raises_confidence_by_the_missing_part_over_the_size() {
    let mut verifier = Verifier::new();
    pass_round(&mut verifier, 0);
    assert_eq!(verifier.confidence, 250_000_000_000_000_000_000_000_000_000_000_000);
    assert_eq!(verifier.result, Result::Undecided);
    pass_round(&mut verifier, 3);
    assert_eq!(verifier.confidence, 437_500_000_000_000_000_000_000_000_000_000_000);
    pass_round(&mut verifier, 2);
    assert_eq!(verifier.confidence, 578_125_000_000_000_000_000_000_000_000_000_000);
    assert_eq!(verifier.result, Result::Undecided);
}

#[test]
fn confidence_on_a_graph_of_three_rounds_down() {
    let mut g: Graph<Color> = Graph::new();
    let a = g.add_vertex();
    let b = g.add_vertex();
    let c = g.add_vertex();
    g.make_adjacent(a, b);
    g.make_adjacent(b, c);
    g.color(a, Color::Red);
    g.color(b, Color::Green);
    g.color(c, Color::Red);
    let mut verifier = Verifier::new();
    for expected in [
        333_333_333_333_333_333_333_333_333_333_333_333u128,
        555_555_555_555_555_555_555_555_555_555_555_555u128,
        703_703_703_703_703_703_703_703_703_703_703_703u128,
    ] {
        let commitment = g.commit();
        let (x, y) = verifier.challenge_vertex(commitment.zk_commit(), 2).unwrap();
        assert_eq!((x, y), (2, 1));
        let (color_x, color_y) = g.colors_for(x, y).unwrap();
        let (salt_x, salt_y) = commitment.colors_for(x, y).unwrap();
        verifier.verify_coloring(color_x, &salt_x.secret, color_y, &salt_y.secret);
        assert_eq!(verifier.confidence, expected);
    }
}

#[test]
fn confidence_rises_strictly_until_accepted_after_33_rounds() {
    let mut verifier = Verifier::new();
    let mut model = 0.0f64;
    let mut rounds = 0;
    while verifier.result == Result::Undecided {
        let before = verifier.confidence;
        pass_round(&mut verifier, rounds % 4);
        rounds += 1;
        model += (1.0 - model) / 4.0;
        assert!(verifier.confidence > before);
        assert!(verifier.confidence < CONFIDENCE_ONE);
        assert!((as_fraction(verifier.confidence) - model).abs() < 1e-12);
        assert!(rounds <= 33);
    }
    assert_eq!(rounds, 33);
    assert_eq!(verifier.result, Result::Accepted);
    assert_eq!(verifier.confidence, 999_924_660_680_709_525_035_635_316_936_311_055);
    assert!(verifier.confidence > ACCEPTANCE_CONFIDENCE);
    assert!(as_fraction(verifier.confidence) > 0.9999);
}

#[test]
fn the_round_before_acceptance_is_undecided() {
    let mut verifier = Verifier::new();
    for _ in 0..32 {
        pass_round(&mut verifier, 1);
    }
    assert_eq!(verifier.result, Result::Undecided);
    assert_eq!(verifier.confidence, 999_899_547_574_279_366_714_180_422_581_748_074);
    assert!(verifier.confidence <= ACCEPTANCE_CONFIDENCE);
}

#[test]
fn equal_colors_are_rejected_at_once() {
    let mut verifier = Verifier::new();
    let (_, commitment) = committed();
    let (a, b) = verifier.challenge_vertex(commitment.zk_commit(), 0).unwrap();
    let (salt_a, salt_b) = commitment.colors_for(a, b).unwrap();
    verifier.verify_coloring(Color::Green, &salt_a.secret, Color::Green, &salt_b.secret);
    assert_eq!(verifier.result, Result::Rejected);
    assert_eq!(verifier.confidence, CONFIDENCE_ONE);
    assert_eq!(as_fraction(verifier.confidence), 1.0);
}

#[test]
fn equal_colors_are_rejected_before_any_challenge() {
    let mut verifier = Verifier::new();
    verifier.verify_coloring(Color::Red, &[0u8; 32], Color::Red, &[0u8; 32]);
    assert_eq!(verifier.result, Result::Rejected);
    assert_eq!(verifier.confidence, CONFIDENCE_ONE);
}

#[test]
fn a_wrong_secret_is_rejected() {
    for end in 0..2 {
        let mut verifier = Verifier::new();
        pass_round(&mut verifier, 0);
        let (g, commitment) = committed();
        let (a, b) = verifier.challenge_vertex(commitment.zk_commit(), 1).unwrap();
        let (color_a, color_b) = g.colors_for(a, b).unwrap();
        let (salt_a, salt_b) = commitment.colors_for(a, b).unwrap();
        let mut secret_a = salt_a.secret;
        let mut secret_b = salt_b.secret;
        if end == 0 {
            secret_a[31] ^= 1;
        } else {
            secret_b[0] ^= 0x80;
        }
        verifier.verify_coloring(color_a, &secret_a, color_b, &secret_b);
        assert_eq!(verifier.result, Result::Rejected);
        assert_eq!(verifier.confidence, CONFIDENCE_ONE);
    }
}

#[test]
fn a_wrong_color_is_rejected() {
    let mut verifier = Verifier::new();
    let (g, commitment) = committed();
    let (a, b) = verifier.challenge_vertex(commitment.zk_commit(), 0).unwrap();
    assert_eq!(g.colors_for(a, b), Some((Color::Green, Color::Red)));
    let (salt_a, salt_b) = commitment.colors_for(a, b).unwrap();
    verifier.verify_coloring(Color::Green, &salt_a.secret, Color::Blue, &salt_b.secret);
    assert_eq!(verifier.result, Result::Rejected);
    assert_eq!(verifier.confidence, CONFIDENCE_ONE);
}

#[test]
fn swapped_ends_are_rejected() {
    let mut verifier = Verifier::new();
    let (g, commitment) = committed();
    let (a, b) = verifier.challenge_vertex(commitment.zk_commit(), 0).unwrap();
    let (color_a, color_b) = g.colors_for(a, b).unwrap();
    let (salt_a, salt_b) = commitment.colors_for(a, b).unwrap();
    verifier.verify_coloring(color_b, &salt_b.secret, color_a, &salt_a.secret);
    assert_eq!(verifier.result, Result::Rejected);
}

#[test]
fn a_reveal_for_another_commitment_is_rejected() {
    let mut verifier = Verifier::new();
    let (g, commitment) = committed();
    let (_, other) = committed();
    let (a, b) = verifier.challenge_vertex(commitment.zk_commit(), 2).unwrap();
    let (color_a, color_b) = g.colors_for(a, b).unwrap();
    let (salt_a, salt_b) = other.colors_for(a, b).unwrap();
    verifier.verify_coloring(color_a, &salt_a.secret, color_b, &salt_b.secret);
    assert_eq!(verifier.result, Result::Rejected);
}

#[test]
fn once_rejected_nothing_changes() {
    let mut verifier = Verifier::new();
    pass_round(&mut verifier, 0);
    verifier.verify_coloring(Color::Red, &[1u8; 32], Color::Red, &[2u8; 32]);
    assert_eq!(verifier.result, Result::Rejected);
    for vertex in 0..4 {
        let (g, commitment) = committed();
        assert_eq!(verifier.choose_random_vertices(commitment.zk_commit()), None);
        assert_eq!(verifier.challenge_vertex(commitment.zk_commit(), vertex), None);
        let (color_a, color_b) = g.colors_for(0, 1).unwrap();
        let (salt_a, salt_b) = commitment.colors_for(0, 1).unwrap();
        verifier.verify_coloring(color_a, &salt_a.secret, color_b, &salt_b.secret);
        verifier.verify_coloring(Color::Blue, &[0u8; 32], Color::Blue, &[0u8; 32]);
        assert_eq!(verifier.result, Result::Rejected);
        assert_eq!(verifier.confidence, CONFIDENCE_ONE);
    }
    let empty: Graph<ZKCommitment> = Graph::new();
    assert_eq!(verifier.choose_random_vertices(empty), None);
    assert_eq!(verifier.result, Result::Rejected);
}

#[test]
fn once_accepted_nothing_changes() {
    let mut verifier = Verifier::new();
    for round in 0..33 {
        pass_round(&mut verifier, round % 4);
    }
    assert_eq!(verifier.result, Result::Accepted);
    let confidence = verifier.confidence;
    for vertex in 0..4 {
        let (g, commitment) = committed();
        assert_eq!(verifier.choose_random_vertices(commitment.zk_commit()), None);
        assert_eq!(verifier.challenge_vertex(commitment.zk_commit(), vertex), None);
        let (color_a, color_b) = g.colors_for(0, 1).unwrap();
        let (salt_a, salt_b) = commitment.colors_for(0, 1).unwrap();
        verifier.verify_coloring(color_a, &salt_a.secret, color_b, &salt_b.secret);
        verifier.verify_coloring(Color::Red, &[0u8; 32], Color::Red, &[0u8; 32]);
        verifier.verify_coloring(color_a, &[0u8; 32], color_b, &[0u8; 32]);
        assert_eq!(verifier.result, Result::Accepted);
        assert_eq!(verifier.confidence, confidence);
    }
}
