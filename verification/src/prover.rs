//! The party that proves: it knows a colouring of the graph and answers the
//! verifier's challenges, round by round, without showing the colouring.

use crate::color::Color;
use crate::commitment::Commitment;
use crate::graph::{
    fully_labeled, lemma_relabelled_keeps_validity, relabelled, topology, valid_coloring,
    well_formed, Graph, VertexIndex, VertexView,
};
use crate::palette::{is_bijection, lemma_bijection_injective};
use crate::session::{
    lemma_challenged_graph_size, lemma_raised_between, lemma_raised_times_grows, raised,
    raised_times, Result, Verifier, ACCEPTANCE_CONFIDENCE, CONFIDENCE_ONE,
};
use vstd::prelude::*;

verus! {

/// Whether every vertex has a neighbour.
pub open spec fn no_isolated_vertex<T>(graph: Seq<VertexView<T>>) -> bool {
    forall|v: int| 0 <= v < graph.len() ==> (#[trigger] graph[v]).neighbours.len() > 0
}

/// The graph of the statement `x + 1 = 2`, where true is one and false is
/// zero, with a valid colouring: the vertices true, false, neutral and `x`,
/// in that order.
pub open spec fn statement_graph() -> Seq<VertexView<Color>> {
    seq![
        VertexView { label: Some(Color::Green), neighbours: seq![1usize, 2usize] },
        VertexView { label: Some(Color::Red), neighbours: seq![0usize, 2usize, 3usize] },
        VertexView { label: Some(Color::Blue), neighbours: seq![1usize, 0usize, 3usize] },
        VertexView { label: Some(Color::Green), neighbours: seq![1usize, 2usize] },
    ]
}

/// The statement's graph is sound, validly coloured, and has no vertex
/// without a neighbour.
pub proof fn lemma_statement_graph()
    ensures
        well_formed(statement_graph()),
        valid_coloring(statement_graph()),
        no_isolated_vertex(statement_graph()),
{
}

/// Builds the statement's graph with its colouring.
pub fn build_graph() -> (g: Graph<Color>)
    ensures
        g@ == statement_graph(),
        g.wf(),
        valid_coloring(g@),
        no_isolated_vertex(g@),
{
    let mut g = Graph::<Color>::new();

    let t: VertexIndex = g.add_vertex();
    let f: VertexIndex = g.add_vertex();
    let n: VertexIndex = g.add_vertex();
    let x: VertexIndex = g.add_vertex();

    g.make_adjacent(t, f);
    g.make_adjacent(f, n);
    g.make_adjacent(n, t);

    g.color(t, Color::Green);
    g.color(f, Color::Red);
    g.color(n, Color::Blue);

    g.make_adjacent(f, x);
    g.make_adjacent(n, x);

    g.color(x, Color::Green);

    proof {
        assert(g@[1].neighbours =~= seq![0usize, 2usize, 3usize]);
        assert(g@[2].neighbours =~= seq![1usize, 0usize, 3usize]);
        assert(g@[3].neighbours =~= seq![1usize, 2usize]);
        lemma_statement_graph();
    }
    g
}

/// One round of the proof. The prover relabels the colouring at random,
/// commits to it, hands the public commitment to the verifier, and reveals
/// the colours and secrets at the two ends of the edge that the verifier
/// asks for. Returns that edge, or nothing where the verifier asked for
/// none, in which case nothing has changed. The verifier keeps the edge and
/// the public commitment, which has the edges of `statement`.
///
/// The verifier rejects exactly where the two ends of the edge have the same
/// colour in `statement`; otherwise the round raises its confidence.
pub fn round(statement: &Graph<Color>, verifier: &mut Verifier) -> (challenge: Option<
    (VertexIndex, VertexIndex),
>)
    requires
        statement.wf(),
        fully_labeled(statement@),
        statement@.len() > 0,
        old(verifier).wf(),
    ensures
        final(verifier).wf(),
        old(verifier)@.result != Result::Undecided ==> challenge is None,
        challenge is None ==> final(verifier)@ == old(verifier)@,
        old(verifier)@.result == Result::Undecided && no_isolated_vertex(statement@)
            ==> challenge is Some,
        challenge matches Some((a, b)) ==> {
            &&& a < statement@.len()
            &&& b < statement@.len()
            &&& statement@[a as int].neighbours.len() > 0
            &&& b == statement@[a as int].neighbours[0]
            &&& final(verifier)@.graph_size == statement@.len()
            &&& final(verifier)@.challenge == challenge
            &&& final(verifier)@.commitment matches Some(kept)
            &&& topology(kept) == topology(statement@)
            &&& fully_labeled(kept)
            &&& if statement@[a as int].label == statement@[b as int].label {
                &&& final(verifier)@.result == Result::Rejected
                &&& final(verifier)@.confidence == CONFIDENCE_ONE
            } else {
                let confidence = raised(
                    old(verifier)@.confidence as int,
                    statement@.len() as int,
                );
                &&& final(verifier)@.confidence == confidence
                &&& old(verifier)@.confidence < confidence < CONFIDENCE_ONE
                &&& final(verifier)@.result == if confidence > ACCEPTANCE_CONFIDENCE {
                    Result::Accepted
                } else {
                    Result::Undecided
                }
            }
        },
{
    let random_graph: Graph<Color> = statement.random_permutation();
    let ghost images = choose|images: Seq<Color>|
        is_bijection(images) && random_graph@ == #[trigger] relabelled(statement@, images);
    let commitment: Graph<Commitment> = random_graph.commit();
    let public = commitment.zk_commit();
    proof {
        lemma_relabelled_keeps_validity(statement@, images);
        assert forall|v: int| 0 <= v < statement@.len() implies (#[trigger] public@[v]).neighbours
            == statement@[v].neighbours by {
            assert(topology(random_graph@)[v] == random_graph@[v].neighbours);
        }
        assert(topology(public@) == topology(statement@));
    }

    let challenge = verifier.choose_random_vertices(public);
    match challenge {
        None => None,
        Some((vertex_a, vertex_b)) => {
            proof {
                lemma_challenged_graph_size(verifier@);
            }
            let colors = random_graph.colors_for(vertex_a, vertex_b);
            let salts = commitment.colors_for(vertex_a, vertex_b);
            let (color_a, color_b) = colors.unwrap();
            let (salt_a, salt_b) = salts.unwrap();
            let secret_a = salt_a.secret();
            let secret_b = salt_b.secret();
            proof {
                lemma_bijection_injective(
                    images,
                    statement@[vertex_a as int].label->0,
                    statement@[vertex_b as int].label->0,
                );
                lemma_raised_between(
                    old(verifier)@.confidence as int,
                    statement@.len() as int,
                );
            }
            verifier.verify_coloring(color_a, secret_a.as_slice(), color_b, secret_b.as_slice());
            challenge
        },
    }
}

/// Runs rounds until the verifier has decided, and returns the decision with
/// the confidence. The statement must have no vertex without a neighbour: on
/// such a vertex the verifier asks for no edge, and rounds that draw it do
/// not bring the decision nearer.
///
/// A valid colouring is accepted, after the least number of rounds that
/// lifts the confidence above `ACCEPTANCE_CONFIDENCE`, and with the
/// confidence that this many rounds give. A rejection shows that the
/// colouring is not valid.
pub fn prove(statement: &Graph<Color>) -> (outcome: (Result, u128))
    requires
        statement.wf(),
        fully_labeled(statement@),
        statement@.len() > 0,
        no_isolated_vertex(statement@),
    ensures
        outcome.0 != Result::Undecided,
        valid_coloring(statement@) ==> outcome.0 == Result::Accepted,
        outcome.0 == Result::Accepted ==> ACCEPTANCE_CONFIDENCE < outcome.1 < CONFIDENCE_ONE,
        outcome.0 == Result::Accepted ==> exists|rounds: nat|
            {
                &&& rounds > 0
                &&& outcome.1 == #[trigger] raised_times(statement@.len() as int, rounds)
                &&& raised_times(statement@.len() as int, (rounds - 1) as nat)
                    <= ACCEPTANCE_CONFIDENCE
            },
        outcome.0 == Result::Rejected ==> outcome.1 == CONFIDENCE_ONE && !valid_coloring(
            statement@,
        ),
{
    let mut verifier = Verifier::new();
    let ghost mut rounds: nat = 0;
    while verifier.result() == Result::Undecided
        invariant
            statement.wf(),
            fully_labeled(statement@),
            statement@.len() > 0,
            no_isolated_vertex(statement@),
            verifier.wf(),
            verifier@.result == Result::Rejected ==> !valid_coloring(statement@),
            verifier@.result != Result::Rejected ==> verifier@.confidence == raised_times(
                statement@.len() as int,
                rounds,
            ),
            verifier@.result == Result::Accepted ==> rounds > 0 && raised_times(
                statement@.len() as int,
                (rounds - 1) as nat,
            ) <= ACCEPTANCE_CONFIDENCE,
        decreases CONFIDENCE_ONE - verifier@.confidence,
    {
        round(statement, &mut verifier);
        proof {
            rounds = rounds + 1;
        }
    }
    (verifier.result(), verifier.confidence())
}

/// On a graph of four vertices the thirty-third round that passes is the
/// first to lift the confidence above `ACCEPTANCE_CONFIDENCE`.
pub proof fn lemma_four_vertices_take_33_rounds()
    ensures
        raised_times(4, 32) <= ACCEPTANCE_CONFIDENCE,
        raised_times(4, 33) == 999_924_660_680_709_525_035_635_316_936_311_055int,
        raised_times(4, 33) > ACCEPTANCE_CONFIDENCE,
{
    assert(raised_times(4, 0) == 0);
    assert(raised_times(4, 1) == 250_000_000_000_000_000_000_000_000_000_000_000int);
    assert(raised_times(4, 2) == 437_500_000_000_000_000_000_000_000_000_000_000int);
    assert(raised_times(4, 3) == 578_125_000_000_000_000_000_000_000_000_000_000int);
    assert(raised_times(4, 4) == 683_593_750_000_000_000_000_000_000_000_000_000int);
    assert(raised_times(4, 5) == 762_695_312_500_000_000_000_000_000_000_000_000int);
    assert(raised_times(4, 6) == 822_021_484_375_000_000_000_000_000_000_000_000int);
    assert(raised_times(4, 7) == 866_516_113_281_250_000_000_000_000_000_000_000int);
    assert(raised_times(4, 8) == 899_887_084_960_937_500_000_000_000_000_000_000int);
    assert(raised_times(4, 9) == 924_915_313_720_703_125_000_000_000_000_000_000int);
    assert(raised_times(4, 10) == 943_686_485_290_527_343_750_000_000_000_000_000int);
    assert(raised_times(4, 11) == 957_764_863_967_895_507_812_500_000_000_000_000int);
    assert(raised_times(4, 12) == 968_323_647_975_921_630_859_375_000_000_000_000int);
    assert(raised_times(4, 13) == 976_242_735_981_941_223_144_531_250_000_000_000int);
    assert(raised_times(4, 14) == 982_182_051_986_455_917_358_398_437_500_000_000int);
    assert(raised_times(4, 15) == 986_636_538_989_841_938_018_798_828_125_000_000int);
    assert(raised_times(4, 16) == 989_977_404_242_381_453_514_099_121_093_750_000int);
    assert(raised_times(4, 17) == 992_483_053_181_786_090_135_574_340_820_312_500int);
    assert(raised_times(4, 18) == 994_362_289_886_339_567_601_680_755_615_234_375int);
    assert(raised_times(4, 19) == 995_771_717_414_754_675_701_260_566_711_425_781int);
    assert(raised_times(4, 20) == 996_828_788_061_066_006_775_945_425_033_569_335int);
    assert(raised_times(4, 21) == 997_621_591_045_799_505_081_959_068_775_177_001int);
    assert(raised_times(4, 22) == 998_216_193_284_349_628_811_469_301_581_382_750int);
    assert(raised_times(4, 23) == 998_662_144_963_262_221_608_601_976_186_037_062int);
    assert(raised_times(4, 24) == 998_996_608_722_446_666_206_451_482_139_527_796int);
    assert(raised_times(4, 25) == 999_247_456_541_834_999_654_838_611_604_645_847int);
    assert(raised_times(4, 26) == 999_435_592_406_376_249_741_128_958_703_484_385int);
    assert(raised_times(4, 27) == 999_576_694_304_782_187_305_846_719_027_613_288int);
    assert(raised_times(4, 28) == 999_682_520_728_586_640_479_385_039_270_709_966int);
    assert(raised_times(4, 29) == 999_761_890_546_439_980_359_538_779_453_032_474int);
    assert(raised_times(4, 30) == 999_821_417_909_829_985_269_654_084_589_774_355int);
    assert(raised_times(4, 31) == 999_866_063_432_372_488_952_240_563_442_330_766int);
    assert(raised_times(4, 32) == 999_899_547_574_279_366_714_180_422_581_748_074int);
    assert(raised_times(4, 33) == 999_924_660_680_709_525_035_635_316_936_311_055int);
}

/// Proves the statement of `build_graph` to a fresh verifier, which accepts
/// it after thirty-three rounds. Returns the decision and the confidence.
pub fn prover() -> (outcome: (Result, u128))
    ensures
        outcome.0 == Result::Accepted,
        outcome.1 == raised_times(4, 33),
        outcome.1 == 999_924_660_680_709_525_035_635_316_936_311_055,
{
    let statement: Graph<Color> = build_graph();
    let outcome = prove(&statement);
    proof {
        let rounds = choose|rounds: nat|
            {
                &&& rounds > 0
                &&& outcome.1 == #[trigger] raised_times(4, rounds)
                &&& raised_times(4, (rounds - 1) as nat) <= ACCEPTANCE_CONFIDENCE
            };
        lemma_four_vertices_take_33_rounds();
        if rounds < 33 {
            lemma_raised_times_grows(4, rounds, 32);
        }
        if rounds > 33 {
            lemma_raised_times_grows(4, 33, (rounds - 1) as nat);
        }
    }
    outcome
}

} // verus!
