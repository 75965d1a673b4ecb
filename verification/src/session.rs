//! The party that checks the proof. Each round it picks an edge of the public
//! commitment graph, checks what the prover reveals for that edge, and grows
//! more confident with every round that the prover passes.
//!
//! Confidence is a fixed-point number: `CONFIDENCE_ONE` units make one.

use crate::color::Color;
use crate::commitment::{opens, Secret, ZKCommitment};
use crate::entropy::random_index;
use crate::graph::{has_labels, well_formed, Graph, VertexIndex, VertexView};
use vstd::prelude::*;

verus! {

/// The confidence of a verifier that is certain.
pub const CONFIDENCE_ONE: u128 = 1_000_000_000_000_000_000_000_000_000_000_000_000;

/// The confidence above which the verifier accepts: 0.9999.
pub const ACCEPTANCE_CONFIDENCE: u128 = 999_900_000_000_000_000_000_000_000_000_000_000;

/// What the verifier has decided.
#[derive(Debug, Clone, Copy, PartialEq, Eq, Structural)]
pub enum Result {
    Undecided,
    Accepted,
    Rejected,
}

impl Result {
    /// The word for the decision.
    pub open spec fn name(self) -> Seq<char> {
        match self {
            Result::Undecided => "undecided"@,
            Result::Accepted => "accepted"@,
            Result::Rejected => "rejected"@,
        }
    }

    /// The decision in words.
    pub fn to_string(&self) -> (text: String)
        ensures
            text@ == self.name(),
    {
        match self {
            Result::Undecided => "undecided".to_owned(),
            Result::Accepted => "accepted".to_owned(),
            Result::Rejected => "rejected".to_owned(),
        }
    }
}

/// The state of a verifier.
pub struct VerifierView {
    /// The number of vertices of the graph that was last challenged.
    pub graph_size: nat,
    /// The edge that was last asked for.
    pub challenge: Option<(VertexIndex, VertexIndex)>,
    /// The public commitment graph that the edge was taken from.
    pub commitment: Option<Seq<VertexView<ZKCommitment>>>,
    pub confidence: nat,
    pub result: Result,
}

/// Whether the state is one that a verifier can reach: the confidence fits
/// the decision, and the edge asked for is the first edge of a vertex of the
/// graph that is kept with it.
pub open spec fn wf_state(state: VerifierView) -> bool {
    &&& match state.result {
        Result::Undecided => state.confidence <= ACCEPTANCE_CONFIDENCE,
        Result::Accepted => ACCEPTANCE_CONFIDENCE < state.confidence < CONFIDENCE_ONE,
        Result::Rejected => state.confidence == CONFIDENCE_ONE,
    }
    &&& match (state.challenge, state.commitment) {
        (Some((a, b)), Some(graph)) => {
            &&& well_formed(graph)
            &&& graph.len() == state.graph_size
            &&& state.graph_size <= usize::MAX
            &&& a < graph.len()
            &&& graph[a as int].neighbours.len() > 0
            &&& b == graph[a as int].neighbours[0]
        },
        (None, None) => state.graph_size == 0,
        _ => false,
    }
}

/// The edge that a verifier asks for when it has drawn `vertex`: the vertex
/// and the first of its neighbours. There is none once the verifier has
/// decided, nor where the vertex has no neighbour.
pub open spec fn challenge_for(
    state: VerifierView,
    graph: Seq<VertexView<ZKCommitment>>,
    vertex: VertexIndex,
) -> Option<(VertexIndex, VertexIndex)> {
    if state.result == Result::Undecided && vertex < graph.len()
        && graph[vertex as int].neighbours.len() > 0 {
        Some((vertex, graph[vertex as int].neighbours[0]))
    } else {
        None
    }
}

/// The state after the verifier has drawn `vertex` in `graph`: where it asks
/// for an edge it keeps the edge, the graph and the graph's size, and
/// otherwise nothing changes.
pub open spec fn after_challenge(
    state: VerifierView,
    graph: Seq<VertexView<ZKCommitment>>,
    vertex: VertexIndex,
) -> VerifierView {
    match challenge_for(state, graph, vertex) {
        Some(edge) => VerifierView {
            graph_size: graph.len(),
            challenge: Some(edge),
            commitment: Some(graph),
            confidence: state.confidence,
            result: state.result,
        },
        None => state,
    }
}

/// The two hashes that a reveal is checked against: those that the kept graph
/// has at the two ends of the edge asked for.
pub open spec fn expected_hashes(state: VerifierView) -> Option<(Seq<u8>, Seq<u8>)> {
    match (state.challenge, state.commitment) {
        (Some((a, b)), Some(graph)) => if has_labels(graph, a, b) {
            Some((graph[a as int].label->0@, graph[b as int].label->0@))
        } else {
            None
        },
        _ => None,
    }
}

/// The confidence after one more round passed on a graph of `graph_size`
/// vertices: what was missing to certainty shrinks by its `graph_size`-th
/// part.
pub open spec fn raised(confidence: int, graph_size: int) -> int {
    confidence + (CONFIDENCE_ONE - confidence) / graph_size
}

/// The confidence after `rounds` rounds passed, one after the other, on a
/// graph of `graph_size` vertices, by a verifier that began with none.
pub open spec fn raised_times(graph_size: int, rounds: nat) -> int
    decreases rounds,
{
    if rounds == 0 {
        0
    } else {
        raised(raised_times(graph_size, (rounds - 1) as nat), graph_size)
    }
}

/// The state of a verifier that rejects.
pub open spec fn rejected(state: VerifierView) -> VerifierView {
    VerifierView {
        graph_size: state.graph_size,
        challenge: state.challenge,
        commitment: state.commitment,
        confidence: CONFIDENCE_ONE as nat,
        result: Result::Rejected,
    }
}

/// Whether the reveal passes: the colours differ and each opens the hash at
/// its end of the edge asked for.
pub open spec fn reveal_passes(
    state: VerifierView,
    color_a: Color,
    secret_a: Seq<u8>,
    color_b: Color,
    secret_b: Seq<u8>,
) -> bool {
    &&& color_a != color_b
    &&& expected_hashes(state) matches Some(hashes)
    &&& opens(hashes.0, color_a, secret_a)
    &&& opens(hashes.1, color_b, secret_b)
}

/// The state after a reveal. A verifier that has decided stays as it is. One
/// that has not rejects a reveal that does not pass, and raises its
/// confidence on one that passes, which it accepts once the confidence is
/// above `ACCEPTANCE_CONFIDENCE`.
pub open spec fn after_reveal(
    state: VerifierView,
    color_a: Color,
    secret_a: Seq<u8>,
    color_b: Color,
    secret_b: Seq<u8>,
) -> VerifierView {
    if state.result != Result::Undecided {
        state
    } else if reveal_passes(state, color_a, secret_a, color_b, secret_b) {
        let confidence = raised(state.confidence as int, state.graph_size as int);
        VerifierView {
            graph_size: state.graph_size,
            challenge: state.challenge,
            commitment: state.commitment,
            confidence: confidence as nat,
            result: if confidence > ACCEPTANCE_CONFIDENCE {
                Result::Accepted
            } else {
                Result::Undecided
            },
        }
    } else {
        rejected(state)
    }
}

/// A round that passes raises the confidence of an undecided verifier, and
/// never to certainty.
pub proof fn lemma_raised_between(confidence: int, graph_size: int)
    requires
        0 <= confidence <= ACCEPTANCE_CONFIDENCE,
        2 <= graph_size <= usize::MAX,
    ensures
        confidence < raised(confidence, graph_size) < CONFIDENCE_ONE,
{
    let missing = CONFIDENCE_ONE - confidence;
    let step = missing / graph_size;
    assert(1 <= step && 2 * step <= missing) by (nonlinear_arith)
        requires
            step == missing / graph_size,
            2 <= graph_size <= missing,
    ;
}

/// More rounds passed never give less confidence, and no number of them
/// gives more than certainty.
pub proof fn lemma_raised_times_grows(graph_size: int, fewer: nat, more: nat)
    requires
        graph_size >= 1,
        fewer <= more,
    ensures
        0 <= raised_times(graph_size, fewer) <= raised_times(graph_size, more) <= CONFIDENCE_ONE,
    decreases more,
{
    if more > 0 {
        let before = (more - 1) as nat;
        lemma_raised_times_grows(graph_size, if fewer < more { fewer } else { before }, before);
        let missing = CONFIDENCE_ONE - raised_times(graph_size, before);
        let step = missing / graph_size;
        assert(0 <= step <= missing) by (nonlinear_arith)
            requires
                step == missing / graph_size,
                graph_size >= 1,
                missing >= 0,
        ;
    }
}

/// A well-formed state has an edge only in a graph of two vertices or more.
pub proof fn lemma_challenged_graph_size(state: VerifierView)
    requires
        wf_state(state),
        state.challenge is Some,
    ensures
        2 <= state.graph_size <= usize::MAX,
        state.commitment is Some,
        state.challenge matches Some((a, b)) && a < state.graph_size && b < state.graph_size && a
            != b,
{
    let graph = state.commitment->0;
    let (a, b) = state.challenge->0;
}

/// While the verifier is undecided its confidence never falls; it rises on
/// every reveal that passes and stays below certainty then; and the
/// confidence is certainty exactly where the verifier has rejected.
pub proof fn lemma_confidence_monotone(
    state: VerifierView,
    color_a: Color,
    secret_a: Seq<u8>,
    color_b: Color,
    secret_b: Seq<u8>,
)
    requires
        wf_state(state),
    ensures
        ({
            let next = after_reveal(state, color_a, secret_a, color_b, secret_b);
            &&& wf_state(next)
            &&& state.confidence <= next.confidence
            &&& state.result == Result::Undecided && reveal_passes(
                state,
                color_a,
                secret_a,
                color_b,
                secret_b,
            ) ==> state.confidence < next.confidence < CONFIDENCE_ONE && next.result
                != Result::Rejected
            &&& state.result == Result::Undecided && !reveal_passes(
                state,
                color_a,
                secret_a,
                color_b,
                secret_b,
            ) ==> next.result == Result::Rejected
            &&& next.confidence == CONFIDENCE_ONE <==> next.result == Result::Rejected
        }),
{
    if state.result == Result::Undecided && reveal_passes(
        state,
        color_a,
        secret_a,
        color_b,
        secret_b,
    ) {
        lemma_challenged_graph_size(state);
        lemma_raised_between(state.confidence as int, state.graph_size as int);
    }
}

/// Once the verifier has accepted or rejected, neither a challenge nor a
/// reveal changes its state, and it asks for no edge.
pub proof fn lemma_decided_is_final(
    state: VerifierView,
    graph: Seq<VertexView<ZKCommitment>>,
    vertex: VertexIndex,
    color_a: Color,
    secret_a: Seq<u8>,
    color_b: Color,
    secret_b: Seq<u8>,
)
    requires
        state.result != Result::Undecided,
    ensures
        after_challenge(state, graph, vertex) == state,
        challenge_for(state, graph, vertex) is None,
        after_reveal(state, color_a, secret_a, color_b, secret_b) == state,
{
}

/// The verifier of one proof.
pub struct Verifier {
    graph_size: usize,
    last_requested_vertices: Option<(VertexIndex, VertexIndex)>,
    last_commitment: Option<Graph<ZKCommitment>>,
    pub confidence: u128,
    pub result: Result,
}

impl View for Verifier {
    type V = VerifierView;

    closed spec fn view(&self) -> VerifierView {
        VerifierView {
            graph_size: self.graph_size as nat,
            challenge: self.last_requested_vertices,
            commitment: match self.last_commitment {
                Some(graph) => Some(graph@),
                None => None,
            },
            confidence: self.confidence as nat,
            result: self.result,
        }
    }
}

impl Verifier {
    /// Whether the verifier's state is one that it can reach.
    pub open spec fn wf(&self) -> bool {
        wf_state(self@)
    }

    /// A verifier that has seen nothing yet: undecided, with no confidence.
    pub fn new() -> (verifier: Verifier)
        ensures
            verifier@ == (VerifierView {
                graph_size: 0,
                challenge: None,
                commitment: None,
                confidence: 0,
                result: Result::Undecided,
            }),
            verifier.wf(),
    {
        Verifier {
            confidence: 0,
            result: Result::Undecided,
            graph_size: 0,
            last_requested_vertices: None,
            last_commitment: None,
        }
    }

    /// The confidence, in units of which `CONFIDENCE_ONE` make one.
    pub fn confidence(&self) -> (confidence: u128)
        ensures
            confidence == self@.confidence,
    {
        self.confidence
    }

    /// What the verifier has decided.
    pub fn result(&self) -> (result: Result)
        ensures
            result == self@.result,
    {
        self.result
    }

    /// Asks for the edge from `vertex` to the first of its neighbours in
    /// `commitment`, and keeps the edge and the graph for the reveal. Asks
    /// for nothing, and changes nothing, once the verifier has decided or
    /// where `vertex` has no neighbour.
    pub fn challenge_vertex(
        &mut self,
        commitment: Graph<ZKCommitment>,
        vertex: VertexIndex,
    ) -> (challenge: Option<(VertexIndex, VertexIndex)>)
        requires
            old(self).wf(),
            commitment.wf(),
        ensures
            challenge == challenge_for(old(self)@, commitment@, vertex),
            final(self)@ == after_challenge(old(self)@, commitment@, vertex),
            final(self).wf(),
    {
        match self.result {
            Result::Undecided => {},
            _ => {
                return None;
            },
        }
        let adjacent = commitment.get_adjacent(vertex);
        if adjacent.len() > 0 {
            self.graph_size = commitment.len();
            self.last_commitment = Some(commitment);
            self.last_requested_vertices = Some((vertex, adjacent[0]));
            self.last_requested_vertices
        } else {
            None
        }
    }

    /// Draws a vertex of `commitment` at random and asks for the edge from
    /// it to the first of its neighbours: see `challenge_vertex`. The graph
    /// must have a vertex unless the verifier has decided.
    pub fn choose_random_vertices(&mut self, commitment: Graph<ZKCommitment>) -> (challenge: Option<
        (VertexIndex, VertexIndex),
    >)
        requires
            old(self).wf(),
            commitment.wf(),
            old(self)@.result == Result::Undecided ==> commitment@.len() > 0,
        ensures
            old(self)@.result == Result::Undecided ==> exists|vertex: VertexIndex|
                {
                    &&& vertex < commitment@.len()
                    &&& challenge == #[trigger] challenge_for(old(self)@, commitment@, vertex)
                    &&& final(self)@ == after_challenge(old(self)@, commitment@, vertex)
                },
            old(self)@.result != Result::Undecided ==> challenge is None && final(self)@ == old(
                self,
            )@,
            final(self).wf(),
    {
        match self.result {
            Result::Undecided => {},
            _ => {
                return None;
            },
        }
        let vertex: VertexIndex = random_index(commitment.len());
        self.challenge_vertex(commitment, vertex)
    }

    /// Checks the two colours and secrets that the prover reveals for the
    /// edge asked for: see `after_reveal`. Does nothing once the verifier
    /// has decided. Unless the two colours are the same, an edge must have
    /// been asked for, with a hash at both of its ends.
    pub fn verify_coloring(
        &mut self,
        color_a: Color,
        salt_a: &Secret,
        color_b: Color,
        salt_b: &Secret,
    )
        requires
            old(self).wf(),
            old(self)@.result == Result::Undecided && color_a != color_b ==> expected_hashes(
                old(self)@,
            ) is Some,
        ensures
            final(self)@ == after_reveal(old(self)@, color_a, salt_a@, color_b, salt_b@),
            final(self).wf(),
            old(self)@.confidence <= final(self)@.confidence,
            final(self)@.confidence == CONFIDENCE_ONE <==> final(self)@.result == Result::Rejected,
            old(self)@.result != Result::Undecided ==> final(self)@ == old(self)@,
    {
        proof {
            lemma_confidence_monotone(old(self)@, color_a, salt_a@, color_b, salt_b@);
        }
        match self.result {
            Result::Undecided => {},
            _ => {
                return ;
            },
        }
        if color_a == color_b {
            self.reject();
            return ;
        } else {
            let (vertex_a, vertex_b) = self.last_requested_vertices.unwrap();
            let (commitment_a, commitment_b) = self.last_commitment.as_ref().unwrap().colors_for(
                vertex_a,
                vertex_b,
            ).unwrap();
            if color_a.matches(commitment_a, salt_a) && color_b.matches(commitment_b, salt_b) {
                proof {
                    lemma_challenged_graph_size(self@);
                }
                self.increase_confidence();
            } else {
                self.reject();
                return ;
            }
        }
        if self.confidence > ACCEPTANCE_CONFIDENCE {
            self.accept();
        }
    }

    fn reject(&mut self)
        ensures
            final(self)@ == rejected(old(self)@),
    {
        self.result = Result::Rejected;
        self.confidence = CONFIDENCE_ONE;
    }

    fn accept(&mut self)
        ensures
            final(self)@ == (VerifierView { result: Result::Accepted, ..old(self)@ }),
    {
        self.result = Result::Accepted;
    }

    fn increase_confidence(&mut self)
        requires
            old(self)@.confidence <= CONFIDENCE_ONE,
            old(self)@.graph_size > 0,
        ensures
            final(self)@ == (VerifierView {
                confidence: raised(
                    old(self)@.confidence as int,
                    old(self)@.graph_size as int,
                ) as nat,
                ..old(self)@
            }),
            final(self)@.confidence <= CONFIDENCE_ONE,
    {
        let missing: u128 = CONFIDENCE_ONE - self.confidence;
        let step: u128 = missing / (self.graph_size as u128);
        assert(step <= missing) by (nonlinear_arith)
            requires
                step == missing / (self.graph_size as u128),
                self.graph_size > 0,
        ;
        self.confidence += step;
    }
}

} // verus!
