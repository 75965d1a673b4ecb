//! A labelled undirected graph. Its vertices are addressed by index; each has
//! an optional label and the list of its neighbours, in the order in which the
//! edges were made.

use crate::color::Color;
use crate::commitment::{public_form, Commitable, Commitment, ZKCommitment};
use crate::palette::{image_of_label, is_bijection, lemma_bijection_injective, ColorToColorMap};
use vstd::prelude::*;

verus! {

/// The index of a vertex in its graph.
pub type VertexIndex = usize;

/// What a vertex holds: its label, if it has one, and its neighbours.
pub struct VertexView<T> {
    pub label: Option<T>,
    pub neighbours: Seq<VertexIndex>,
}

/// The neighbour lists of a graph, without its labels.
pub open spec fn topology<T>(graph: Seq<VertexView<T>>) -> Seq<Seq<VertexIndex>> {
    Seq::new(graph.len(), |v: int| graph[v].neighbours)
}

/// Whether every neighbour that is listed is a vertex of the graph, no vertex
/// is its own neighbour, each edge is listed at both of its ends, and no
/// neighbour is listed twice.
pub open spec fn well_formed<T>(graph: Seq<VertexView<T>>) -> bool {
    &&& forall|v: int, k: int|
        0 <= v < graph.len() && 0 <= k < graph[v].neighbours.len() ==> {
            let w = #[trigger] graph[v].neighbours[k];
            &&& w < graph.len()
            &&& w != v
            &&& graph[w as int].neighbours.contains(v as usize)
        }
    &&& forall|v: int| 0 <= v < graph.len() ==> (#[trigger] graph[v]).neighbours.no_duplicates()
}

/// Whether every vertex has a label.
pub open spec fn fully_labeled<T>(graph: Seq<VertexView<T>>) -> bool {
    forall|v: int| 0 <= v < graph.len() ==> (#[trigger] graph[v]).label is Some
}

/// The neighbours with `w` among them: `w` is added as the last one unless it
/// is listed already.
pub open spec fn with_neighbour(neighbours: Seq<VertexIndex>, w: VertexIndex) -> Seq<
    VertexIndex,
> {
    if neighbours.contains(w) {
        neighbours
    } else {
        neighbours.push(w)
    }
}

/// The graph with `v` and `w` joined by an edge: each becomes a neighbour of
/// the other unless it is one already. Nothing changes unless both are
/// vertices of the graph and differ.
pub open spec fn joined<T>(graph: Seq<VertexView<T>>, v: VertexIndex, w: VertexIndex) -> Seq<
    VertexView<T>,
> {
    if v < graph.len() && w < graph.len() && v != w {
        let first = graph.update(
            v as int,
            VertexView {
                label: graph[v as int].label,
                neighbours: with_neighbour(graph[v as int].neighbours, w),
            },
        );
        first.update(
            w as int,
            VertexView {
                label: graph[w as int].label,
                neighbours: with_neighbour(graph[w as int].neighbours, v),
            },
        )
    } else {
        graph
    }
}

/// Whether `v` and `w` are vertices of the graph and both have a label.
pub open spec fn has_labels<T>(graph: Seq<VertexView<T>>, v: VertexIndex, w: VertexIndex) -> bool {
    &&& v < graph.len()
    &&& w < graph.len()
    &&& graph[v as int].label is Some
    &&& graph[w as int].label is Some
}

/// Whether `made` has the edges of `source` and, at each vertex, a commitment
/// that `commit` may return for the label that `source` has there.
pub open spec fn commits_graph<T: Commitable>(
    source: Seq<VertexView<T>>,
    made: Seq<VertexView<Commitment>>,
) -> bool {
    &&& made.len() == source.len()
    &&& topology(made) == topology(source)
    &&& forall|v: int|
        0 <= v < source.len() ==> {
            &&& (#[trigger] made[v]).label is Some
            &&& source[v].label is Some
            &&& source[v].label->0.commits_to(made[v].label->0@)
        }
}

/// Whether `public` has the edges of `full` and, at each vertex, the hash of
/// the commitment that `full` has there, and no more.
pub open spec fn strips_graph(
    full: Seq<VertexView<Commitment>>,
    public: Seq<VertexView<ZKCommitment>>,
) -> bool {
    &&& public.len() == full.len()
    &&& topology(public) == topology(full)
    &&& forall|v: int|
        0 <= v < full.len() ==> {
            &&& (#[trigger] public[v]).label is Some
            &&& full[v].label is Some
            &&& public[v].label->0@ == public_form(full[v].label->0@)
        }
}

/// The graph with each colour replaced by its image under `images`.
pub open spec fn relabelled(graph: Seq<VertexView<Color>>, images: Seq<Color>) -> Seq<
    VertexView<Color>,
> {
    Seq::new(
        graph.len(),
        |v: int|
            VertexView {
                label: image_of_label(images, graph[v].label),
                neighbours: graph[v].neighbours,
            },
    )
}

/// Whether no two neighbours have the same colour.
pub open spec fn no_shared_color(graph: Seq<VertexView<Color>>) -> bool {
    forall|v: int, k: int|
        0 <= v < graph.len() && 0 <= k < graph[v].neighbours.len() ==> {
            let w = #[trigger] graph[v].neighbours[k];
            w < graph.len() && graph[v].label is Some ==> graph[v].label != graph[w as int].label
        }
}

/// Whether the graph is coloured validly: every vertex has a colour, and no
/// two neighbours have the same.
pub open spec fn valid_coloring(graph: Seq<VertexView<Color>>) -> bool {
    fully_labeled(graph) && no_shared_color(graph)
}

/// Adding a neighbour keeps the ones listed, in their places, lists the new
/// one, and lists none twice where none was listed twice before.
pub proof fn lemma_with_neighbour(neighbours: Seq<VertexIndex>, w: VertexIndex)
    ensures
        with_neighbour(neighbours, w).contains(w),
        neighbours.len() <= with_neighbour(neighbours, w).len() <= neighbours.len() + 1,
        forall|k: int|
            0 <= k < neighbours.len() ==> #[trigger] with_neighbour(neighbours, w)[k]
                == neighbours[k],
        forall|k: int|
            neighbours.len() <= k < with_neighbour(neighbours, w).len() ==> #[trigger] with_neighbour(
                neighbours,
                w,
            )[k] == w,
        forall|x: VertexIndex|
            neighbours.contains(x) ==> #[trigger] with_neighbour(neighbours, w).contains(x),
        neighbours.no_duplicates() ==> with_neighbour(neighbours, w).no_duplicates(),
{
    let added = with_neighbour(neighbours, w);
    if !neighbours.contains(w) {
        assert(added[neighbours.len() as int] == w);
        assert forall|x: VertexIndex| neighbours.contains(x) implies #[trigger] added.contains(
            x,
        ) by {
            let k = choose|k: int| 0 <= k < neighbours.len() && neighbours[k] == x;
            assert(added[k] == x);
        }
    }
}

/// Joining two vertices of a well-formed graph leaves it well-formed, and
/// joining them once more changes nothing.
pub proof fn lemma_joined_well_formed<T>(graph: Seq<VertexView<T>>, v: VertexIndex, w: VertexIndex)
    requires
        well_formed(graph),
    ensures
        well_formed(joined(graph, v, w)),
        joined(joined(graph, v, w), v, w) == joined(graph, v, w),
{
    let after = joined(graph, v, w);
    if v < graph.len() && w < graph.len() && v != w {
        lemma_with_neighbour(graph[v as int].neighbours, w);
        lemma_with_neighbour(graph[w as int].neighbours, v);
        assert(after[v as int].neighbours == with_neighbour(graph[v as int].neighbours, w));
        assert(after[w as int].neighbours == with_neighbour(graph[w as int].neighbours, v));
        assert forall|x: int, y: VertexIndex|
            0 <= x < graph.len() && graph[x].neighbours.contains(y) implies #[trigger] after[x].neighbours.contains(
            y,
        ) by {}
        assert forall|x: int, k: int|
            0 <= x < after.len() && 0 <= k < after[x].neighbours.len() implies {
            let n = #[trigger] after[x].neighbours[k];
            &&& n < after.len()
            &&& n != x
            &&& after[n as int].neighbours.contains(x as usize)
        } by {
            let n = after[x].neighbours[k];
            if k < graph[x].neighbours.len() {
                assert(n == graph[x].neighbours[k]);
                assert(graph[n as int].neighbours.contains(x as usize));
            }
        }
        assert forall|x: int| 0 <= x < after.len() implies (#[trigger] after[x]).neighbours.no_duplicates() by {
            assert(graph[x].neighbours.no_duplicates());
        }
        assert(joined(after, v, w) =~= after);
    }
}

/// A vertex of a graph.
pub struct Vertex<T: Clone> {
    contents: Option<T>,
    adjacent: Vec<VertexIndex>,
}

impl<T: Clone> View for Vertex<T> {
    type V = VertexView<T>;

    closed spec fn view(&self) -> VertexView<T> {
        VertexView { label: self.contents, neighbours: self.adjacent@ }
    }
}

/// A graph whose labels are of type `T`.
pub struct Graph<T: Clone> {
    vertices: Vec<Vertex<T>>,
}

impl<T: Clone> View for Graph<T> {
    type V = Seq<VertexView<T>>;

    closed spec fn view(&self) -> Seq<VertexView<T>> {
        Seq::new(self.vertices@.len(), |v: int| self.vertices@[v]@)
    }
}

impl<T: Clone> Graph<T> {
    /// Whether the graph's edges are sound: see `well_formed`.
    pub open spec fn wf(&self) -> bool {
        well_formed(self@)
    }

    /// The graph without vertices.
    pub fn new() -> (graph: Graph<T>)
        ensures
            graph@ == Seq::<VertexView<T>>::empty(),
            graph.wf(),
    {
        let graph = Graph { vertices: Vec::new() };
        graph
    }

    /// The number of vertices.
    pub fn len(&self) -> (count: usize)
        ensures
            count == self@.len(),
    {
        self.vertices.len()
    }

    /// Adds a vertex without label or neighbours, and returns its index.
    pub fn add_vertex(&mut self) -> (index: VertexIndex)
        ensures
            index == old(self)@.len(),
            final(self)@ == old(self)@.push(VertexView { label: None, neighbours: Seq::empty() }),
            old(self).wf() ==> final(self).wf(),
    {
        self.vertices.push(Vertex { adjacent: Vec::new(), contents: None });
        self.vertices.len() - 1
    }

    /// Sets the label of `vertex`.
    pub fn color(&mut self, vertex: VertexIndex, color: T)
        requires
            vertex < old(self)@.len(),
        ensures
            final(self)@ == old(self)@.update(
                vertex as int,
                VertexView { label: Some(color), neighbours: old(self)@[vertex as int].neighbours },
            ),
            old(self).wf() ==> final(self).wf(),
    {
        self.vertices[vertex].contents = Some(color);
        assert(self@ =~= old(self)@.update(
            vertex as int,
            VertexView { label: Some(color), neighbours: old(self)@[vertex as int].neighbours },
        ));
    }

    /// Joins `a` and `b` by an edge: each becomes a neighbour of the other
    /// unless it is one already. Nothing happens where one of them is no
    /// vertex of the graph, or where they are the same vertex.
    pub fn make_adjacent(&mut self, a: VertexIndex, b: VertexIndex)
        ensures
            final(self)@ == joined(old(self)@, a, b),
            old(self).wf() ==> final(self).wf(),
    {
        if a < self.vertices.len() && b < self.vertices.len() {
            if a != b {
                if !self.lists(a, b) {
                    self.vertices[a].adjacent.push(b);
                }
                if !self.lists(b, a) {
                    self.vertices[b].adjacent.push(a);
                }
                assert(self@ =~= joined(old(self)@, a, b));
                proof {
                    if old(self).wf() {
                        lemma_joined_well_formed(old(self)@, a, b);
                    }
                }
            }
        }
    }

    /// Whether `w` is listed as a neighbour of `v`.
    fn lists(&self, v: VertexIndex, w: VertexIndex) -> (listed: bool)
        requires
            v < self@.len(),
        ensures
            listed == self@[v as int].neighbours.contains(w),
    {
        let mut k: usize = 0;
        while k < self.vertices[v].adjacent.len()
            invariant
                v < self.vertices@.len(),
                k <= self.vertices@[v as int].adjacent@.len(),
                forall|j: int| 0 <= j < k ==> self.vertices@[v as int].adjacent@[j] != w,
            decreases self.vertices@[v as int].adjacent@.len() - k,
        {
            if self.vertices[v].adjacent[k] == w {
                assert(self@[v as int].neighbours[k as int] == w);
                return true;
            }
            k += 1;
        }
        false
    }

    /// The neighbours of `v`, or none where `v` is no vertex of the graph.
    pub fn get_adjacent(&self, v: VertexIndex) -> (adjacent: Vec<VertexIndex>)
        ensures
            adjacent@ == if v < self@.len() {
                self@[v as int].neighbours
            } else {
                Seq::empty()
            },
    {
        if v < self.vertices.len() {
            self.vertices[v].adjacent.clone()
        } else {
            Vec::new()
        }
    }
}

/// Relabelling keeps the edges, and with a bijection it keeps whether the
/// colouring is valid: no relabelling makes a valid colouring invalid, or an
/// invalid one valid.
pub proof fn lemma_relabelled_keeps_validity(graph: Seq<VertexView<Color>>, images: Seq<Color>)
    requires
        is_bijection(images),
    ensures
        topology(relabelled(graph, images)) == topology(graph),
        well_formed(relabelled(graph, images)) <==> well_formed(graph),
        fully_labeled(relabelled(graph, images)) <==> fully_labeled(graph),
        no_shared_color(relabelled(graph, images)) <==> no_shared_color(graph),
        valid_coloring(relabelled(graph, images)) <==> valid_coloring(graph),
{
    let after = relabelled(graph, images);
    assert(topology(after) =~= topology(graph));
    assert forall|v: int| 0 <= v < graph.len() implies (#[trigger] after[v]).neighbours
        == graph[v].neighbours && (after[v].label is Some <==> graph[v].label is Some) by {}
    lemma_same_topology_well_formed(after, graph);
    assert(fully_labeled(after) <==> fully_labeled(graph)) by {
        if fully_labeled(graph) {
            assert forall|v: int| 0 <= v < after.len() implies (#[trigger] after[v]).label
                is Some by {
            }
        }
        if fully_labeled(after) {
            assert forall|v: int| 0 <= v < graph.len() implies (#[trigger] graph[v]).label
                is Some by {
                assert(after[v].label is Some);
            }
        }
    }
    assert(no_shared_color(after) <==> no_shared_color(graph)) by {
        if no_shared_color(graph) {
            assert forall|v: int, k: int|
                0 <= v < after.len() && 0 <= k < after[v].neighbours.len() implies {
                let w = #[trigger] after[v].neighbours[k];
                w < after.len() && after[v].label is Some ==> after[v].label
                    != after[w as int].label
            } by {
                let w = graph[v].neighbours[k];
                if w < graph.len() && graph[v].label is Some && graph[w as int].label is Some {
                    lemma_bijection_injective(
                        images,
                        graph[v].label->0,
                        graph[w as int].label->0,
                    );
                }
            }
        }
        if no_shared_color(after) {
            assert forall|v: int, k: int|
                0 <= v < graph.len() && 0 <= k < graph[v].neighbours.len() implies {
                let w = #[trigger] graph[v].neighbours[k];
                w < graph.len() && graph[v].label is Some ==> graph[v].label
                    != graph[w as int].label
            } by {
                let w = after[v].neighbours[k];
            }
        }
    }
}

impl<T: Clone> Graph<T> {
    /// The labels of `a` and `b`, or nothing where one of them is no vertex
    /// of the graph or has no label.
    pub fn colors_for(&self, a: VertexIndex, b: VertexIndex) -> (labels: Option<(T, T)>)
        ensures
            labels is Some <==> has_labels(self@, a, b),
            labels matches Some(pair) ==> {
                &&& cloned::<T>(self@[a as int].label->0, pair.0)
                &&& cloned::<T>(self@[b as int].label->0, pair.1)
            },
    {
        if a < self.vertices.len() && b < self.vertices.len() {
            match (&self.vertices[a].contents, &self.vertices[b].contents) {
                (Some(first), Some(second)) => Some((first.clone(), second.clone())),
                _ => None,
            }
        } else {
            None
        }
    }

    /// Whether every vertex has a label.
    pub fn is_fully_labeled(&self) -> (labeled: bool)
        ensures
            labeled == fully_labeled(self@),
    {
        let mut v: usize = 0;
        while v < self.vertices.len()
            invariant
                v <= self.vertices@.len(),
                forall|u: int| 0 <= u < v ==> (#[trigger] self@[u]).label is Some,
            decreases self.vertices@.len() - v,
        {
            if self.vertices[v].contents.is_none() {
                assert(self@[v as int].label is None);
                return false;
            }
            v += 1;
        }
        true
    }
}

impl<T: Clone + Commitable> Vertex<T> {
    fn commit(&self) -> (made: Vertex<Commitment>)
        requires
            self@.label is Some,
        ensures
            made@.neighbours == self@.neighbours,
            made@.label is Some,
            self@.label->0.commits_to(made@.label->0@),
    {
        match &self.contents {
            Some(label) => Vertex { contents: Some(label.commit()), adjacent: self.adjacent.clone() },
            None => Vertex { contents: None, adjacent: self.adjacent.clone() },
        }
    }
}

impl Vertex<Commitment> {
    fn zk_commit(&self) -> (public: Vertex<ZKCommitment>)
        requires
            self@.label is Some,
        ensures
            public@.neighbours == self@.neighbours,
            public@.label is Some,
            public@.label->0@ == public_form(self@.label->0@),
    {
        match &self.contents {
            Some(label) => Vertex {
                contents: Some(label.zk_commit()),
                adjacent: self.adjacent.clone(),
            },
            None => Vertex { contents: None, adjacent: self.adjacent.clone() },
        }
    }
}

impl<T: Clone + Commitable> Graph<T> {
    /// The graph with the same edges and, at each vertex, a commitment to
    /// the label there. Every vertex must have a label.
    pub fn commit(&self) -> (commitment: Graph<Commitment>)
        requires
            fully_labeled(self@),
        ensures
            commits_graph(self@, commitment@),
            self.wf() ==> commitment.wf(),
            fully_labeled(commitment@),
    {
        let mut commitment: Graph<Commitment> = Graph { vertices: Vec::new() };
        let mut v: usize = 0;
        while v < self.vertices.len()
            invariant
                v <= self.vertices@.len(),
                commitment.vertices@.len() == v,
                fully_labeled(self@),
                forall|u: int|
                    0 <= u < v ==> {
                        &&& (#[trigger] commitment.vertices@[u])@.neighbours
                            == self.vertices@[u]@.neighbours
                        &&& commitment.vertices@[u]@.label is Some
                        &&& self.vertices@[u]@.label->0.commits_to(
                            commitment.vertices@[u]@.label->0@,
                        )
                    },
            decreases self.vertices@.len() - v,
        {
            assert(self@[v as int].label is Some);
            let made = self.vertices[v].commit();
            commitment.vertices.push(made);
            v += 1;
        }
        proof {
            assert(topology(commitment@) =~= topology(self@));
            lemma_same_topology_well_formed(self@, commitment@);
        }
        commitment
    }
}

impl Graph<Commitment> {
    /// The public form of a graph of commitments: the same edges and, at
    /// each vertex, the hash without the secret. Every vertex must have a
    /// label.
    pub fn zk_commit(&self) -> (zk_commitment: Graph<ZKCommitment>)
        requires
            fully_labeled(self@),
        ensures
            strips_graph(self@, zk_commitment@),
            self.wf() ==> zk_commitment.wf(),
            fully_labeled(zk_commitment@),
    {
        let mut zk_commitment: Graph<ZKCommitment> = Graph { vertices: Vec::new() };
        let mut v: usize = 0;
        while v < self.vertices.len()
            invariant
                v <= self.vertices@.len(),
                zk_commitment.vertices@.len() == v,
                fully_labeled(self@),
                forall|u: int|
                    0 <= u < v ==> {
                        &&& (#[trigger] zk_commitment.vertices@[u])@.neighbours
                            == self.vertices@[u]@.neighbours
                        &&& zk_commitment.vertices@[u]@.label is Some
                        &&& zk_commitment.vertices@[u]@.label->0@ == public_form(
                            self.vertices@[u]@.label->0@,
                        )
                    },
            decreases self.vertices@.len() - v,
        {
            assert(self@[v as int].label is Some);
            let public = self.vertices[v].zk_commit();
            zk_commitment.vertices.push(public);
            v += 1;
        }
        proof {
            assert(topology(zk_commitment@) =~= topology(self@));
            lemma_same_topology_well_formed(self@, zk_commitment@);
        }
        zk_commitment
    }
}

impl Graph<Color> {
    /// The graph with the same edges and each colour replaced by its image
    /// under `mapping`.
    pub fn permuted(&self, mapping: &ColorToColorMap) -> (relabelled_graph: Graph<Color>)
        ensures
            relabelled_graph@ == relabelled(self@, mapping@),
    {
        let mut relabelled_graph: Graph<Color> = Graph { vertices: Vec::new() };
        let mut v: usize = 0;
        while v < self.vertices.len()
            invariant
                v <= self.vertices@.len(),
                relabelled_graph.vertices@.len() == v,
                forall|u: int|
                    0 <= u < v ==> (#[trigger] relabelled_graph.vertices@[u])@ == relabelled(
                        self@,
                        mapping@,
                    )[u],
            decreases self.vertices@.len() - v,
        {
            let vertex = Vertex {
                contents: mapping.from(&self.vertices[v].contents),
                adjacent: self.vertices[v].adjacent.clone(),
            };
            relabelled_graph.vertices.push(vertex);
            v += 1;
        }
        relabelled_graph
    }

    /// The graph with the same edges and its colours relabelled by a
    /// bijection of the palette that is drawn at random for this call. The
    /// colouring of the result is valid exactly where this one is.
    pub fn random_permutation(&self) -> (random_g: Graph<Color>)
        ensures
            exists|images: Seq<Color>|
                is_bijection(images) && random_g@ == #[trigger] relabelled(self@, images),
            topology(random_g@) == topology(self@),
            random_g.wf() <==> self.wf(),
            fully_labeled(random_g@) <==> fully_labeled(self@),
            valid_coloring(random_g@) <==> valid_coloring(self@),
    {
        let mapping: ColorToColorMap = ColorToColorMap::new_random();
        let random_g = self.permuted(&mapping);
        proof {
            lemma_relabelled_keeps_validity(self@, mapping@);
        }
        random_g
    }

    /// Whether the graph is coloured validly: every vertex has a colour, and
    /// no two neighbours have the same.
    pub fn is_valid_coloring(&self) -> (valid: bool)
        ensures
            valid == valid_coloring(self@),
    {
        if !self.is_fully_labeled() {
            return false;
        }
        let mut v: usize = 0;
        while v < self.vertices.len()
            invariant
                v <= self.vertices@.len(),
                fully_labeled(self@),
                forall|u: int, k: int|
                    0 <= u < v && 0 <= k < self@[u].neighbours.len() ==> {
                        let w = #[trigger] self@[u].neighbours[k];
                        w < self@.len() ==> self@[u].label != self@[w as int].label
                    },
            decreases self.vertices@.len() - v,
        {
            let mut k: usize = 0;
            while k < self.vertices[v].adjacent.len()
                invariant
                    v < self.vertices@.len(),
                    k <= self@[v as int].neighbours.len(),
                    fully_labeled(self@),
                    forall|j: int|
                        0 <= j < k ==> {
                            let w = #[trigger] self@[v as int].neighbours[j];
                            w < self@.len() ==> self@[v as int].label != self@[w as int].label
                        },
                decreases self@[v as int].neighbours.len() - k,
            {
                let w = self.vertices[v].adjacent[k];
                if w < self.vertices.len() {
                    if self.same_color(v, w) {
                        return false;
                    }
                }
                k += 1;
            }
            v += 1;
        }
        true
    }

    fn same_color(&self, v: VertexIndex, w: VertexIndex) -> (same: bool)
        requires
            v < self@.len(),
            w < self@.len(),
        ensures
            same == (self@[v as int].label == self@[w as int].label),
    {
        match (&self.vertices[v].contents, &self.vertices[w].contents) {
            (Some(first), Some(second)) => *first == *second,
            (None, None) => true,
            _ => false,
        }
    }
}

/// Whether a graph is well-formed depends on its edges alone.
pub proof fn lemma_same_topology_well_formed<S, T>(
    first: Seq<VertexView<S>>,
    second: Seq<VertexView<T>>,
)
    requires
        topology(first) == topology(second),
    ensures
        first.len() == second.len(),
        well_formed(first) <==> well_formed(second),
{
    assert(topology(second).len() == second.len());
    assert forall|v: int| 0 <= v < first.len() implies (#[trigger] first[v]).neighbours
        == second[v].neighbours by {
        assert(topology(second)[v] == second[v].neighbours);
    }
    if well_formed(first) {
        assert forall|v: int, k: int|
            0 <= v < second.len() && 0 <= k < second[v].neighbours.len() implies {
            let w = #[trigger] second[v].neighbours[k];
            &&& w < second.len()
            &&& w != v
            &&& second[w as int].neighbours.contains(v as usize)
        } by {
            assert(first[v].neighbours[k] == second[v].neighbours[k]);
        }
        assert forall|v: int| 0 <= v < second.len() implies (#[trigger] second[v]).neighbours.no_duplicates() by {
            assert(first[v].neighbours.no_duplicates());
        }
    }
    if well_formed(second) {
        assert forall|v: int, k: int|
            0 <= v < first.len() && 0 <= k < first[v].neighbours.len() implies {
            let w = #[trigger] first[v].neighbours[k];
            &&& w < first.len()
            &&& w != v
            &&& first[w as int].neighbours.contains(v as usize)
        } by {
            assert(first[v].neighbours[k] == second[v].neighbours[k]);
        }
        assert forall|v: int| 0 <= v < first.len() implies (#[trigger] first[v]).neighbours.no_duplicates() by {
            assert(second[v].neighbours.no_duplicates());
        }
    }
}

} // verus!
