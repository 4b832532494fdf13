//! The dependency graph of a catalogue, and how it is built: one node per
//! course, one marker node per group of alternatives, and an edge from
//! each dependent node to what it requires.

use vstd::prelude::*;
use petgraph::graph::Graph;
use petgraph::Directed;
use crate::catalog::{
    canonical,
    course_views,
    distinct_ids,
    has_id,
    holds,
    lemma_canonical_complete,
    lemma_canonical_first,
    lemma_canonical_order_independent,
    lemma_canonical_sorted,
    lemma_id_lt_trichotomy,
    sort_dedup,
};
use crate::course::{
    Course,
    CourseId,
    CourseIdView,
    CourseView,
    Node,
    NodeType,
    NodeTypeView,
    NodeView,
    Relation,
    Requirement,
    RequirementView,
    id_lt,
    requirement_views,
};
use crate::digraph::{
    Edge,
    graph_add_edge,
    graph_add_node,
    graph_edge_count,
    graph_edges,
    graph_limit,
    graph_new,
    graph_node,
    graph_node_count,
    graph_nodes,
};

verus! {

/// The views of a list of nodes.
pub open spec fn node_views(s: Seq<Node>) -> Seq<NodeView> {
    s.map_values(|n: Node| n@)
}

/// Why a catalogue gives no graph.
#[derive(Debug)]
pub enum BuildError {
    /// A requirement names a course that the catalogue does not list.
    UnknownCourse(CourseId),
    /// The graph would hold more nodes or edges than its indices can
    /// number.
    TooLarge,
}

/// What a `BuildError` stands for.
pub enum BuildErrorView {
    UnknownCourse(CourseIdView),
    TooLarge,
}

impl View for BuildError {
    type V = BuildErrorView;

    open spec fn view(&self) -> BuildErrorView {
        match self {
            BuildError::UnknownCourse(id) => BuildErrorView::UnknownCourse(id@),
            BuildError::TooLarge => BuildErrorView::TooLarge,
        }
    }
}

/// An edge that waits for its target: the course `target` is not in the
/// graph yet.
pub struct Pending {
    pub source: int,
    pub target: CourseIdView,
    pub relation: Relation,
}

/// The graph under construction.
pub struct Build {
    pub nodes: Seq<NodeView>,
    pub edges: Seq<Edge>,
    pub queue: Seq<Pending>,
}

/// The marker node of a group of alternatives.
pub open spec fn or_node() -> NodeView {
    NodeView { ntype: NodeTypeView::Or, val: 0 }
}

/// The node of a course that the scheduler has not weighed yet.
pub open spec fn course_node(c: CourseView) -> NodeView {
    NodeView { ntype: NodeTypeView::Course(c), val: 0 }
}

/// The first node at or after `from` that is the course `id`.
pub open spec fn find_node(nodes: Seq<NodeView>, id: CourseIdView, from: int) -> Option<int>
    decreases nodes.len() - from,
{
    if from < 0 || from >= nodes.len() {
        None
    } else if nodes[from].has_id(id) {
        Some(from)
    } else {
        find_node(nodes, id, from + 1)
    }
}

/// `b` with one more node; `None` where the graph is full.
pub open spec fn with_node(b: Build, node: NodeView) -> Option<Build> {
    if b.nodes.len() >= graph_limit() {
        None
    } else {
        Some(Build { nodes: b.nodes.push(node), ..b })
    }
}

/// `b` with one more edge; `None` where the graph is full.
pub open spec fn with_edge(b: Build, source: int, target: int, relation: Relation) -> Option<
    Build,
> {
    if b.edges.len() >= graph_limit() {
        None
    } else {
        Some(Build { edges: b.edges.push(Edge { source, target, relation }), ..b })
    }
}

/// States that `source` requires the course `id`: an edge to its node
/// where the graph has one, else an edge that waits.
pub open spec fn connect(b: Build, source: int, id: CourseIdView, relation: Relation) -> Option<
    Build,
> {
    match find_node(b.nodes, id, 0) {
        Some(target) => with_edge(b, source, target, relation),
        None => Some(Build { queue: b.queue.push(Pending { source, target: id, relation }), ..b }),
    }
}

/// Adds what `req` asks of `node`. A conjunction asks each of its members
/// of `node` itself; a group of alternatives gets a marker node, which
/// `node` requires as a prerequisite, and asks each member of the marker.
pub open spec fn descend(b: Build, node: int, req: RequirementView) -> Option<Build>
    decreases req, 0int,
{
    match req {
        RequirementView::And(list) => descend_list(b, node, list, 0),
        RequirementView::Or(list) => {
            let marker = b.nodes.len() as int;
            match with_node(b, or_node()) {
                None => None,
                Some(b1) => match with_edge(b1, node, marker, Relation::Prereq) {
                    None => None,
                    Some(b2) => descend_list(b2, marker, list, 0),
                },
            }
        },
        RequirementView::Prereq(id) => connect(b, node, id, Relation::Prereq),
        RequirementView::Coreq(id) => connect(b, node, id, Relation::Coreq),
    }
}

/// Adds what the members of `list` from `from` on ask of `node`, in order.
pub open spec fn descend_list(b: Build, node: int, list: Seq<RequirementView>, from: int) -> Option<
    Build,
>
    decreases list, list.len() - from,
{
    if from < 0 || from >= list.len() {
        Some(b)
    } else {
        match descend(b, node, list[from]) {
            None => None,
            Some(b1) => descend_list(b1, node, list, from + 1),
        }
    }
}

/// Connects the waiting edges from position `i` on whose target is `id` to
/// the node `target`, in order; `kept` collects the edges that go on
/// waiting.
pub open spec fn resolve(b: Build, kept: Seq<Pending>, i: int, target: int, id: CourseIdView)
    -> Option<Build>
    decreases b.queue.len() - i,
{
    if i < 0 || i >= b.queue.len() {
        Some(Build { queue: kept, ..b })
    } else if b.queue[i].target == id {
        match with_edge(b, b.queue[i].source, target, b.queue[i].relation) {
            None => None,
            Some(b1) => resolve(b1, kept, i + 1, target, id),
        }
    } else {
        resolve(b, kept.push(b.queue[i]), i + 1, target, id)
    }
}

/// Adds a course: its node, the edges that waited for it, and what its
/// requirements ask.
pub open spec fn add_course(b: Build, c: CourseView) -> Option<Build> {
    let node = b.nodes.len() as int;
    match with_node(b, course_node(c)) {
        None => None,
        Some(b1) => match resolve(b1, Seq::empty(), 0, node, c.id) {
            None => None,
            Some(b2) => match c.requirements {
                None => Some(b2),
                Some(req) => descend(b2, node, req),
            },
        },
    }
}

/// Adds the courses of `cat` from position `i` on, in order.
pub open spec fn add_courses(b: Build, cat: Seq<CourseView>, i: int) -> Option<Build>
    decreases cat.len() - i,
{
    if i < 0 || i >= cat.len() {
        Some(b)
    } else {
        match add_course(b, cat[i]) {
            None => None,
            Some(b1) => add_courses(b1, cat, i + 1),
        }
    }
}

/// The graph of a catalogue: that of its canonical form, built course by
/// course. An edge that still waits at the end names a course that the
/// catalogue lacks.
pub open spec fn build(catalog: Seq<CourseView>) -> Result<Build, BuildErrorView> {
    let start = Build { nodes: Seq::empty(), edges: Seq::empty(), queue: Seq::empty() };
    match add_courses(start, canonical(catalog), 0) {
        None => Err(BuildErrorView::TooLarge),
        Some(b) => if b.queue.len() == 0 {
            Ok(b)
        } else {
            Err(BuildErrorView::UnknownCourse(b.queue[0].target))
        },
    }
}

/// The graph of a catalogue does not depend on the order in which the
/// catalogue lists its courses: a requirement on a course that stands
/// further down gives the same edge as one on a course further up.
pub proof fn lemma_build_order_independent(a: Seq<CourseView>, b: Seq<CourseView>)
    requires
        distinct_ids(a),
        forall|i: int| 0 <= i < a.len() ==> holds(b, #[trigger] a[i]),
        forall|j: int| 0 <= j < b.len() ==> holds(a, #[trigger] b[j]),
    ensures
        build(a) == build(b),
{
    lemma_canonical_order_independent(a, b);
}

/// An edge that waits for the course `target`.
pub struct PendingEdge {
    pub source: usize,
    pub target: CourseId,
    pub relation: Relation,
}

impl View for PendingEdge {
    type V = Pending;

    open spec fn view(&self) -> Pending {
        Pending { source: self.source as int, target: self.target@, relation: self.relation }
    }
}

/// The views of a list of waiting edges.
pub open spec fn pending_views(s: Seq<PendingEdge>) -> Seq<Pending> {
    s.map_values(|p: PendingEdge| p@)
}

/// What a graph and a queue of waiting edges stand for together.
pub open spec fn build_state(g: Graph<Node, Relation, Directed, u32>, queue: Seq<PendingEdge>)
    -> Build {
    Build {
        nodes: node_views(graph_nodes(g)),
        edges: graph_edges(g),
        queue: pending_views(queue),
    }
}

/// Whether every waiting edge leaves a node of the graph.
pub open spec fn queue_ok(g: Graph<Node, Relation, Directed, u32>, queue: Seq<PendingEdge>)
    -> bool {
    forall|k: int| 0 <= k < queue.len() ==> (#[trigger] queue[k]).source < graph_nodes(g).len()
}

/// The index of the first node that is the course `id`.
fn find_index(g: &Graph<Node, Relation, Directed, u32>, id: &CourseId) -> (r: Option<usize>)
    ensures
        r matches Some(i) ==> find_node(node_views(graph_nodes(*g)), id@, 0) == Some(i as int) && i
            < graph_nodes(*g).len(),
        r is None ==> find_node(node_views(graph_nodes(*g)), id@, 0) is None,
{
    let n = graph_node_count(g);
    let ghost nodes = node_views(graph_nodes(*g));
    let mut i: usize = 0;
    while i < n
        invariant
            n == nodes.len(),
            nodes == node_views(graph_nodes(*g)),
            i <= n,
            find_node(nodes, id@, 0) == find_node(nodes, id@, i as int),
        decreases n - i,
    {
        if graph_node(g, i).has_id(id) {
            return Some(i);
        }
        i += 1;
    }
    None
}

/// Adds an edge, unless the graph is full.
fn try_add_edge(
    g: &mut Graph<Node, Relation, Directed, u32>,
    source: usize,
    target: usize,
    relation: Relation,
) -> (ok: bool)
    requires
        source < graph_nodes(*old(g)).len(),
        target < graph_nodes(*old(g)).len(),
    ensures
        ok == (graph_edges(*old(g)).len() < graph_limit()),
        ok ==> graph_edges(*final(g)) == graph_edges(*old(g)).push(
            Edge { source: source as int, target: target as int, relation },
        ),
        graph_nodes(*final(g)) == graph_nodes(*old(g)),
{
    if graph_edge_count(g) >= 0xffff_ffff {
        return false;
    }
    graph_add_edge(g, source, target, relation);
    true
}

/// Adds a node, unless the graph is full.
fn try_add_node(g: &mut Graph<Node, Relation, Directed, u32>, node: Node) -> (r: Option<usize>)
    ensures
        r is Some == (graph_nodes(*old(g)).len() < graph_limit()),
        r matches Some(i) ==> i == graph_nodes(*old(g)).len() && graph_nodes(*final(g))
            == graph_nodes(*old(g)).push(node),
        graph_edges(*final(g)) == graph_edges(*old(g)),
{
    if graph_node_count(g) >= 0xffff_ffff {
        return None;
    }
    Some(graph_add_node(g, node))
}

/// States that `source` requires the course `id`.
fn connect_course(
    g: &mut Graph<Node, Relation, Directed, u32>,
    queue: &mut Vec<PendingEdge>,
    source: usize,
    id: &CourseId,
    relation: Relation,
) -> (ok: bool)
    requires
        source < graph_nodes(*old(g)).len(),
        queue_ok(*old(g), old(queue)@),
    ensures
        ok ==> queue_ok(*final(g), final(queue)@),
        ok == connect(build_state(*old(g), old(queue)@), source as int, id@, relation).is_some(),
        ok ==> build_state(*final(g), final(queue)@) == connect(
            build_state(*old(g), old(queue)@),
            source as int,
            id@,
            relation,
        ).unwrap(),
        ok ==> graph_nodes(*final(g)).len() >= graph_nodes(*old(g)).len(),
{
    match find_index(g, id) {
        Some(target) => try_add_edge(g, source, target, relation),
        None => {
            queue.push(PendingEdge { source, target: id.clone(), relation });
            assert(pending_views(queue@) =~= pending_views(old(queue)@).push(
                Pending { source: source as int, target: id@, relation },
            ));
            true
        },
    }
}

/// Adds what `req` asks of `node`.
fn descend_deptree(
    g: &mut Graph<Node, Relation, Directed, u32>,
    queue: &mut Vec<PendingEdge>,
    node: usize,
    req: &Requirement,
) -> (ok: bool)
    requires
        node < graph_nodes(*old(g)).len(),
        queue_ok(*old(g), old(queue)@),
    ensures
        ok ==> queue_ok(*final(g), final(queue)@),
        ok == descend(build_state(*old(g), old(queue)@), node as int, req@).is_some(),
        ok ==> build_state(*final(g), final(queue)@) == descend(
            build_state(*old(g), old(queue)@),
            node as int,
            req@,
        ).unwrap(),
        ok ==> graph_nodes(*final(g)).len() >= graph_nodes(*old(g)).len(),
    decreases req, 0int,
{
    match req {
        Requirement::And(list) => descend_members(g, queue, node, list),
        Requirement::Or(list) => {
            let marker = match try_add_node(g, Node::from_type(NodeType::Or)) {
                Some(marker) => marker,
                None => {
                    return false;
                },
            };
            assert(node_views(graph_nodes(*g)) =~= node_views(graph_nodes(*old(g))).push(
                or_node(),
            ));
            if !try_add_edge(g, node, marker, Relation::Prereq) {
                return false;
            }
            descend_members(g, queue, marker, list)
        },
        Requirement::Prereq(id) => connect_course(g, queue, node, id, Relation::Prereq),
        Requirement::Coreq(id) => connect_course(g, queue, node, id, Relation::Coreq),
    }
}

/// Adds what the members of `list` ask of `node`, in order.
fn descend_members(
    g: &mut Graph<Node, Relation, Directed, u32>,
    queue: &mut Vec<PendingEdge>,
    node: usize,
    list: &Vec<Requirement>,
) -> (ok: bool)
    requires
        node < graph_nodes(*old(g)).len(),
        queue_ok(*old(g), old(queue)@),
    ensures
        ok ==> queue_ok(*final(g), final(queue)@),
        ok == descend_list(
            build_state(*old(g), old(queue)@),
            node as int,
            requirement_views(list@),
            0,
        ).is_some(),
        ok ==> build_state(*final(g), final(queue)@) == descend_list(
            build_state(*old(g), old(queue)@),
            node as int,
            requirement_views(list@),
            0,
        ).unwrap(),
        ok ==> graph_nodes(*final(g)).len() >= graph_nodes(*old(g)).len(),
    decreases list, list.len(),
{
    let ghost views = requirement_views(list@);
    let ghost start = build_state(*g, queue@);
    let mut i: usize = 0;
    while i < list.len()
        invariant
            i <= list.len(),
            views == requirement_views(list@),
            start == build_state(*old(g), old(queue)@),
            node < graph_nodes(*g).len(),
            queue_ok(*g, queue@),
            graph_nodes(*g).len() >= graph_nodes(*old(g)).len(),
            descend_list(start, node as int, views, 0) == descend_list(
                build_state(*g, queue@),
                node as int,
                views,
                i as int,
            ),
        decreases list.len() - i,
    {
        assert(views[i as int] == list@[i as int]@);
        if !descend_deptree(g, queue, node, &list[i]) {
            return false;
        }
        i += 1;
    }
    true
}

/// Connects the waiting edges whose target is `id` to the node `target`
/// and takes them out of the queue.
fn resolve_pending(
    g: &mut Graph<Node, Relation, Directed, u32>,
    queue: &mut Vec<PendingEdge>,
    target: usize,
    id: &CourseId,
) -> (ok: bool)
    requires
        target < graph_nodes(*old(g)).len(),
        queue_ok(*old(g), old(queue)@),
    ensures
        ok ==> queue_ok(*final(g), final(queue)@),
        ok == resolve(
            build_state(*old(g), old(queue)@),
            Seq::empty(),
            0,
            target as int,
            id@,
        ).is_some(),
        ok ==> build_state(*final(g), final(queue)@) == resolve(
            build_state(*old(g), old(queue)@),
            Seq::empty(),
            0,
            target as int,
            id@,
        ).unwrap(),
        graph_nodes(*final(g)) == graph_nodes(*old(g)),
{
    let ghost start = build_state(*g, queue@);
    let ghost waiting = pending_views(queue@);
    let mut kept: Vec<PendingEdge> = Vec::new();
    let mut i: usize = 0;
    assert(pending_views(kept@) =~= Seq::<Pending>::empty());
    while i < queue.len()
        invariant
            i <= queue.len(),
            queue@ == old(queue)@,
            waiting == pending_views(queue@),
            start == build_state(*old(g), old(queue)@),
            target < graph_nodes(*g).len(),
            graph_nodes(*g) == graph_nodes(*old(g)),
            queue_ok(*g, queue@),
            queue_ok(*g, kept@),
            resolve(start, Seq::empty(), 0, target as int, id@) == resolve(
                build_state(*g, queue@),
                pending_views(kept@),
                i as int,
                target as int,
                id@,
            ),
        decreases queue.len() - i,
    {
        let ghost kept_before = pending_views(kept@);
        assert(waiting[i as int] == queue@[i as int]@);
        if queue[i].target == *id {
            if !try_add_edge(g, queue[i].source, target, queue[i].relation) {
                return false;
            }
        } else {
            kept.push(
                PendingEdge {
                    source: queue[i].source,
                    target: queue[i].target.clone(),
                    relation: queue[i].relation,
                },
            );
            assert(pending_views(kept@) =~= kept_before.push(waiting[i as int]));
        }
        i += 1;
    }
    *queue = kept;
    true
}

/// The dependency graph of a course catalogue.
pub struct CourseGraph {
    pub courses: Graph<Node, Relation, Directed, u32>,
}

impl CourseGraph {
    /// The nodes of the graph, by index.
    pub open spec fn nodes(&self) -> Seq<NodeView> {
        node_views(graph_nodes(self.courses))
    }

    /// The edges of the graph, in the order in which they were added.
    pub open spec fn edges(&self) -> Seq<Edge> {
        graph_edges(self.courses)
    }

    /// Builds the graph of a catalogue. The catalogue is sorted by course
    /// identifier, an entry whose identifier an earlier entry has is
    /// dropped, and the courses are added in that order. A requirement on
    /// a course that is in the graph already becomes an edge at once; one
    /// on a later course waits until that course is added.
    pub fn new(catalog: Vec<Course>) -> (r: Result<CourseGraph, BuildError>)
        ensures
            match build(course_views(catalog@)) {
                Ok(b) => r matches Ok(g) && g.nodes() == b.nodes && g.edges() == b.edges,
                Err(e) => r matches Err(err) && err@ == e,
            },
    {
        let sorted = sort_dedup(catalog);
        let ghost cat = course_views(sorted@);
        let mut g = graph_new();
        let mut queue: Vec<PendingEdge> = Vec::new();
        let ghost start = build_state(g, queue@);
        assert(start.nodes =~= Seq::<NodeView>::empty());
        assert(start.queue =~= Seq::<Pending>::empty());
        assert(start == (Build { nodes: Seq::empty(), edges: Seq::empty(), queue: Seq::empty() }));
        let mut i: usize = 0;
        while i < sorted.len()
            invariant
                i <= sorted.len(),
                cat == course_views(sorted@),
                cat == canonical(course_views(catalog@)),
                start == (Build { nodes: Seq::empty(), edges: Seq::empty(), queue: Seq::empty() }),
                queue_ok(g, queue@),
                add_courses(start, cat, 0) == add_courses(build_state(g, queue@), cat, i as int),
            decreases sorted.len() - i,
        {
            let course = sorted[i].clone();
            assert(course@ == cat[i as int]);
            let id = course.id.clone();
            let reqs = match &course.requirements {
                Some(r) => Some(r.clone()),
                None => None,
            };
            let ghost before = graph_nodes(g);
            let node = match try_add_node(&mut g, Node::from_course(course)) {
                Some(node) => node,
                None => {
                    return Err(BuildError::TooLarge);
                },
            };
            assert(node_views(graph_nodes(g)) =~= node_views(before).push(
                course_node(cat[i as int]),
            ));
            if !resolve_pending(&mut g, &mut queue, node, &id) {
                return Err(BuildError::TooLarge);
            }
            match reqs {
                Some(req) => {
                    if !descend_deptree(&mut g, &mut queue, node, &req) {
                        return Err(BuildError::TooLarge);
                    }
                },
                None => {},
            }
            i += 1;
        }
        if queue.len() == 0 {
            Ok(CourseGraph { courses: g })
        } else {
            Err(BuildError::UnknownCourse(queue[0].target.clone()))
        }
    }

    /// The index of the course `id`: that of the first node that is this
    /// course, or `None` where the graph has no such node.
    pub fn index_of(&self, id: &CourseId) -> (r: Option<usize>)
        ensures
            r matches Some(i) ==> find_node(self.nodes(), id@, 0) == Some(i as int) && i
                < self.nodes().len() && self.nodes()[i as int].has_id(id@),
            r is None ==> forall|i: int|
                0 <= i < self.nodes().len() ==> !self.nodes()[i].has_id(id@),
    {
        let r = find_index(&self.courses, id);
        proof {
            lemma_find_node(self.nodes(), id@, 0);
        }
        r
    }

    /// The number of nodes.
    pub fn node_count(&self) -> (n: usize)
        ensures
            n == self.nodes().len(),
    {
        graph_node_count(&self.courses)
    }

    /// The node at `index`.
    pub fn node(&self, index: usize) -> (node: &Node)
        requires
            index < self.nodes().len(),
        ensures
            node@ == self.nodes()[index as int],
    {
        graph_node(&self.courses, index)
    }
}

/// What `find_node` finds: the first node from `from` on that is the
/// course, and `None` only where there is none.
pub proof fn lemma_find_node(nodes: Seq<NodeView>, id: CourseIdView, from: int)
    requires
        0 <= from,
    ensures
        find_node(nodes, id, from) matches Some(i) ==> from <= i < nodes.len()
            && nodes[i].has_id(id) && forall|j: int| from <= j < i ==> !nodes[j].has_id(id),
        find_node(nodes, id, from) is None ==> forall|j: int|
            from <= j < nodes.len() ==> !nodes[j].has_id(id),
    decreases nodes.len() - from,
{
    if from < nodes.len() && !nodes[from].has_id(id) {
        lemma_find_node(nodes, id, from + 1);
    }
}

/// Whether every edge leads from a node of the graph to a node of the
/// graph, and every waiting edge leaves a node of the graph.
pub open spec fn well_linked(b: Build) -> bool {
    &&& forall|k: int|
        0 <= k < b.edges.len() ==> 0 <= (#[trigger] b.edges[k]).source < b.nodes.len() && 0
            <= b.edges[k].target < b.nodes.len()
    &&& forall|k: int| 0 <= k < b.queue.len() ==> 0 <= (#[trigger] b.queue[k]).source < b.nodes.len()
}

/// An edge between two nodes of a well linked graph leaves it well linked.
proof fn lemma_edge_linked(b: Build, source: int, target: int, relation: Relation)
    requires
        well_linked(b),
        0 <= source < b.nodes.len(),
        0 <= target < b.nodes.len(),
    ensures
        with_edge(b, source, target, relation) matches Some(after) ==> well_linked(after)
            && after.nodes == b.nodes && after.queue == b.queue,
{
    if let Some(after) = with_edge(b, source, target, relation) {
        assert forall|k: int| 0 <= k < after.edges.len() implies 0 <= (
        #[trigger] after.edges[k]).source < after.nodes.len() && 0 <= after.edges[k].target
            < after.nodes.len() by {
            if k < b.edges.len() {
                assert(after.edges[k] == b.edges[k]);
            }
        }
    }
}

/// A new node leaves a well linked graph well linked.
proof fn lemma_node_linked(b: Build, node: NodeView)
    requires
        well_linked(b),
    ensures
        with_node(b, node) matches Some(after) ==> well_linked(after) && after.nodes.len()
            == b.nodes.len() + 1,
{
}

/// Stating a requirement of a node of a well linked graph leaves it well
/// linked.
proof fn lemma_connect_linked(b: Build, source: int, id: CourseIdView, relation: Relation)
    requires
        well_linked(b),
        0 <= source < b.nodes.len(),
    ensures
        connect(b, source, id, relation) matches Some(after) ==> well_linked(after)
            && after.nodes == b.nodes,
{
    lemma_find_node(b.nodes, id, 0);
    match find_node(b.nodes, id, 0) {
        Some(target) => {
            lemma_edge_linked(b, source, target, relation);
        },
        None => {
            let after = connect(b, source, id, relation).unwrap();
            assert forall|k: int| 0 <= k < after.queue.len() implies 0 <= (
            #[trigger] after.queue[k]).source < after.nodes.len() by {
                if k < b.queue.len() {
                    assert(after.queue[k] == b.queue[k]);
                }
            }
        },
    }
}

/// What a requirement asks of a node of a well linked graph leaves it
/// well linked, with no fewer nodes.
proof fn lemma_descend_linked(b: Build, node: int, req: RequirementView)
    requires
        well_linked(b),
        0 <= node < b.nodes.len(),
    ensures
        descend(b, node, req) matches Some(after) ==> well_linked(after) && after.nodes.len()
            >= b.nodes.len(),
    decreases req, 0int,
{
    match req {
        RequirementView::And(list) => {
            lemma_descend_list_linked(b, node, list, 0);
        },
        RequirementView::Or(list) => {
            lemma_node_linked(b, or_node());
            if let Some(b1) = with_node(b, or_node()) {
                lemma_edge_linked(b1, node, b.nodes.len() as int, Relation::Prereq);
                if let Some(b2) = with_edge(b1, node, b.nodes.len() as int, Relation::Prereq) {
                    lemma_descend_list_linked(b2, b.nodes.len() as int, list, 0);
                }
            }
        },
        RequirementView::Prereq(id) => {
            lemma_connect_linked(b, node, id, Relation::Prereq);
        },
        RequirementView::Coreq(id) => {
            lemma_connect_linked(b, node, id, Relation::Coreq);
        },
    }
}

/// `lemma_descend_linked`, for the members of a list.
proof fn lemma_descend_list_linked(b: Build, node: int, list: Seq<RequirementView>, from: int)
    requires
        well_linked(b),
        0 <= node < b.nodes.len(),
    ensures
        descend_list(b, node, list, from) matches Some(after) ==> well_linked(after)
            && after.nodes.len() >= b.nodes.len(),
    decreases list, list.len() - from,
{
    if 0 <= from < list.len() {
        lemma_descend_linked(b, node, list[from]);
        if let Some(b1) = descend(b, node, list[from]) {
            lemma_descend_list_linked(b1, node, list, from + 1);
        }
    }
}

/// Connecting waiting edges to a node of a well linked graph leaves it
/// well linked.
proof fn lemma_resolve_linked(b: Build, kept: Seq<Pending>, i: int, target: int, id: CourseIdView)
    requires
        well_linked(b),
        0 <= i,
        0 <= target < b.nodes.len(),
        forall|k: int| 0 <= k < kept.len() ==> 0 <= (#[trigger] kept[k]).source < b.nodes.len(),
    ensures
        resolve(b, kept, i, target, id) matches Some(after) ==> well_linked(after) && after.nodes
            == b.nodes,
    decreases b.queue.len() - i,
{
    if i < b.queue.len() {
        if b.queue[i].target == id {
            lemma_edge_linked(b, b.queue[i].source, target, b.queue[i].relation);
            if let Some(b1) = with_edge(b, b.queue[i].source, target, b.queue[i].relation) {
                lemma_resolve_linked(b1, kept, i + 1, target, id);
            }
        } else {
            let more = kept.push(b.queue[i]);
            assert forall|k: int| 0 <= k < more.len() implies 0 <= (#[trigger] more[k]).source
                < b.nodes.len() by {
                if k < kept.len() {
                    assert(more[k] == kept[k]);
                }
            }
            lemma_resolve_linked(b, more, i + 1, target, id);
        }
    }
}

/// The courses of a catalogue leave a well linked graph well linked.
proof fn lemma_add_courses_linked(b: Build, cat: Seq<CourseView>, i: int)
    requires
        well_linked(b),
    ensures
        add_courses(b, cat, i) matches Some(after) ==> well_linked(after),
    decreases cat.len() - i,
{
    if 0 <= i < cat.len() {
        let c = cat[i];
        let node = b.nodes.len() as int;
        lemma_node_linked(b, course_node(c));
        if let Some(b1) = with_node(b, course_node(c)) {
            lemma_resolve_linked(b1, Seq::empty(), 0, node, c.id);
            if let Some(b2) = resolve(b1, Seq::empty(), 0, node, c.id) {
                if let Some(req) = c.requirements {
                    lemma_descend_linked(b2, node, req);
                }
                if let Some(b3) = add_course(b, c) {
                    lemma_add_courses_linked(b3, cat, i + 1);
                }
            }
        }
    }
}

/// Every edge of the graph of a catalogue leads from a node of the graph
/// to a node of the graph.
pub proof fn lemma_build_linked(catalog: Seq<CourseView>)
    ensures
        build(catalog) matches Ok(b) ==> well_linked(b),
{
    let start = Build { nodes: Seq::empty(), edges: Seq::empty(), queue: Seq::empty() };
    lemma_add_courses_linked(start, canonical(catalog), 0);
}

/// The identifiers of the course nodes of a list of nodes, in order.
pub open spec fn course_ids(nodes: Seq<NodeView>) -> Seq<CourseIdView>
    decreases nodes.len(),
{
    if nodes.len() == 0 {
        Seq::empty()
    } else {
        match nodes.last().ntype {
            NodeTypeView::Course(c) => course_ids(nodes.drop_last()).push(c.id),
            NodeTypeView::Or => course_ids(nodes.drop_last()),
        }
    }
}

/// The identifiers of a list of courses, in order.
pub open spec fn ids_of(courses: Seq<CourseView>) -> Seq<CourseIdView> {
    courses.map_values(|c: CourseView| c.id)
}

/// Whether the target of every waiting edge is still missing from the
/// graph.
pub open spec fn queue_unresolved(b: Build) -> bool {
    forall|k: int|
        0 <= k < b.queue.len() ==> find_node(b.nodes, (#[trigger] b.queue[k]).target, 0) is None
}

/// A node that is no course changes nothing for `find_node`; a course
/// node is found where nothing was found before, by its own identifier
/// only.
proof fn lemma_find_after_push(nodes: Seq<NodeView>, node: NodeView, id: CourseIdView, from: int)
    requires
        0 <= from <= nodes.len(),
    ensures
        !node.has_id(id) ==> find_node(nodes.push(node), id, from) == find_node(nodes, id, from),
        node.has_id(id) && find_node(nodes, id, from) is None ==> find_node(
            nodes.push(node),
            id,
            from,
        ) == Some(nodes.len() as int),
    decreases nodes.len() - from,
{
    let more = nodes.push(node);
    if from < nodes.len() {
        assert(more[from] == nodes[from]);
        if !nodes[from].has_id(id) {
            lemma_find_after_push(nodes, node, id, from + 1);
        }
    } else {
        assert(more[from] == node);
        assert(find_node(more, id, from + 1) is None);
    }
}

/// What `find_node` finds is the first of the identifiers of the course
/// nodes that is `id`; it finds nothing where none is.
proof fn lemma_find_none_ids(nodes: Seq<NodeView>, id: CourseIdView)
    ensures
        find_node(nodes, id, 0) is None <==> !course_ids(nodes).contains(id),
    decreases nodes.len(),
{
    if nodes.len() > 0 {
        let head = nodes.drop_last();
        let last = nodes.last();
        lemma_find_none_ids(head, id);
        assert(head.push(last) =~= nodes);
        lemma_find_after_push(head, last, id, 0);
        match last.ntype {
            NodeTypeView::Course(c) => {
                let ids = course_ids(head);
                assert(course_ids(nodes) == ids.push(c.id));
                if ids.contains(id) {
                    let k = choose|k: int| 0 <= k < ids.len() && ids[k] == id;
                    assert(ids.push(c.id)[k] == id);
                    lemma_find_node(head, id, 0);
                    lemma_find_node(nodes, id, 0);
                    if find_node(nodes, id, 0) is None {
                        let m = find_node(head, id, 0).unwrap();
                        assert(nodes[m] == head[m]);
                    }
                } else if c.id == id {
                    assert(ids.push(c.id)[ids.len() as int] == id);
                } else {
                    if ids.push(c.id).contains(id) {
                        let more = ids.push(c.id);
                        let k = choose|k: int| 0 <= k < more.len() && more[k] == id;
                        if k < ids.len() {
                            assert(ids[k] == id);
                        }
                    }
                }
            },
            NodeTypeView::Or => {},
        }
    } else {
        assert(!course_ids(nodes).contains(id));
    }
}

/// Stating a requirement adds no node, and leaves the waiting edges
/// without a target in the graph.
proof fn lemma_connect(b: Build, source: int, id: CourseIdView, relation: Relation)
    requires
        queue_unresolved(b),
    ensures
        connect(b, source, id, relation) matches Some(after) ==> queue_unresolved(after)
            && after.nodes == b.nodes,
{
    if let Some(after) = connect(b, source, id, relation) {
        assert forall|k: int| 0 <= k < after.queue.len() implies find_node(
            after.nodes,
            (#[trigger] after.queue[k]).target,
            0,
        ) is None by {
            if k < b.queue.len() {
                assert(after.queue[k] == b.queue[k]);
            }
        }
    }
}

/// A marker node leaves the waiting edges without a target in the graph.
proof fn lemma_marker(b: Build)
    requires
        queue_unresolved(b),
    ensures
        with_node(b, or_node()) matches Some(after) ==> queue_unresolved(after) && course_ids(
            after.nodes,
        ) == course_ids(b.nodes),
{
    if let Some(after) = with_node(b, or_node()) {
        assert(after.nodes.drop_last() =~= b.nodes);
        assert forall|k: int| 0 <= k < after.queue.len() implies find_node(
            after.nodes,
            (#[trigger] after.queue[k]).target,
            0,
        ) is None by {
            lemma_find_after_push(b.nodes, or_node(), b.queue[k].target, 0);
        }
    }
}

/// What a requirement asks adds no course node, and leaves the waiting
/// edges without a target in the graph.
proof fn lemma_descend(b: Build, node: int, req: RequirementView)
    requires
        queue_unresolved(b),
    ensures
        descend(b, node, req) matches Some(after) ==> queue_unresolved(after) && course_ids(
            after.nodes,
        ) == course_ids(b.nodes),
    decreases req, 0int,
{
    match req {
        RequirementView::And(list) => {
            lemma_descend_list(b, node, list, 0);
        },
        RequirementView::Or(list) => {
            lemma_marker(b);
            if let Some(b1) = with_node(b, or_node()) {
                if let Some(b2) = with_edge(b1, node, b.nodes.len() as int, Relation::Prereq) {
                    lemma_descend_list(b2, b.nodes.len() as int, list, 0);
                }
            }
        },
        RequirementView::Prereq(id) => {
            lemma_connect(b, node, id, Relation::Prereq);
        },
        RequirementView::Coreq(id) => {
            lemma_connect(b, node, id, Relation::Coreq);
        },
    }
}

/// `lemma_descend`, for the members of a list.
proof fn lemma_descend_list(b: Build, node: int, list: Seq<RequirementView>, from: int)
    requires
        queue_unresolved(b),
    ensures
        descend_list(b, node, list, from) matches Some(after) ==> queue_unresolved(after)
            && course_ids(after.nodes) == course_ids(b.nodes),
    decreases list, list.len() - from,
{
    if 0 <= from < list.len() {
        lemma_descend(b, node, list[from]);
        if let Some(b1) = descend(b, node, list[from]) {
            lemma_descend_list(b1, node, list, from + 1);
        }
    }
}

/// Connecting the edges that waited for a course leaves those that wait
/// for another, and adds no node.
proof fn lemma_resolve(b: Build, kept: Seq<Pending>, i: int, target: int, id: CourseIdView)
    requires
        0 <= i,
        forall|k: int|
            0 <= k < kept.len() ==> find_node(b.nodes, (#[trigger] kept[k]).target, 0) is None,
        forall|k: int|
            i <= k < b.queue.len() && (#[trigger] b.queue[k]).target != id ==> find_node(
                b.nodes,
                b.queue[k].target,
                0,
            ) is None,
    ensures
        resolve(b, kept, i, target, id) matches Some(after) ==> queue_unresolved(after)
            && after.nodes == b.nodes,
    decreases b.queue.len() - i,
{
    if i < b.queue.len() {
        if b.queue[i].target == id {
            if let Some(b1) = with_edge(b, b.queue[i].source, target, b.queue[i].relation) {
                assert forall|k: int|
                    i + 1 <= k < b1.queue.len() && (#[trigger] b1.queue[k]).target
                        != id implies find_node(b1.nodes, b1.queue[k].target, 0) is None by {
                    assert(b1.queue[k] == b.queue[k]);
                }
                lemma_resolve(b1, kept, i + 1, target, id);
            }
        } else {
            let more = kept.push(b.queue[i]);
            assert forall|k: int| 0 <= k < more.len() implies find_node(
                b.nodes,
                (#[trigger] more[k]).target,
                0,
            ) is None by {
                if k < kept.len() {
                    assert(more[k] == kept[k]);
                }
            }
            lemma_resolve(b, more, i + 1, target, id);
        }
    }
}

/// A course adds one course node, its own, and leaves the waiting edges
/// without a target in the graph.
proof fn lemma_add_course(b: Build, c: CourseView)
    requires
        queue_unresolved(b),
    ensures
        add_course(b, c) matches Some(after) ==> queue_unresolved(after) && course_ids(after.nodes)
            == course_ids(b.nodes).push(c.id),
{
    if let Some(b1) = with_node(b, course_node(c)) {
        assert(b1.nodes.drop_last() =~= b.nodes);
        assert(course_ids(b1.nodes) == course_ids(b.nodes).push(c.id));
        assert forall|k: int|
            0 <= k < b1.queue.len() && (#[trigger] b1.queue[k]).target != c.id implies find_node(
            b1.nodes,
            b1.queue[k].target,
            0,
        ) is None by {
            assert(find_node(b.nodes, b.queue[k].target, 0) is None);
            lemma_find_after_push(b.nodes, course_node(c), b.queue[k].target, 0);
        }
        lemma_resolve(b1, Seq::empty(), 0, b.nodes.len() as int, c.id);
        if let Some(b2) = resolve(b1, Seq::empty(), 0, b.nodes.len() as int, c.id) {
            if let Some(req) = c.requirements {
                lemma_descend(b2, b.nodes.len() as int, req);
            }
        }
    }
}

/// The courses of a catalogue add their course nodes in order.
proof fn lemma_add_courses(b: Build, cat: Seq<CourseView>, i: int)
    requires
        queue_unresolved(b),
        0 <= i <= cat.len(),
    ensures
        add_courses(b, cat, i) matches Some(after) ==> queue_unresolved(after) && course_ids(
            after.nodes,
        ) == course_ids(b.nodes) + ids_of(cat.skip(i)),
    decreases cat.len() - i,
{
    if i < cat.len() {
        lemma_add_course(b, cat[i]);
        if let Some(b1) = add_course(b, cat[i]) {
            lemma_add_courses(b1, cat, i + 1);
            if let Some(after) = add_courses(b1, cat, i + 1) {
                assert(course_ids(b.nodes).push(cat[i].id) + ids_of(cat.skip(i + 1)) =~= course_ids(
                    b.nodes,
                ) + ids_of(cat.skip(i)));
            }
        }
    } else {
        assert(course_ids(b.nodes) + ids_of(cat.skip(i)) =~= course_ids(b.nodes));
    }
}

/// Whether a requirement names the course `id`.
pub open spec fn names(req: RequirementView, id: CourseIdView) -> bool
    decreases req,
{
    match req {
        RequirementView::And(list) => exists|i: int|
            0 <= i < list.len() && names(#[trigger] list[i], id),
        RequirementView::Or(list) => exists|i: int|
            0 <= i < list.len() && names(#[trigger] list[i], id),
        RequirementView::Prereq(x) => x == id,
        RequirementView::Coreq(x) => x == id,
    }
}

/// Whether the requirements of some course of `cat` name the course
/// `id`.
pub open spec fn mentioned(cat: Seq<CourseView>, id: CourseIdView) -> bool {
    exists|i: int|
        0 <= i < cat.len() && (#[trigger] cat[i]).requirements is Some && names(
            cat[i].requirements.unwrap(),
            id,
        )
}

/// Whether every edge that waits in `after` waited in `before` already,
/// or waits for a course that `req` names.
pub open spec fn waits_named(before: Build, after: Build, req: RequirementView) -> bool {
    forall|k: int|
        0 <= k < after.queue.len() ==> before.queue.contains(#[trigger] after.queue[k]) || names(
            req,
            after.queue[k].target,
        )
}

/// What a requirement asks makes no edge wait but for a course that it
/// names.
proof fn lemma_descend_named(b: Build, node: int, req: RequirementView)
    ensures
        descend(b, node, req) matches Some(after) ==> waits_named(b, after, req),
    decreases req, 0int,
{
    if let Some(after) = descend(b, node, req) {
        match req {
            RequirementView::And(list) => {
                lemma_descend_list_named(b, node, list, 0);
                assert forall|k: int| 0 <= k < after.queue.len() implies b.queue.contains(
                    #[trigger] after.queue[k],
                ) || names(req, after.queue[k].target) by {
                    if !b.queue.contains(after.queue[k]) {
                        let i = choose|i: int|
                            0 <= i < list.len() && names(#[trigger] list[i], after.queue[k].target);
                    }
                }
            },
            RequirementView::Or(list) => {
                let b1 = with_node(b, or_node()).unwrap();
                let b2 = with_edge(b1, node, b.nodes.len() as int, Relation::Prereq).unwrap();
                lemma_descend_list_named(b2, b.nodes.len() as int, list, 0);
                assert forall|k: int| 0 <= k < after.queue.len() implies b.queue.contains(
                    #[trigger] after.queue[k],
                ) || names(req, after.queue[k].target) by {
                    if !b2.queue.contains(after.queue[k]) {
                        let i = choose|i: int|
                            0 <= i < list.len() && names(#[trigger] list[i], after.queue[k].target);
                    }
                }
            },
            RequirementView::Prereq(id) => {
                lemma_connect_named(b, node, id, Relation::Prereq);
            },
            RequirementView::Coreq(id) => {
                lemma_connect_named(b, node, id, Relation::Coreq);
            },
        }
    }
}

/// Stating a requirement makes no edge wait but for the course of the
/// requirement.
proof fn lemma_connect_named(b: Build, source: int, id: CourseIdView, relation: Relation)
    ensures
        connect(b, source, id, relation) matches Some(after) ==> forall|k: int|
            0 <= k < after.queue.len() ==> b.queue.contains(#[trigger] after.queue[k])
                || after.queue[k].target == id,
{
    if let Some(after) = connect(b, source, id, relation) {
        assert forall|k: int| 0 <= k < after.queue.len() implies b.queue.contains(
            #[trigger] after.queue[k],
        ) || after.queue[k].target == id by {
            if k < b.queue.len() {
                assert(after.queue[k] == b.queue[k]);
            }
        }
    }
}

/// `lemma_descend_named`, for the members of a list from `from` on.
proof fn lemma_descend_list_named(b: Build, node: int, list: Seq<RequirementView>, from: int)
    ensures
        descend_list(b, node, list, from) matches Some(after) ==> forall|k: int|
            0 <= k < after.queue.len() ==> b.queue.contains(#[trigger] after.queue[k]) || exists|
                i: int,
            |
                0 <= i < list.len() && names(#[trigger] list[i], after.queue[k].target),
    decreases list, list.len() - from,
{
    if 0 <= from < list.len() {
        if let Some(b1) = descend(b, node, list[from]) {
            lemma_descend_named(b, node, list[from]);
            lemma_descend_list_named(b1, node, list, from + 1);
            if let Some(after) = descend_list(b1, node, list, from + 1) {
                assert forall|k: int| 0 <= k < after.queue.len() implies b.queue.contains(
                    #[trigger] after.queue[k],
                ) || exists|i: int|
                    0 <= i < list.len() && names(#[trigger] list[i], after.queue[k].target) by {
                    let p = after.queue[k];
                    if b1.queue.contains(p) {
                        let j = choose|j: int| 0 <= j < b1.queue.len() && b1.queue[j] == p;
                        if !b.queue.contains(b1.queue[j]) {
                            assert(names(list[from], p.target));
                        }
                    }
                }
            }
        }
    } else {
        if let Some(after) = descend_list(b, node, list, from) {
            assert forall|k: int| 0 <= k < after.queue.len() implies b.queue.contains(
                #[trigger] after.queue[k],
            ) by {}
        }
    }
}

/// Connecting waiting edges makes no edge wait that did not wait.
proof fn lemma_resolve_named(b: Build, kept: Seq<Pending>, i: int, target: int, id: CourseIdView)
    requires
        0 <= i,
    ensures
        resolve(b, kept, i, target, id) matches Some(after) ==> forall|k: int|
            0 <= k < after.queue.len() ==> kept.contains(#[trigger] after.queue[k])
                || b.queue.contains(after.queue[k]),
    decreases b.queue.len() - i,
{
    if i < b.queue.len() {
        if b.queue[i].target == id {
            if let Some(b1) = with_edge(b, b.queue[i].source, target, b.queue[i].relation) {
                lemma_resolve_named(b1, kept, i + 1, target, id);
            }
        } else {
            let more = kept.push(b.queue[i]);
            lemma_resolve_named(b, more, i + 1, target, id);
            if let Some(after) = resolve(b, more, i + 1, target, id) {
                assert forall|k: int| 0 <= k < after.queue.len() implies kept.contains(
                    #[trigger] after.queue[k],
                ) || b.queue.contains(after.queue[k]) by {
                    let p = after.queue[k];
                    if more.contains(p) {
                        let j = choose|j: int| 0 <= j < more.len() && more[j] == p;
                        if j < kept.len() {
                            assert(kept[j] == p);
                        } else {
                            assert(b.queue[i] == p);
                        }
                    }
                }
            }
        }
    } else {
        if let Some(after) = resolve(b, kept, i, target, id) {
            assert forall|k: int| 0 <= k < after.queue.len() implies kept.contains(
                #[trigger] after.queue[k],
            ) by {
                assert(kept[k] == after.queue[k]);
            }
        }
    }
}

/// The courses of a catalogue make no edge wait but for a course that
/// their requirements name.
proof fn lemma_add_courses_named(b: Build, cat: Seq<CourseView>, i: int)
    requires
        0 <= i,
    ensures
        add_courses(b, cat, i) matches Some(after) ==> forall|k: int|
            0 <= k < after.queue.len() ==> b.queue.contains(#[trigger] after.queue[k]) || mentioned(
                cat,
                after.queue[k].target,
            ),
    decreases cat.len() - i,
{
    if i < cat.len() {
        let c = cat[i];
        let node = b.nodes.len() as int;
        if let Some(b3) = add_course(b, c) {
            let b1 = with_node(b, course_node(c)).unwrap();
            let b2 = resolve(b1, Seq::empty(), 0, node, c.id).unwrap();
            lemma_resolve_named(b1, Seq::empty(), 0, node, c.id);
            if let Some(req) = c.requirements {
                lemma_descend_named(b2, node, req);
            }
            lemma_add_courses_named(b3, cat, i + 1);
            if let Some(after) = add_courses(b3, cat, i + 1) {
                assert forall|k: int| 0 <= k < after.queue.len() implies b.queue.contains(
                    #[trigger] after.queue[k],
                ) || mentioned(cat, after.queue[k].target) by {
                    let p = after.queue[k];
                    if b3.queue.contains(p) {
                        let j = choose|j: int| 0 <= j < b3.queue.len() && b3.queue[j] == p;
                        if c.requirements is Some {
                            if b2.queue.contains(b3.queue[j]) {
                                let m = choose|m: int| 0 <= m < b2.queue.len() && b2.queue[m] == p;
                                assert(b1.queue.contains(b2.queue[m]));
                            } else {
                                assert(names(c.requirements.unwrap(), p.target));
                                assert(cat[i].requirements is Some);
                            }
                        } else {
                            assert(b1.queue.contains(b2.queue[j]));
                        }
                    }
                }
            }
        }
    } else {
        if let Some(after) = add_courses(b, cat, i) {
            assert forall|k: int| 0 <= k < after.queue.len() implies b.queue.contains(
                #[trigger] after.queue[k],
            ) by {}
        }
    }
}

/// The course that a failed build names as unknown is one that a
/// requirement of the catalogue names and that the catalogue does not
/// list. So a catalogue that lists every course that its requirements
/// name has a graph, unless the graph would be too large.
pub proof fn lemma_unknown_course(catalog: Seq<CourseView>)
    ensures
        build(catalog) matches Err(BuildErrorView::UnknownCourse(id)) ==> mentioned(catalog, id)
            && !has_id(catalog, id),
        (forall|id: CourseIdView| #[trigger] mentioned(catalog, id) ==> has_id(catalog, id))
            ==> build(catalog) is Ok || build(catalog) == Err::<Build, BuildErrorView>(
            BuildErrorView::TooLarge,
        ),
{
    let start = Build { nodes: Seq::empty(), edges: Seq::empty(), queue: Seq::empty() };
    let cat = canonical(catalog);
    lemma_build_nodes(catalog);
    lemma_add_courses_named(start, cat, 0);
    if let Some(b) = add_courses(start, cat, 0) {
        if b.queue.len() > 0 {
            let id = b.queue[0].target;
            assert(!start.queue.contains(b.queue[0]));
            assert(mentioned(cat, id));
            let m = choose|m: int|
                0 <= m < cat.len() && (#[trigger] cat[m]).requirements is Some && names(
                    cat[m].requirements.unwrap(),
                    id,
                );
            lemma_canonical_first(catalog, m);
            let i = choose|i: int| crate::catalog::first_with_id(catalog, i) && catalog[i] == cat[m];
            assert(catalog[i].requirements is Some);
            assert(mentioned(catalog, id));
        }
    }
}

/// The course nodes of the graph of a catalogue are the courses of its
/// canonical form, in order: one node for each identifier that the
/// catalogue lists. And the course that a failed build names as unknown
/// is none that the catalogue lists.
pub proof fn lemma_build_nodes(catalog: Seq<CourseView>)
    ensures
        build(catalog) matches Ok(b) ==> course_ids(b.nodes) == ids_of(canonical(catalog)),
        build(catalog) matches Err(BuildErrorView::UnknownCourse(id)) ==> !has_id(catalog, id),
{
    let start = Build { nodes: Seq::empty(), edges: Seq::empty(), queue: Seq::empty() };
    let cat = canonical(catalog);
    lemma_add_courses(start, cat, 0);
    if let Some(b) = add_courses(start, cat, 0) {
        assert(cat.skip(0) =~= cat);
        assert(course_ids(start.nodes) + ids_of(cat) =~= ids_of(cat));
        if b.queue.len() > 0 {
            let id = b.queue[0].target;
            lemma_find_none_ids(b.nodes, id);
            if has_id(catalog, id) {
                let i = choose|i: int| 0 <= i < catalog.len() && (#[trigger] catalog[i]).id == id;
                lemma_canonical_complete(catalog, i);
                let k = choose|k: int| 0 <= k < cat.len() && (#[trigger] cat[k]).id == id;
                assert(ids_of(cat)[k] == id);
            }
        }
    }
}

/// In a list whose course nodes have different identifiers, two nodes
/// that are one course are the same node.
proof fn lemma_same_node(nodes: Seq<NodeView>, m: int, n: int, id: CourseIdView)
    requires
        0 <= m <= n < nodes.len(),
        nodes[m].has_id(id),
        nodes[n].has_id(id),
        forall|i: int, j: int|
            0 <= i < j < course_ids(nodes).len() ==> course_ids(nodes)[i] != course_ids(nodes)[j],
    ensures
        m == n,
    decreases nodes.len(),
{
    let head = nodes.drop_last();
    let ids = course_ids(nodes);
    if m < n {
        if n == nodes.len() - 1 {
            lemma_find_none_ids(head, id);
            lemma_find_node(head, id, 0);
            assert(head[m] == nodes[m]);
            let k = choose|k: int| 0 <= k < course_ids(head).len() && course_ids(head)[k] == id;
            assert(ids[k] == id);
            assert(ids[ids.len() - 1] == id);
        } else {
            assert(head[m] == nodes[m] && head[n] == nodes[n]);
            assert forall|i: int, j: int| 0 <= i < j < course_ids(head).len() implies course_ids(
                head,
            )[i] != course_ids(head)[j] by {
                assert(ids[i] == course_ids(head)[i]);
                assert(ids[j] == course_ids(head)[j]);
            }
            lemma_same_node(head, m, n, id);
        }
    }
}

/// The graph of a catalogue holds exactly one node for each course that
/// the catalogue lists.
pub proof fn lemma_one_node_per_course(catalog: Seq<CourseView>, i: int)
    requires
        build(catalog) is Ok,
        0 <= i < catalog.len(),
    ensures
        exists|m: int|
            0 <= m < build(catalog)->Ok_0.nodes.len() && (#[trigger] build(catalog)->Ok_0.nodes[m]).has_id(
                catalog[i].id,
            ),
        forall|m: int, n: int|
            0 <= m < n < build(catalog)->Ok_0.nodes.len() ==> !((#[trigger] build(
                catalog,
            )->Ok_0.nodes[m]).has_id(catalog[i].id) && (#[trigger] build(
                catalog,
            )->Ok_0.nodes[n]).has_id(catalog[i].id)),
{
    let b = build(catalog)->Ok_0;
    let cat = canonical(catalog);
    let id = catalog[i].id;
    lemma_build_nodes(catalog);
    lemma_canonical_complete(catalog, i);
    lemma_canonical_sorted(catalog);
    let k = choose|k: int| 0 <= k < cat.len() && (#[trigger] cat[k]).id == id;
    assert(ids_of(cat)[k] == id);
    lemma_find_none_ids(b.nodes, id);
    lemma_find_node(b.nodes, id, 0);
    let found = find_node(b.nodes, id, 0).unwrap();
    assert(b.nodes[found].has_id(id));
    assert forall|p: int, q: int| 0 <= p < q < course_ids(b.nodes).len() implies course_ids(
        b.nodes,
    )[p] != course_ids(b.nodes)[q] by {
        assert(id_lt(cat[p].id, cat[q].id));
        lemma_id_lt_trichotomy(cat[p].id, cat[q].id);
    }
    assert forall|m: int, n: int| 0 <= m < n < b.nodes.len() implies !((#[trigger] b.nodes[m]).has_id(
        id,
    ) && (#[trigger] b.nodes[n]).has_id(id)) by {
        if b.nodes[m].has_id(id) && b.nodes[n].has_id(id) {
            lemma_same_node(b.nodes, m, n, id);
        }
    }
}

} // verus!
