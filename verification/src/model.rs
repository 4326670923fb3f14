//! The node and graph data model: ports, nodes, constants, values, and the
//! process-wide pool of arenas, together with the structural edit
//! operations. Structural violations (wrong port direction, a stale index,
//! a port of another scope, a would-be cycle) are rejected atomically with
//! the pool unchanged; a type error on an edge is recorded on that edge and
//! never rolls the connection back.

use vstd::prelude::*;
use crate::arena::AritiedTypeIdx;
use crate::arena::ConstIdx;
use crate::arena::DateTimeIdx;
use crate::arena::FnIdx;
use crate::arena::Idx;
use crate::arena::InputPortIdx;
use crate::arena::NodeIdx;
use crate::arena::NodeInstIdx;
use crate::arena::NodeNameIdx;
use crate::arena::OutputPortIdx;
use crate::arena::PortAndNodeGraphIdx;
use crate::arena::SetIdx;
use crate::arena::SignatureIdx;
use crate::arena::StreamIdx;
use crate::arena::StringIdx;
use crate::arena::TypeIdx;
use crate::arena::VecIdx;
use crate::arity::AritiedType;
use crate::arity::Signature;
use crate::graph::PortAndNodeGraph;
use crate::graph::StructuralError;
use crate::graph::graph_edges;
use crate::graph::graph_nodes;
use crate::types::TypeRegistry;

verus! {

/// Append-only backing store for date-time entities. The stored values are
/// `chrono::DateTime<chrono::Utc>`; the model reads and writes them as
/// plain (seconds, nanoseconds) timestamps, and the chrono value itself is
/// kept for the (out-of-scope) editor and evaluator.
#[verifier::external_body]
pub struct DateTimeArena {
    store: Vec<chrono::DateTime<chrono::Utc>>,
}

/// The stored date-times as (non-leap seconds, subsecond nanoseconds) since
/// the epoch, in insertion order.
pub uninterp spec fn datetime_entries(a: DateTimeArena) -> Seq<(i64, u32)>;

impl DateTimeArena {
    /// An empty date-time arena.
    #[verifier::external_body]
    pub fn new() -> (r: DateTimeArena)
        ensures
            datetime_entries(r).len() == 0,
    {
        DateTimeArena { store: Vec::new() }
    }

    /// Relies on `chrono::DateTime::from_timestamp`: builds the date-time
    /// for a (seconds, nanoseconds) timestamp, or `None` when the timestamp
    /// lies outside chrono's representable range; whether the pair is in
    /// range is chrono's decision, so this contract only ties success to
    /// the append.
    #[verifier::external_body]
    pub fn push_timestamp(&mut self, secs: i64, nanos: u32) -> (r: bool)
        ensures
            r ==> datetime_entries(*final(self)) == datetime_entries(*old(self)).push(
                (secs, nanos),
            ),
            !r ==> *final(self) == *old(self),
    {
        match chrono::DateTime::from_timestamp(secs, nanos) {
            Some(dt) => {
                self.store.push(dt);
                true
            },
            None => false,
        }
    }

    /// Relies on `chrono::DateTime::timestamp` and
    /// `chrono::DateTime::timestamp_subsec_nanos`: reads back the stored
    /// entry as the timestamp it was built from.
    #[verifier::external_body]
    pub fn get_timestamp(&self, i: usize) -> (r: Option<(i64, u32)>)
        ensures
            r == if (i as int) < datetime_entries(*self).len() {
                Some(datetime_entries(*self)[i as int])
            } else {
                None::<(i64, u32)>
            },
    {
        match self.store.get(i) {
            Some(dt) => Some((dt.timestamp(), dt.timestamp_subsec_nanos())),
            None => None,
        }
    }

    /// How many date-times are stored.
    #[verifier::external_body]
    pub fn count(&self) -> (r: usize)
        ensures
            r == datetime_entries(*self).len(),
    {
        self.store.len()
    }
}

/// A connection endpoint named by direction.
#[derive(Clone, Copy, Debug, PartialEq, Eq, Structural)]
pub enum Port {
    /// A consumer endpoint: position in the input-port arena.
    InputPort(usize),
    /// A producer endpoint: position in the output-port arena.
    OutputPort(usize),
}

/// A consumer endpoint.
#[derive(Clone, Copy, Debug, PartialEq)]
pub struct InputPort {
    /// The node that owns this port.
    pub owned_by: Idx<NodeIdx>,
    /// The resolved arity-wrapped type, if any; `None` is the unbound error
    /// state, reported, never silently defaulted.
    pub aritied_type: Option<Idx<AritiedTypeIdx>>,
    /// Whether the port belongs to the owning node's lambda body, which is
    /// how a capture is told apart from an ordinary connection.
    pub belongs_to_lambda: bool,
    /// The scope whose graphs this port lives in.
    pub scope: usize,
    /// The vertex of this port in its scope's port graph.
    pub vertex: usize,
}

/// A producer endpoint.
#[derive(Clone, Copy, Debug, PartialEq)]
pub struct OutputPort {
    /// The node that owns this port.
    pub owned_by: Idx<NodeIdx>,
    /// The produced type, if resolved; `None` is the unbound error state.
    pub aritied_type: Option<Idx<TypeIdx>>,
    /// Whether the port belongs to the owning node's lambda body.
    pub belongs_to_lambda: bool,
    /// The scope whose graphs this port lives in.
    pub scope: usize,
    /// The vertex of this port in its scope's port graph.
    pub vertex: usize,
}

/// Left or right of a two-way choice.
#[derive(Clone, Copy, Debug, PartialEq, Eq, Structural)]
pub enum Either<T> {
    Left(T),
    Right(T),
}

/// A literal, tagged like `Type`; composites hold runs of constant arena
/// positions. A float literal is kept as its raw bit pattern: the model
/// stores and moves such values, it never computes with them.
#[derive(Clone, Copy, Debug, PartialEq)]
pub enum Const {
    Str(Idx<StringIdx<ConstIdx>>),
    Int(i64),
    Float(u64),
    DateTime(Idx<DateTimeIdx<ConstIdx>>),
    Vect(VecIdx<ConstIdx>),
    Covec(VecIdx<ConstIdx>),
    Matrix(VecIdx<ConstIdx>, usize, usize),
    Tuple(VecIdx<ConstIdx>),
    Opt(Option<Idx<ConstIdx>>),
    EitherOf(Either<Idx<ConstIdx>>),
}

/// A runtime datum, tagged like `Type`. Date-times sit in the pool's
/// date-time arena; streams are named by index and owned by the
/// (out-of-scope) evaluator.
#[derive(Clone, Copy, Debug, PartialEq)]
pub enum Value {
    Str(Idx<StringIdx<ValueMark>>),
    Int(i64),
    Float(u64),
    DateTime(Idx<DateTimeIdx<ValueMark>>),
    Vect(VecIdx<ValueMark>),
    Covec(VecIdx<ValueMark>),
    Matrix(VecIdx<ValueMark>, usize, usize),
    Stream(Idx<StreamIdx>),
    Tuple(VecIdx<ValueMark>),
    Opt(Option<Idx<ValueMark>>),
    EitherOf(Either<Idx<ValueMark>>),
}

/// Tag for indices into the value arena.
#[derive(Clone, Copy, Debug, PartialEq, Eq)]
pub struct ValueMark;

/// A nested sub-graph attached to a node: its own port ranges, signature
/// set, and the scope holding its body.
#[derive(Clone, Copy, Debug)]
pub struct LambdaParams {
    /// The lambda's own input ports.
    pub inputs: VecIdx<InputPortIdx>,
    /// The lambda's own output ports.
    pub outputs: VecIdx<OutputPortIdx>,
    /// The lambda's signature run, if declared.
    pub signature: Option<VecIdx<SignatureIdx>>,
    /// The scope holding the lambda's body graph.
    pub lambda_graph: Option<Idx<PortAndNodeGraphIdx>>,
}

/// A graph vertex: an operation template or instance site.
pub struct Node {
    /// Identity.
    pub id: Idx<NodeIdx>,
    /// Display name, in the name arena.
    pub name: Idx<NodeNameIdx>,
    /// The candidate overload set.
    pub signature: Option<SetIdx<SignatureIdx>>,
    /// Attached constants.
    pub consts: Option<VecIdx<ConstIdx>>,
    /// Input port run.
    pub inputs: Option<VecIdx<InputPortIdx>>,
    /// Output port run.
    pub outputs: Option<VecIdx<OutputPortIdx>>,
    /// Bound function reference, dispatched by the (out-of-scope)
    /// evaluator.
    pub fun: Option<Idx<FnIdx>>,
    /// Nested sub-graph, if the node declares one.
    pub lambda: Option<LambdaParams>,
    /// The signature resolution picked for the current inputs, if exactly
    /// one candidate matched; `None` while unresolved or ambiguous.
    pub resolved: Option<Idx<SignatureIdx>>,
    /// The scope this node lives in.
    pub scope: usize,
    /// The vertex of this node in its scope's node graph.
    pub vertex: usize,
    /// False once the node is tombstoned; the arena entry stays so that
    /// outstanding indices remain valid.
    pub alive: bool,
}

/// An instantiated node with all ranges bound.
pub struct NodeInst {
    pub id: Idx<NodeInstIdx>,
    pub name: Idx<NodeNameIdx>,
    pub signature: SetIdx<SignatureIdx>,
    pub consts: VecIdx<ConstIdx>,
    pub inputs: VecIdx<InputPortIdx>,
    pub outputs: VecIdx<OutputPortIdx>,
    pub fun: Idx<FnIdx>,
    pub lambda: Option<LambdaParams>,
}

/// The evaluator's environment; the evaluation loop itself is outside this
/// model.
pub struct Env {}

/// One connection between ports, with its attached type-error state. The
/// connection itself stays even when unification failed; the flag marks the
/// edge until the user disconnects or an upstream type changes.
#[derive(Clone, Copy, Debug, PartialEq)]
pub struct EdgeRec {
    /// The scope of the connection.
    pub scope: usize,
    /// The producer, in the output-port arena.
    pub out_port: usize,
    /// The consumer, in the input-port arena.
    pub in_port: usize,
    /// Whether unification of the two port types failed.
    pub type_error: bool,
    /// Whether the connection has been removed again.
    pub removed: bool,
    /// While the connection is live: its edge index in the scope's two
    /// graphs. A removal swaps the scope's highest-indexed edge into the
    /// freed place, and the record that named it is retargeted.
    pub gindex: usize,
}

/// The process-wide store: one append-only arena per entity kind, the type
/// registry, and the scope graphs (scope zero is the top level; each lambda
/// body is a scope of its own whose indices no sibling can address).
pub struct Pool {
    /// The type registry (type arena plus variable counter).
    pub registry: TypeRegistry,
    /// The arity-wrapped type arena.
    pub aritied_types: Vec<AritiedType>,
    /// The node arena.
    pub nodes: Vec<Node>,
    /// The name arena.
    pub names: Vec<String>,
    /// The signature arena.
    pub signature: Vec<Signature>,
    /// How many function references have been handed out; the callables
    /// they name live with the (out-of-scope) evaluator.
    pub fn_count: usize,
    /// The input-port arena.
    pub inputs: Vec<InputPort>,
    /// The output-port arena.
    pub outputs: Vec<OutputPort>,
    /// The node-instance arena.
    pub instants: Vec<NodeInst>,
    /// Backing arena for string constants.
    pub const_strings: Vec<String>,
    /// Backing arena for date-time constants.
    pub const_datetime: DateTimeArena,
    /// The constant arena.
    pub consts: Vec<Const>,
    /// Backing arena for string values.
    pub value_strings: Vec<String>,
    /// Backing arena for date-time values.
    pub value_datetime: DateTimeArena,
    /// The value arena.
    pub values: Vec<Value>,
    /// How many streams have been named; their items flow through the
    /// (out-of-scope) evaluator.
    pub stream_count: usize,
    /// One dual graph per scope.
    pub scopes: Vec<PortAndNodeGraph>,
    /// The chain of entered lambda scopes; empty means the top level. Each
    /// entry is a scope position, innermost last.
    pub scope_path: Vec<usize>,
    /// All connections ever made, append-only; removal tombstones.
    pub edges: Vec<EdgeRec>,
}

impl Pool {
    /// The pool invariant: the registry is well formed, every scope's dual
    /// graph is well formed (in particular acyclic), and every port names a
    /// live scope, a vertex of that scope's port graph, and an in-bounds
    /// type.
    pub open spec fn wf(self) -> bool {
        &&& self.scopes@.len() >= 1
        &&& self.registry.wf()
        &&& forall|s: int| 0 <= s < self.scopes@.len() ==> (#[trigger] self.scopes@[s]).wf()
        &&& forall|i: int|
            0 <= i < self.inputs@.len() ==> {
                let p = #[trigger] self.inputs@[i];
                &&& p.scope < self.scopes@.len()
                &&& (p.vertex as int) < graph_nodes(self.scopes@[p.scope as int].port_graph).len()
                &&& (p.owned_by.0 as int) < self.nodes@.len()
                &&& self.nodes@[p.owned_by.0 as int].scope == p.scope
                &&& (p.aritied_type matches Some(t) ==> (t.0 as int) < self.aritied_types@.len())
            }
        &&& forall|i: int|
            0 <= i < self.outputs@.len() ==> {
                let p = #[trigger] self.outputs@[i];
                &&& p.scope < self.scopes@.len()
                &&& (p.vertex as int) < graph_nodes(self.scopes@[p.scope as int].port_graph).len()
                &&& (p.owned_by.0 as int) < self.nodes@.len()
                &&& self.nodes@[p.owned_by.0 as int].scope == p.scope
                &&& (p.aritied_type matches Some(t) ==> (t.0 as int)
                    < self.registry.types@.len())
            }
        &&& forall|i: int|
            0 <= i < self.nodes@.len() ==> {
                let n = #[trigger] self.nodes@[i];
                &&& n.scope < self.scopes@.len()
                &&& (n.vertex as int) < graph_nodes(self.scopes@[n.scope as int].node_graph).len()
                &&& (n.inputs matches Some(run) ==> (run.start as int) + (run.count as int)
                    <= self.inputs@.len())
                &&& (n.outputs matches Some(run) ==> (run.start as int) + (run.count as int)
                    <= self.outputs@.len())
                &&& (n.signature matches Some(run) ==> (run.start as int) + (run.count as int)
                    <= self.signature@.len())
            }
        &&& forall|i: int|
            0 <= i < self.aritied_types@.len() ==> (crate::arity::at_type(
                #[trigger] self.aritied_types@[i],
            ) as int) < self.registry.types@.len()
        &&& forall|i: int|
            0 <= i < self.scope_path@.len() ==> ((#[trigger] self.scope_path@[i]) as int)
                < self.scopes@.len()
        &&& forall|i: int|
            0 <= i < self.signature@.len() ==> crate::arity::ats_in_bounds(
                self.aritied_types@,
                (#[trigger] crate::arity::sig_run(self.signature@, i)).0,
                crate::arity::sig_run(self.signature@, i).1,
                self.registry.types@.len() as int,
            )
        &&& forall|i: int|
            0 <= i < self.signature@.len() ==> ((#[trigger] self.signature@[i]).output.start
                as int) + (self.signature@[i].output.count as int) <= self.registry.types@.len()
        &&& forall|e: int|
            0 <= e < self.edges@.len() && !(#[trigger] self.edges@[e]).removed ==> {
                &&& self.edges@[e].scope < self.scopes@.len()
                &&& (self.edges@[e].gindex as int) < graph_edges(
                    self.scopes@[self.edges@[e].scope as int].node_graph,
                ).len()
            }
        &&& forall|e1: int, e2: int|
            0 <= e1 < e2 < self.edges@.len() && !(#[trigger] self.edges@[e1]).removed && !(
            #[trigger] self.edges@[e2]).removed && self.edges@[e1].scope == self.edges@[e2].scope
                ==> self.edges@[e1].gindex != self.edges@[e2].gindex
    }

    /// An empty pool with the top-level scope.
    pub fn new() -> (r: Pool)
        ensures
            r.wf(),
            r.nodes@.len() == 0,
            r.inputs@.len() == 0,
            r.outputs@.len() == 0,
            r.edges@.len() == 0,
            r.scopes@.len() == 1,
            r.scope_path@.len() == 0,
            graph_edges(r.scopes@[0].node_graph).len() == 0,
            graph_edges(r.scopes@[0].port_graph).len() == 0,
            graph_nodes(r.scopes@[0].node_graph).len() == 0,
            graph_nodes(r.scopes@[0].port_graph).len() == 0,
            r.signature@.len() == 0,
            r.aritied_types@.len() == 0,
            r.registry.types@.len() == 0,
            r.registry.var_count == 0,
            r.names@.len() == 0,
    {
        let mut scopes: Vec<PortAndNodeGraph> = Vec::new();
        scopes.push(PortAndNodeGraph::new());
        Pool {
            registry: TypeRegistry::new(),
            aritied_types: Vec::new(),
            nodes: Vec::new(),
            names: Vec::new(),
            signature: Vec::new(),
            fn_count: 0,
            inputs: Vec::new(),
            outputs: Vec::new(),
            instants: Vec::new(),
            const_strings: Vec::new(),
            const_datetime: DateTimeArena::new(),
            consts: Vec::new(),
            value_strings: Vec::new(),
            value_datetime: DateTimeArena::new(),
            values: Vec::new(),
            stream_count: 0,
            scopes,
            scope_path: Vec::new(),
            edges: Vec::new(),
        }
    }

    /// Open a new scope (a lambda body); returns its position. The new
    /// scope's indices are its own: nothing outside it can name them.
    pub fn add_scope(&mut self) -> (r: usize)
        requires
            old(self).wf(),
        ensures
            final(self).wf(),
            final(self).scopes@.len() == old(self).scopes@.len() + 1,
            r == old(self).scopes@.len(),
            final(self).nodes@ == old(self).nodes@,
            final(self).inputs@ == old(self).inputs@,
            final(self).outputs@ == old(self).outputs@,
            final(self).edges@ == old(self).edges@,
    {
        let pos = self.scopes.len();
        self.scopes.push(PortAndNodeGraph::new());
        proof {
            assert forall|s: int| 0 <= s < self.scopes@.len() implies (
            #[trigger] self.scopes@[s]).wf() by {
                if s < old(self).scopes@.len() {
                    assert(old(self).scopes@[s].wf());
                }
            }
        }
        pos
    }
}

impl Pool {
    /// Intern a display name; returns its arena position.
    pub fn add_name(&mut self, s: String) -> (r: usize)
        requires
            old(self).wf(),
        ensures
            final(self).wf(),
            final(self).names@ == old(self).names@.push(s),
            r == old(self).names@.len(),
            final(self).nodes@ == old(self).nodes@,
            final(self).inputs@ == old(self).inputs@,
            final(self).outputs@ == old(self).outputs@,
            final(self).scopes@ == old(self).scopes@,
            final(self).signature@ == old(self).signature@,
            final(self).aritied_types@ == old(self).aritied_types@,
            final(self).registry == old(self).registry,
    {
        let pos = self.names.len();
        self.names.push(s);
        pos
    }

    /// Append an arity-wrapped type whose payload type already exists.
    pub fn add_aritied_type(&mut self, at: AritiedType) -> (r: usize)
        requires
            old(self).wf(),
            (crate::arity::at_type(at) as int) < old(self).registry.types@.len(),
        ensures
            final(self).wf(),
            final(self).aritied_types@ == old(self).aritied_types@.push(at),
            r == old(self).aritied_types@.len(),
            final(self).nodes@ == old(self).nodes@,
            final(self).inputs@ == old(self).inputs@,
            final(self).outputs@ == old(self).outputs@,
            final(self).scopes@ == old(self).scopes@,
            final(self).signature@ == old(self).signature@,
            final(self).registry == old(self).registry,
    {
        let pos = self.aritied_types.len();
        self.aritied_types.push(at);
        proof {
            assert forall|i: int| 0 <= i < self.signature@.len() implies crate::arity::ats_in_bounds(
                self.aritied_types@,
                (#[trigger] crate::arity::sig_run(self.signature@, i)).0,
                crate::arity::sig_run(self.signature@, i).1,
                self.registry.types@.len() as int,
            ) by {
                assert(crate::arity::ats_in_bounds(
                    old(self).aritied_types@,
                    crate::arity::sig_run(self.signature@, i).0,
                    crate::arity::sig_run(self.signature@, i).1,
                    self.registry.types@.len() as int,
                ));
            }
        }
        pos
    }

    /// Register an overload whose input run and output run already lie in
    /// their arenas.
    pub fn add_signature(&mut self, sig: Signature) -> (r: usize)
        requires
            old(self).wf(),
            (match sig.input {
                crate::arena::ManyIdx::VecIdx(run) => (run.start as int) + (run.count as int)
                    <= old(self).aritied_types@.len(),
                crate::arena::ManyIdx::SetIdx(run) => (run.start as int) + (run.count as int)
                    <= old(self).aritied_types@.len(),
            }),
            (sig.output.start as int) + (sig.output.count as int) <= old(
                self,
            ).registry.types@.len(),
        ensures
            final(self).wf(),
            final(self).signature@ == old(self).signature@.push(sig),
            r == old(self).signature@.len(),
            final(self).nodes@ == old(self).nodes@,
            final(self).inputs@ == old(self).inputs@,
            final(self).outputs@ == old(self).outputs@,
            final(self).scopes@ == old(self).scopes@,
            final(self).aritied_types@ == old(self).aritied_types@,
            final(self).registry == old(self).registry,
    {
        let pos = self.signature.len();
        self.signature.push(sig);
        proof {
            assert forall|i: int| 0 <= i < self.signature@.len() implies crate::arity::ats_in_bounds(
                self.aritied_types@,
                (#[trigger] crate::arity::sig_run(self.signature@, i)).0,
                crate::arity::sig_run(self.signature@, i).1,
                self.registry.types@.len() as int,
            ) by {
                if i < old(self).signature@.len() {
                    assert(crate::arity::ats_in_bounds(
                        self.aritied_types@,
                        crate::arity::sig_run(old(self).signature@, i).0,
                        crate::arity::sig_run(old(self).signature@, i).1,
                        self.registry.types@.len() as int,
                    ));
                }
            }
        }
        pos
    }

    /// Add a node to a scope, creating its input and output ports and their
    /// vertices. Index stability: nothing already stored moves.
    pub fn add_node(
        &mut self,
        scope: usize,
        name: Idx<NodeNameIdx>,
        n_inputs: usize,
        n_outputs: usize,
        sigs: Option<SetIdx<SignatureIdx>>,
    ) -> (r: Result<usize, StructuralError>)
        requires
            old(self).wf(),
            (match sigs {
                Some(run) => (run.start as int) + (run.count as int) <= old(
                    self,
                ).signature@.len(),
                None => true,
            }),
        ensures
            final(self).wf(),
            (r matches Err(e) ==> e == StructuralError::StaleIndex && *final(self) == *old(self)),
            ((scope as int) < old(self).scopes@.len() && graph_nodes(
                old(self).scopes@[scope as int].node_graph,
            ).len() < 0xffff_fffe && graph_nodes(old(self).scopes@[scope as int].port_graph).len()
                < 0xffff_fffe && n_inputs < 0x7fff_0000 && n_outputs < 0x7fff_0000 && graph_nodes(
                old(self).scopes@[scope as int].port_graph,
            ).len() < 0xffff_fffe - n_inputs - n_outputs ==> r is Ok),
            (r matches Ok(n) ==> {
                &&& n == old(self).nodes@.len()
                &&& final(self).nodes@.len() == old(self).nodes@.len() + 1
                &&& final(self).inputs@.len() == old(self).inputs@.len() + n_inputs
                &&& final(self).outputs@.len() == old(self).outputs@.len() + n_outputs
                &&& (forall|j: int|
                    0 <= j < old(self).nodes@.len() ==> final(self).nodes@[j] == old(
                        self,
                    ).nodes@[j])
                &&& (forall|j: int|
                    0 <= j < old(self).inputs@.len() ==> final(self).inputs@[j] == old(
                        self,
                    ).inputs@[j])
                &&& (forall|j: int|
                    0 <= j < old(self).outputs@.len() ==> final(self).outputs@[j] == old(
                        self,
                    ).outputs@[j])
                &&& final(self).nodes@[n as int].scope == scope
                &&& final(self).nodes@[n as int].signature == sigs
                &&& final(self).nodes@[n as int].alive
                &&& final(self).nodes@[n as int].resolved is None
                &&& final(self).nodes@[n as int].inputs == Some(
                    VecIdx::<InputPortIdx> {
                        start: old(self).inputs@.len() as usize,
                        count: n_inputs,
                        _phantom: core::marker::PhantomData,
                    },
                )
                &&& final(self).nodes@[n as int].outputs == Some(
                    VecIdx::<OutputPortIdx> {
                        start: old(self).outputs@.len() as usize,
                        count: n_outputs,
                        _phantom: core::marker::PhantomData,
                    },
                )
                &&& (forall|j: int|
                    old(self).inputs@.len() <= j < final(self).inputs@.len() ==> {
                        &&& (#[trigger] final(self).inputs@[j]).owned_by.0 == old(
                            self,
                        ).nodes@.len()
                        &&& final(self).inputs@[j].scope == scope
                        &&& final(self).inputs@[j].aritied_type is None
                        &&& !final(self).inputs@[j].belongs_to_lambda
                    })
                &&& (forall|j: int|
                    old(self).outputs@.len() <= j < final(self).outputs@.len() ==> {
                        &&& (#[trigger] final(self).outputs@[j]).owned_by.0 == old(
                            self,
                        ).nodes@.len()
                        &&& final(self).outputs@[j].scope == scope
                        &&& final(self).outputs@[j].aritied_type is None
                        &&& !final(self).outputs@[j].belongs_to_lambda
                    })
                &&& final(self).edges@ == old(self).edges@
                &&& final(self).registry == old(self).registry
                &&& final(self).aritied_types@ == old(self).aritied_types@
                &&& final(self).signature@ == old(self).signature@
                &&& final(self).names@ == old(self).names@
                &&& final(self).consts@ == old(self).consts@
                &&& final(self).scope_path@ == old(self).scope_path@
                &&& final(self).scopes@.len() == old(self).scopes@.len()
            }),
    {
        if scope >= self.scopes.len() {
            return Err(StructuralError::StaleIndex);
        }
        let nc = self.scopes[scope].node_count();
        let pc = self.scopes[scope].port_count();
        if nc >= 0xffff_fffeusize || pc >= 0xffff_fffeusize || n_inputs >= 0x7fff_0000usize
            || n_outputs >= 0x7fff_0000usize || 0xffff_fffeusize - n_inputs - n_outputs <= pc {
            return Err(StructuralError::StaleIndex);
        }
        let node_pos = self.nodes.len();
        let vertex = self.scopes[scope].add_node_vertex(node_pos as u64);
        let in_start = self.inputs.len();
        let mut k: usize = 0;
        while k < n_inputs
            invariant
                self.wf_ports_pending(*old(self), scope, node_pos as int),
                scope < self.scopes@.len(),
                node_pos == old(self).nodes@.len(),
                k <= n_inputs,
                in_start == old(self).inputs@.len(),
                self.inputs@.len() == in_start + k,
                self.outputs@ == old(self).outputs@,
                graph_nodes(self.scopes@[scope as int].port_graph).len() < 0xffff_ffff - (n_inputs
                - k) - n_outputs,
                graph_nodes(self.scopes@[scope as int].node_graph).len() == graph_nodes(
                    old(self).scopes@[scope as int].node_graph,
                ).len() + 1,
                (forall|j: int|
                    in_start <= j < self.inputs@.len() ==> {
                        &&& (#[trigger] self.inputs@[j]).owned_by.0 == node_pos
                        &&& self.inputs@[j].scope == scope
                        &&& self.inputs@[j].aritied_type is None
                        &&& !self.inputs@[j].belongs_to_lambda
                        &&& (self.inputs@[j].vertex as int) < graph_nodes(
                            self.scopes@[scope as int].port_graph,
                        ).len()
                    }),
            decreases n_inputs - k,
        {
            let vx = self.scopes[scope].add_port_vertex(k as u64);
            self.inputs.push(
                InputPort {
                    owned_by: Idx::new(node_pos),
                    aritied_type: None,
                    belongs_to_lambda: false,
                    scope,
                    vertex: vx,
                },
            );
            k = k + 1;
        }
        let out_start = self.outputs.len();
        let mut k2: usize = 0;
        while k2 < n_outputs
            invariant
                self.wf_ports_pending(*old(self), scope, node_pos as int),
                scope < self.scopes@.len(),
                node_pos == old(self).nodes@.len(),
                k2 <= n_outputs,
                in_start == old(self).inputs@.len(),
                out_start == old(self).outputs@.len(),
                self.inputs@.len() == in_start + n_inputs,
                self.outputs@.len() == out_start + k2,
                graph_nodes(self.scopes@[scope as int].port_graph).len() < 0xffff_ffff - (
                n_outputs - k2),
                graph_nodes(self.scopes@[scope as int].node_graph).len() == graph_nodes(
                    old(self).scopes@[scope as int].node_graph,
                ).len() + 1,
                (forall|j: int|
                    in_start <= j < self.inputs@.len() ==> {
                        &&& (#[trigger] self.inputs@[j]).owned_by.0 == node_pos
                        &&& self.inputs@[j].scope == scope
                        &&& self.inputs@[j].aritied_type is None
                        &&& !self.inputs@[j].belongs_to_lambda
                        &&& (self.inputs@[j].vertex as int) < graph_nodes(
                            self.scopes@[scope as int].port_graph,
                        ).len()
                    }),
                (forall|j: int|
                    out_start <= j < self.outputs@.len() ==> {
                        &&& (#[trigger] self.outputs@[j]).owned_by.0 == node_pos
                        &&& self.outputs@[j].scope == scope
                        &&& self.outputs@[j].aritied_type is None
                        &&& !self.outputs@[j].belongs_to_lambda
                        &&& (self.outputs@[j].vertex as int) < graph_nodes(
                            self.scopes@[scope as int].port_graph,
                        ).len()
                    }),
            decreases n_outputs - k2,
        {
            let vx = self.scopes[scope].add_port_vertex(k2 as u64);
            self.outputs.push(
                OutputPort {
                    owned_by: Idx::new(node_pos),
                    aritied_type: None,
                    belongs_to_lambda: false,
                    scope,
                    vertex: vx,
                },
            );
            k2 = k2 + 1;
        }
        self.nodes.push(
            Node {
                id: Idx::new(node_pos),
                name,
                signature: sigs,
                consts: None,
                inputs: Some(
                    VecIdx::<InputPortIdx> {
                        start: in_start,
                        count: n_inputs,
                        _phantom: core::marker::PhantomData,
                    },
                ),
                outputs: Some(
                    VecIdx::<OutputPortIdx> {
                        start: out_start,
                        count: n_outputs,
                        _phantom: core::marker::PhantomData,
                    },
                ),
                fun: None,
                lambda: None,
                resolved: None,
                scope,
                vertex,
                alive: true,
            },
        );
        Ok(node_pos)
    }

    /// The parts of the pool invariant that hold while the ports of a node
    /// under construction already exist but the node record does not yet:
    /// everything except the bound on port owners, which for the new ports
    /// is the pending node position.
    pub open spec fn wf_ports_pending(self, pre: Pool, scope: usize, pending: int) -> bool {
        &&& self.registry == pre.registry
        &&& self.scope_path@ == pre.scope_path@
        &&& self.names@ == pre.names@
        &&& self.consts@ == pre.consts@
        &&& self.registry.wf()
        &&& self.nodes@ == pre.nodes@
        &&& self.signature@ == pre.signature@
        &&& self.aritied_types@ == pre.aritied_types@
        &&& self.edges@ == pre.edges@
        &&& self.scopes@.len() == pre.scopes@.len()
        &&& pending == pre.nodes@.len()
        &&& forall|s: int| 0 <= s < self.scopes@.len() ==> (#[trigger] self.scopes@[s]).wf()
        &&& forall|s: int|
            0 <= s < self.scopes@.len() && s != scope ==> #[trigger] self.scopes@[s]
                == pre.scopes@[s]
        &&& graph_nodes(self.scopes@[scope as int].port_graph).len() >= graph_nodes(
            pre.scopes@[scope as int].port_graph,
        ).len()
        &&& graph_edges(self.scopes@[scope as int].port_graph) == graph_edges(
            pre.scopes@[scope as int].port_graph,
        )
        &&& graph_edges(self.scopes@[scope as int].node_graph) == graph_edges(
            pre.scopes@[scope as int].node_graph,
        )
        &&& pre.inputs@.len() <= self.inputs@.len()
        &&& pre.outputs@.len() <= self.outputs@.len()
        &&& forall|j: int|
            0 <= j < pre.inputs@.len() ==> #[trigger] self.inputs@[j] == pre.inputs@[j]
        &&& forall|j: int|
            0 <= j < pre.outputs@.len() ==> #[trigger] self.outputs@[j] == pre.outputs@[j]
        &&& pre.wf()
    }
}

impl Pool {
    /// Connect an output port to an input port in the given scope.
    ///
    /// Structural failures are atomic, the pool is exactly as it was:
    /// `ArityDirectionError` when the producer is not an output or the
    /// consumer not an input; `StaleIndex` when either port does not exist,
    /// or lives in a different scope than the edit (a lambda body's ports
    /// cannot be addressed from outside, and the other way round);
    /// `CycleError` when the consumer's node already reaches the producer's
    /// node, so the edge would close a cycle.
    ///
    /// On success the connection is committed to both graphs. The two port
    /// types are then unified; a failure there is recorded as the edge's
    /// type-error flag and does not roll the connection back. On
    /// structurally identical concrete port types the flag is provably
    /// clear, on differing concrete port types provably set.
    pub fn connect(&mut self, scope: usize, from: Port, to: Port) -> (r: Result<
        (),
        StructuralError,
    >)
        requires
            old(self).wf(),
        ensures
            final(self).wf(),
            (!(from is OutputPort && to is InputPort) ==> r == Err::<(), StructuralError>(
                StructuralError::ArityDirectionError,
            ) && *final(self) == *old(self)),
            (r matches Err(e) ==> *final(self) == *old(self) && (e
                == StructuralError::ArityDirectionError || e == StructuralError::StaleIndex || e
                == StructuralError::CycleError)),
            (forall|o: usize, i: usize|
                from == Port::OutputPort(o) && to == Port::InputPort(i) && (o as int) < old(
                    self,
                ).outputs@.len() && (i as int) < old(self).inputs@.len() && ((
                #[trigger] old(self).outputs@[o as int]).scope != scope || (
                #[trigger] old(self).inputs@[i as int]).scope != scope) ==> r == Err::<
                    (),
                    StructuralError,
                >(StructuralError::StaleIndex)),
            ({
                let o = from->OutputPort_0;
                let i = to->InputPort_0;
                let op = old(self).outputs@[o as int];
                let ip = old(self).inputs@[i as int];
                (from is OutputPort && to is InputPort && (o as int) < old(self).outputs@.len()
                    && (i as int) < old(self).inputs@.len() && op.scope == scope && ip.scope
                    == scope && graph_edges(old(self).scopes@[scope as int].node_graph).len()
                    < 0xffff_fffe && !crate::graph::reachable(
                    graph_edges(old(self).scopes@[scope as int].node_graph),
                    old(self).nodes@[ip.owned_by.0 as int].vertex as int,
                    old(self).nodes@[op.owned_by.0 as int].vertex as int,
                )) ==> r is Ok
            }),
            (r is Ok ==> {
                let o = from->OutputPort_0;
                let i = to->InputPort_0;
                let op = old(self).outputs@[o as int];
                let ip = old(self).inputs@[i as int];
                let ovx = old(self).nodes@[op.owned_by.0 as int].vertex;
                let ivx = old(self).nodes@[ip.owned_by.0 as int].vertex;
                &&& (o as int) < old(self).outputs@.len()
                &&& (i as int) < old(self).inputs@.len()
                &&& op.scope == scope
                &&& ip.scope == scope
                &&& !crate::graph::reachable(
                    graph_edges(old(self).scopes@[scope as int].node_graph),
                    ivx as int,
                    ovx as int,
                )
                &&& graph_edges(final(self).scopes@[scope as int].node_graph) == graph_edges(
                    old(self).scopes@[scope as int].node_graph,
                ).push((ovx, ivx, op.vertex as u64, ip.vertex as u64))
                &&& crate::graph::acyclic(
                    graph_edges(final(self).scopes@[scope as int].node_graph),
                )
                &&& final(self).edges@.len() == old(self).edges@.len() + 1
                &&& final(self).edges@[old(self).edges@.len() as int].scope == scope
                &&& final(self).edges@[old(self).edges@.len() as int].out_port == o
                &&& final(self).edges@[old(self).edges@.len() as int].in_port == i
                &&& !final(self).edges@[old(self).edges@.len() as int].removed
                &&& final(self).edges@[old(self).edges@.len() as int].gindex == graph_edges(
                    old(self).scopes@[scope as int].node_graph,
                ).len()
                &&& final(self).nodes@ == old(self).nodes@
                &&& final(self).inputs@ == old(self).inputs@
                &&& final(self).outputs@ == old(self).outputs@
            }),
            (r is Ok ==> {
                let o = from->OutputPort_0;
                let i = to->InputPort_0;
                let op = old(self).outputs@[o as int];
                let ip = old(self).inputs@[i as int];
                &&& ((op.aritied_type is None || ip.aritied_type is None)
                    ==> !final(self).edges@[old(self).edges@.len() as int].type_error)
                &&& ((op.aritied_type is Some && ip.aritied_type is Some
                    && crate::types::concrete(
                    old(self).registry.types@,
                    (op.aritied_type->0).0 as int,
                ) && crate::types::concrete(
                    old(self).registry.types@,
                    crate::arity::at_type(
                        old(self).aritied_types@[(ip.aritied_type->0).0 as int],
                    ) as int,
                )) ==> (final(self).edges@[old(self).edges@.len() as int].type_error
                    == !crate::types::type_eq(
                    old(self).registry.types@,
                    (op.aritied_type->0).0 as int,
                    crate::arity::at_type(
                        old(self).aritied_types@[(ip.aritied_type->0).0 as int],
                    ) as int,
                )))
            }),
    {
        let (o, i) = match (from, to) {
            (Port::OutputPort(o), Port::InputPort(i)) => (o, i),
            _ => {
                return Err(StructuralError::ArityDirectionError);
            },
        };
        if o >= self.outputs.len() || i >= self.inputs.len() {
            return Err(StructuralError::StaleIndex);
        }
        let op = self.outputs[o];
        let ip = self.inputs[i];
        if op.scope != scope || ip.scope != scope {
            return Err(StructuralError::StaleIndex);
        }
        let gi = self.scopes[scope].edge_count();
        if gi >= 0xffff_fffeusize {
            return Err(StructuralError::StaleIndex);
        }
        let ovx = self.nodes[op.owned_by.0].vertex;
        let ivx = self.nodes[ip.owned_by.0].vertex;
        if self.scopes[scope].would_cycle(ivx, ovx) {
            return Err(StructuralError::CycleError);
        }
        match self.scopes[scope].connect_edge(op.vertex, ip.vertex, ovx, ivx) {
            Err(e) => {
                proof {
                    assert(false);
                }
                return Err(e);
            },
            Ok(()) => {},
        }
        let ghost mid = *self;
        let mut type_error = false;
        match (op.aritied_type, ip.aritied_type) {
            (Some(ot), Some(iat)) => {
                let at = self.aritied_types[iat.0];
                let it = match at {
                    AritiedType::Single(t) => t,
                    AritiedType::Many(t) => t,
                };
                match self.registry.unify(ot.0, it) {
                    Ok(_) => {},
                    Err(_) => {
                        type_error = true;
                    },
                }
            },
            _ => {},
        }
        self.edges.push(
            EdgeRec {
                scope,
                out_port: o,
                in_port: i,
                type_error,
                removed: false,
                gindex: gi,
            },
        );
        Ok(())
    }

    /// Record a capture: the lambda's input port `inner` takes its type
    /// from the declaring node's outer input port `outer` and is flagged as
    /// belonging to the lambda, so a capture is distinguishable from an
    /// ordinary connection without a second edge kind. The captured input
    /// resolves to the very same type as the outer port.
    pub fn capture_into_lambda(&mut self, outer: usize, inner: usize) -> (r: Result<
        (),
        StructuralError,
    >)
        requires
            old(self).wf(),
        ensures
            final(self).wf(),
            (r matches Err(e) ==> e == StructuralError::StaleIndex && *final(self) == *old(self)
                && ((outer as int) >= old(self).inputs@.len() || (inner as int) >= old(
                self,
            ).inputs@.len())),
            (r is Ok ==> {
                &&& (outer as int) < old(self).inputs@.len()
                &&& (inner as int) < old(self).inputs@.len()
                &&& final(self).inputs@[inner as int].aritied_type == old(
                    self,
                ).inputs@[outer as int].aritied_type
                &&& final(self).inputs@[inner as int].belongs_to_lambda
                &&& final(self).inputs@[inner as int].owned_by == old(
                    self,
                ).inputs@[inner as int].owned_by
                &&& final(self).inputs@[inner as int].scope == old(
                    self,
                ).inputs@[inner as int].scope
                &&& final(self).inputs@ == old(self).inputs@.update(
                    inner as int,
                    final(self).inputs@[inner as int],
                )
                &&& final(self).outputs@ == old(self).outputs@
                &&& final(self).nodes@ == old(self).nodes@
                &&& final(self).edges@ == old(self).edges@
                &&& final(self).scopes@ == old(self).scopes@
            }),
    {
        if outer >= self.inputs.len() || inner >= self.inputs.len() {
            return Err(StructuralError::StaleIndex);
        }
        let src = self.inputs[outer];
        let dst = self.inputs[inner];
        let rec = InputPort {
            owned_by: dst.owned_by,
            aritied_type: src.aritied_type,
            belongs_to_lambda: true,
            scope: dst.scope,
            vertex: dst.vertex,
        };
        self.inputs[inner] = rec;
        Ok(())
    }

    /// Tombstone a node: the record stays, flagged dead, so every
    /// outstanding index stays valid; nothing is renumbered.
    pub fn delete_node(&mut self, n: usize) -> (r: Result<(), StructuralError>)
        requires
            old(self).wf(),
        ensures
            final(self).wf(),
            (r matches Err(e) ==> e == StructuralError::StaleIndex && *final(self) == *old(self)
                && (n as int) >= old(self).nodes@.len()),
            (r is Ok ==> {
                &&& (n as int) < old(self).nodes@.len()
                &&& final(self).nodes@.len() == old(self).nodes@.len()
                &&& !final(self).nodes@[n as int].alive
                &&& final(self).nodes@[n as int].scope == old(self).nodes@[n as int].scope
                &&& final(self).nodes@[n as int].vertex == old(self).nodes@[n as int].vertex
                &&& final(self).nodes@[n as int].inputs == old(self).nodes@[n as int].inputs
                &&& final(self).nodes@[n as int].signature == old(self).nodes@[n as int].signature
                &&& (forall|j: int|
                    0 <= j < old(self).nodes@.len() && j != n ==> final(self).nodes@[j] == old(
                        self,
                    ).nodes@[j])
                &&& final(self).inputs@ == old(self).inputs@
                &&& final(self).outputs@ == old(self).outputs@
                &&& final(self).edges@ == old(self).edges@
            }),
    {
        if n >= self.nodes.len() {
            return Err(StructuralError::StaleIndex);
        }
        let old_rec = &self.nodes[n];
        let rec = Node {
            id: old_rec.id,
            name: old_rec.name,
            signature: old_rec.signature,
            consts: old_rec.consts,
            inputs: old_rec.inputs,
            outputs: old_rec.outputs,
            fun: old_rec.fun,
            lambda: old_rec.lambda,
            resolved: old_rec.resolved,
            scope: old_rec.scope,
            vertex: old_rec.vertex,
            alive: false,
        };
        self.nodes[n] = rec;
        Ok(())
    }
}

/// The types of the currently connected input ports of the run
/// `[start, start+c)`, in port order: a port is connected exactly when it
/// carries a resolved arity-wrapped type.
pub open spec fn collected_ports(
    inputs: Seq<InputPort>,
    ats: Seq<AritiedType>,
    start: int,
    c: int,
) -> Seq<usize>
    decreases c,
{
    if c <= 0 {
        Seq::empty()
    } else {
        collected_ports(inputs, ats, start, c - 1) + (match inputs[start + c - 1].aritied_type {
            Some(t) => seq![crate::arity::at_type(ats[t.0 as int])],
            None => Seq::<usize>::empty(),
        })
    }
}

impl Pool {
    /// Re-run signature resolution for node `n` against its currently
    /// connected input ports, in port order. Exactly one satisfied
    /// candidate becomes the node's resolved signature; with none the node
    /// is unresolved, with several it is ambiguous, and in both error cases
    /// the resolved-signature slot is left empty, never defaulted. The
    /// outcome clauses are exact when all candidate slot types and port
    /// types are concrete.
    #[verifier::loop_isolation(false)]
    pub fn resolve_node(&mut self, n: usize) -> (r: Result<usize, crate::arity::ArityError>)
        requires
            old(self).wf(),
            (n as int) < old(self).nodes@.len(),
            old(self).nodes@[n as int].inputs is Some,
            old(self).nodes@[n as int].outputs is Some,
            old(self).nodes@[n as int].signature is Some,
        ensures
            final(self).wf(),
            final(self).nodes@.len() == old(self).nodes@.len(),
            (forall|j: int|
                0 <= j < old(self).nodes@.len() && j != n ==> final(self).nodes@[j] == old(
                    self,
                ).nodes@[j]),
            final(self).inputs@ == old(self).inputs@,
            final(self).edges@ == old(self).edges@,
            final(self).signature@ == old(self).signature@,
            final(self).aritied_types@ == old(self).aritied_types@,
            final(self).scopes@ == old(self).scopes@,
            (r matches Ok(w) ==> final(self).nodes@[n as int].resolved == Some(
                Idx::<SignatureIdx>(w, core::marker::PhantomData),
            )),
            (r is Err ==> final(self).nodes@[n as int].resolved is None),
            (r is Err ==> final(self).outputs@ == old(self).outputs@),
            (r matches Ok(w) ==> {
                let orun = old(self).nodes@[n as int].outputs->0;
                let trun = old(self).signature@[w as int].output;
                &&& final(self).outputs@.len() == old(self).outputs@.len()
                &&& (forall|k: int|
                    0 <= k < orun.count && k < trun.count ==> {
                        let p = #[trigger] final(self).outputs@[orun.start + k];
                        let q = old(self).outputs@[orun.start + k];
                        &&& p.aritied_type is Some
                        &&& ((p.aritied_type->0).0 as int) == trun.start + k
                        &&& p.owned_by == q.owned_by
                        &&& p.scope == q.scope
                        &&& p.vertex == q.vertex
                        &&& p.belongs_to_lambda == q.belongs_to_lambda
                    })
                &&& (forall|j: int|
                    0 <= j < old(self).outputs@.len() && !(orun.start <= j && j - orun.start
                        < orun.count && j - orun.start < trun.count)
                        ==> #[trigger] final(self).outputs@[j] == old(self).outputs@[j])
            }),
            ({
                let run = old(self).nodes@[n as int].signature->0;
                let irun = old(self).nodes@[n as int].inputs->0;
                let ports = collected_ports(
                    old(self).inputs@,
                    old(self).aritied_types@,
                    irun.start as int,
                    irun.count as int,
                );
                (crate::arity::candidates_concrete(
                    old(self).registry.types@,
                    old(self).signature@,
                    run,
                    old(self).aritied_types@,
                ) && crate::arity::ports_concrete(old(self).registry.types@, ports)) ==> ({
                    &&& (r matches Ok(w) ==> run.start <= w < run.start as int + run.count
                        && crate::arity::spec_sig_matches(
                        old(self).registry.types@,
                        old(self).aritied_types@,
                        old(self).signature@,
                        w as int,
                        ports,
                    ) && (forall|j: int|
                        run.start <= j < run.start + run.count && j != w
                            ==> !crate::arity::spec_sig_matches(
                            old(self).registry.types@,
                            old(self).aritied_types@,
                            old(self).signature@,
                            j,
                            ports,
                        )))
                    &&& (r == Err::<usize, crate::arity::ArityError>(
                        crate::arity::ArityError::NoMatchingSignature,
                    ) ==> forall|j: int|
                        run.start <= j < run.start + run.count
                            ==> !crate::arity::spec_sig_matches(
                            old(self).registry.types@,
                            old(self).aritied_types@,
                            old(self).signature@,
                            j,
                            ports,
                        ))
                    &&& (r == Err::<usize, crate::arity::ArityError>(
                        crate::arity::ArityError::AmbiguousOverload,
                    ) ==> exists|j1: int, j2: int|
                        run.start <= j1 < j2 < run.start + run.count
                            && crate::arity::spec_sig_matches(
                            old(self).registry.types@,
                            old(self).aritied_types@,
                            old(self).signature@,
                            j1,
                            ports,
                        ) && crate::arity::spec_sig_matches(
                            old(self).registry.types@,
                            old(self).aritied_types@,
                            old(self).signature@,
                            j2,
                            ports,
                        ))
                })
            }),
    {
        let irun = match self.nodes[n].inputs {
            Some(run) => run,
            None => {
                proof {
                    assert(false);
                }
                return Err(crate::arity::ArityError::NoMatchingSignature);
            },
        };
        let srun = match self.nodes[n].signature {
            Some(run) => run,
            None => {
                proof {
                    assert(false);
                }
                return Err(crate::arity::ArityError::NoMatchingSignature);
            },
        };
        let orun = match self.nodes[n].outputs {
            Some(run) => run,
            None => {
                proof {
                    assert(false);
                }
                return Err(crate::arity::ArityError::NoMatchingSignature);
            },
        };
        proof {
            let nrec = self.nodes@[n as int];
            assert((irun.start as int) + (irun.count as int) <= self.inputs@.len());
        }
        let ilen = self.inputs.len();
        let mut ports: Vec<usize> = Vec::new();
        let mut i: usize = 0;
        while i < irun.count
            invariant
                i <= irun.count,
                ilen == self.inputs@.len(),
                (irun.start as int) + (irun.count as int) <= ilen as int,
                ports@ == collected_ports(
                    self.inputs@,
                    self.aritied_types@,
                    irun.start as int,
                    i as int,
                ),
                crate::arity::ports_in_bounds(ports@, self.registry.types@.len() as int),
            decreases irun.count - i,
        {
            match self.inputs[irun.start + i].aritied_type {
                Some(t) => {
                    let at = self.aritied_types[t.0];
                    let tp = match at {
                        AritiedType::Single(tt) => tt,
                        AritiedType::Many(tt) => tt,
                    };
                    ports.push(tp);
                },
                None => {},
            }
            i = i + 1;
        }
        let outcome = crate::arity::resolve_signature(
            &mut self.registry,
            &self.aritied_types,
            &self.signature,
            srun,
            &ports,
        );
        let old_rec = &self.nodes[n];
        let rec = Node {
            id: old_rec.id,
            name: old_rec.name,
            signature: old_rec.signature,
            consts: old_rec.consts,
            inputs: old_rec.inputs,
            outputs: old_rec.outputs,
            fun: old_rec.fun,
            lambda: old_rec.lambda,
            resolved: match outcome {
                Ok(w) => Some(Idx::new(w)),
                Err(_) => None,
            },
            scope: old_rec.scope,
            vertex: old_rec.vertex,
            alive: old_rec.alive,
        };
        self.nodes[n] = rec;
        match outcome {
            Ok(w) => {
                let sig = self.signature[w];
                let trun = sig.output;
                let kmax = if orun.count <= trun.count {
                    orun.count
                } else {
                    trun.count
                };
                let olen = self.outputs.len();
                let tlen = self.registry.types.len();
                proof {
                    let nrec0 = old(self).nodes@[n as int];
                    assert((srun.start as int) + (srun.count as int) <= self.signature@.len());
                    assert((orun.start as int) + (orun.count as int) <= self.outputs@.len());
                    assert((self.signature@[w as int].output.start as int) + (
                    self.signature@[w as int].output.count as int) <= tlen as int);
                }
                let ghost mid = *self;
                let mut k: usize = 0;
                while k < kmax
                    invariant
                        k <= kmax,
                        kmax <= orun.count,
                        kmax <= trun.count,
                        (orun.start as int) + (orun.count as int) <= olen as int,
                        (trun.start as int) + (trun.count as int) <= tlen as int,
                        olen == self.outputs@.len(),
                        tlen == self.registry.types@.len(),
                        self.registry == mid.registry,
                        self.aritied_types@ == mid.aritied_types@,
                        self.nodes@ == mid.nodes@,
                        self.names@ == mid.names@,
                        self.signature@ == mid.signature@,
                        self.fn_count == mid.fn_count,
                        self.inputs@ == mid.inputs@,
                        self.instants@ == mid.instants@,
                        self.const_strings@ == mid.const_strings@,
                        self.const_datetime == mid.const_datetime,
                        self.consts@ == mid.consts@,
                        self.value_strings@ == mid.value_strings@,
                        self.value_datetime == mid.value_datetime,
                        self.values@ == mid.values@,
                        self.stream_count == mid.stream_count,
                        self.scopes@ == mid.scopes@,
                        self.scope_path@ == mid.scope_path@,
                        self.edges@ == mid.edges@,
                        forall|j: int|
                            0 <= j < olen && !(orun.start <= j && j - orun.start < k)
                                ==> #[trigger] self.outputs@[j] == mid.outputs@[j],
                        forall|kk: int|
                            0 <= kk < k ==> {
                                let p = #[trigger] self.outputs@[orun.start + kk];
                                let q = mid.outputs@[orun.start + kk];
                                &&& p.aritied_type is Some
                                &&& ((p.aritied_type->0).0 as int) == trun.start + kk
                                &&& p.owned_by == q.owned_by
                                &&& p.scope == q.scope
                                &&& p.vertex == q.vertex
                                &&& p.belongs_to_lambda == q.belongs_to_lambda
                            },
                    decreases kmax - k,
                {
                    let pos = orun.start + k;
                    let old_port = self.outputs[pos];
                    self.outputs[pos] = OutputPort {
                        owned_by: old_port.owned_by,
                        aritied_type: Some(Idx::new(trun.start + k)),
                        belongs_to_lambda: old_port.belongs_to_lambda,
                        scope: old_port.scope,
                        vertex: old_port.vertex,
                    };
                    k = k + 1;
                }
                proof {
                    assert forall|i: int| 0 <= i < self.outputs@.len() implies {
                        let p = #[trigger] self.outputs@[i];
                        &&& p.scope < self.scopes@.len()
                        &&& (p.vertex as int) < graph_nodes(
                            self.scopes@[p.scope as int].port_graph,
                        ).len()
                        &&& (p.owned_by.0 as int) < self.nodes@.len()
                        &&& self.nodes@[p.owned_by.0 as int].scope == p.scope
                        &&& (p.aritied_type matches Some(t) ==> (t.0 as int)
                            < self.registry.types@.len())
                    } by {
                        let q = old(self).outputs@[i];
                        assert(q.scope < old(self).scopes@.len());
                        if orun.start <= i && i - orun.start < kmax {
                            let kk = i - orun.start;
                            assert(self.outputs@[orun.start + kk].aritied_type is Some);
                        } else {
                            assert(self.outputs@[i] == mid.outputs@[i]);
                        }
                    }
                }
            },
            Err(_) => {},
        }
        proof {
            assert forall|s: int| 0 <= s < self.scopes@.len() implies (
            #[trigger] self.scopes@[s]).wf() by {
                assert(old(self).scopes@[s].wf());
            }
            assert forall|j: int| 0 <= j < self.signature@.len() implies crate::arity::ats_in_bounds(
                self.aritied_types@,
                (#[trigger] crate::arity::sig_run(self.signature@, j)).0,
                crate::arity::sig_run(self.signature@, j).1,
                self.registry.types@.len() as int,
            ) by {
                assert(crate::arity::ats_in_bounds(
                    self.aritied_types@,
                    crate::arity::sig_run(self.signature@, j).0,
                    crate::arity::sig_run(self.signature@, j).1,
                    old(self).registry.types@.len() as int,
                ));
            }
            if outcome is Err {
                assert forall|i: int| 0 <= i < self.outputs@.len() implies {
                    let p = #[trigger] self.outputs@[i];
                    &&& p.scope < self.scopes@.len()
                    &&& (p.vertex as int) < graph_nodes(
                        self.scopes@[p.scope as int].port_graph,
                    ).len()
                    &&& (p.owned_by.0 as int) < self.nodes@.len()
                    &&& self.nodes@[p.owned_by.0 as int].scope == p.scope
                    &&& (p.aritied_type matches Some(t) ==> (t.0 as int)
                        < self.registry.types@.len())
                } by {
                    let q = old(self).outputs@[i];
                    assert(q.scope < old(self).scopes@.len());
                }
            }
        }
        outcome
    }
}

impl Pool {
    /// Remove a connection: the edge leaves both of the scope's graphs (in
    /// each, the highest-indexed edge moves into the freed place, and the
    /// record naming that edge is retargeted), and the record is tombstoned
    /// so indices into the edge log stay valid. The consuming node should be
    /// re-resolved by the caller. Acyclicity is preserved; a later edit may
    /// lawfully re-wire what a removed edge used to forbid.
    #[verifier::loop_isolation(false)]
    pub fn disconnect(&mut self, e: usize) -> (r: Result<(), StructuralError>)
        requires
            old(self).wf(),
        ensures
            final(self).wf(),
            (r matches Err(err) ==> err == StructuralError::StaleIndex && *final(self) == *old(
                self,
            ) && ((e as int) >= old(self).edges@.len() || old(self).edges@[e as int].removed)),
            (r is Ok ==> {
                let rec = old(self).edges@[e as int];
                &&& (e as int) < old(self).edges@.len()
                &&& !rec.removed
                &&& final(self).edges@.len() == old(self).edges@.len()
                &&& final(self).edges@[e as int].removed
                &&& graph_edges(final(self).scopes@[rec.scope as int].node_graph) == graph_edges(
                    old(self).scopes@[rec.scope as int].node_graph,
                ).update(
                    rec.gindex as int,
                    graph_edges(old(self).scopes@[rec.scope as int].node_graph).last(),
                ).drop_last()
                &&& graph_edges(final(self).scopes@[rec.scope as int].port_graph) == graph_edges(
                    old(self).scopes@[rec.scope as int].port_graph,
                ).update(
                    rec.gindex as int,
                    graph_edges(old(self).scopes@[rec.scope as int].port_graph).last(),
                ).drop_last()
                &&& (forall|sidx: int|
                    0 <= sidx < old(self).scopes@.len() && sidx != rec.scope
                        ==> #[trigger] final(self).scopes@[sidx] == old(self).scopes@[sidx])
                &&& (forall|j: int|
                    0 <= j < old(self).edges@.len() && j != e ==> {
                        let fj = #[trigger] final(self).edges@[j];
                        let oj = old(self).edges@[j];
                        fj.scope == oj.scope && fj.out_port == oj.out_port && fj.in_port
                            == oj.in_port && fj.type_error == oj.type_error && fj.removed
                            == oj.removed
                    })
                &&& final(self).nodes@ == old(self).nodes@
                &&& final(self).inputs@ == old(self).inputs@
                &&& final(self).outputs@ == old(self).outputs@
            }),
    {
        if e >= self.edges.len() {
            return Err(StructuralError::StaleIndex);
        }
        let rec = self.edges[e];
        if rec.removed {
            return Err(StructuralError::StaleIndex);
        }
        let scope = rec.scope;
        let gi = rec.gindex;
        let old_last = self.scopes[scope].edge_count() - 1;
        self.scopes[scope].disconnect_edge(gi);
        self.edges[e] = EdgeRec {
            scope: rec.scope,
            out_port: rec.out_port,
            in_port: rec.in_port,
            type_error: rec.type_error,
            removed: true,
            gindex: rec.gindex,
        };
        let ghost snap = self.edges@;
        let ghost mid = *self;
        if gi != old_last {
            let m = self.edges.len();
            let mut j: usize = 0;
            while j < m
                invariant
                    j <= m,
                    m == self.edges@.len(),
                    self.edges@.len() == snap.len(),
                    self.registry == mid.registry,
                    self.aritied_types@ == mid.aritied_types@,
                    self.nodes@ == mid.nodes@,
                    self.names@ == mid.names@,
                    self.signature@ == mid.signature@,
                    self.fn_count == mid.fn_count,
                    self.inputs@ == mid.inputs@,
                    self.outputs@ == mid.outputs@,
                    self.instants@ == mid.instants@,
                    self.const_strings@ == mid.const_strings@,
                    self.const_datetime == mid.const_datetime,
                    self.consts@ == mid.consts@,
                    self.value_strings@ == mid.value_strings@,
                    self.value_datetime == mid.value_datetime,
                    self.values@ == mid.values@,
                    self.stream_count == mid.stream_count,
                    self.scopes@ == mid.scopes@,
                    self.scope_path@ == mid.scope_path@,
                    forall|k: int| j <= k < m ==> #[trigger] self.edges@[k] == snap[k],
                    forall|k: int|
                        0 <= k < j ==> #[trigger] self.edges@[k] == (if !snap[k].removed
                            && snap[k].scope == scope && snap[k].gindex == old_last {
                            EdgeRec {
                                scope: snap[k].scope,
                                out_port: snap[k].out_port,
                                in_port: snap[k].in_port,
                                type_error: snap[k].type_error,
                                removed: snap[k].removed,
                                gindex: gi,
                            }
                        } else {
                            snap[k]
                        }),
                decreases m - j,
            {
                let rj = self.edges[j];
                if !rj.removed && rj.scope == scope && rj.gindex == old_last {
                    self.edges[j] = EdgeRec {
                        scope: rj.scope,
                        out_port: rj.out_port,
                        in_port: rj.in_port,
                        type_error: rj.type_error,
                        removed: rj.removed,
                        gindex: gi,
                    };
                }
                j = j + 1;
            }
        }
        proof {
            let fin = self.edges@;
            let new_len = graph_edges(self.scopes@[scope as int].node_graph).len();
            assert(new_len == old_last);
            // every live record still names an in-range, unshared graph edge
            assert forall|k: int|
                0 <= k < fin.len() && !(#[trigger] fin[k]).removed implies {
                &&& fin[k].scope < self.scopes@.len()
                &&& (fin[k].gindex as int) < graph_edges(
                    self.scopes@[fin[k].scope as int].node_graph,
                ).len()
            } by {
                assert(!old(self).edges@[k].removed && k != e);
                if fin[k].scope == scope {
                    if old(self).edges@[k].gindex == old_last {
                        assert(fin[k].gindex == gi);
                        assert(old(self).edges@[e as int].gindex == gi);
                        assert(gi != old_last);
                    } else {
                        assert(fin[k].gindex == old(self).edges@[k].gindex);
                        assert((old(self).edges@[k].gindex as int) < old_last + 1);
                    }
                }
            }
            assert forall|e1: int, e2: int|
                0 <= e1 < e2 < fin.len() && !(#[trigger] fin[e1]).removed && !(
                #[trigger] fin[e2]).removed && fin[e1].scope == fin[e2].scope implies fin[e1].gindex
                != fin[e2].gindex by {
                assert(e1 != e && e2 != e);
                assert(!old(self).edges@[e1].removed && !old(self).edges@[e2].removed);
                if fin[e1].scope == scope {
                    // at most one live record held the moved index, and the
                    // freed index belonged to the record being removed
                    if e1 < e {
                        assert(old(self).edges@[e1].gindex != old(self).edges@[e as int].gindex);
                    } else {
                        assert(old(self).edges@[e as int].gindex != old(self).edges@[e1].gindex);
                    }
                    if e2 < e {
                        assert(old(self).edges@[e2].gindex != old(self).edges@[e as int].gindex);
                    } else {
                        assert(old(self).edges@[e as int].gindex != old(self).edges@[e2].gindex);
                    }
                    assert(old(self).edges@[e1].gindex != old(self).edges@[e2].gindex);
                }
            }
        }
        Ok(())
    }

    /// Give node `n` a nested lambda: a fresh scope for its body, recorded
    /// on the node. Returns the new scope's position.
    pub fn attach_lambda(&mut self, n: usize) -> (r: Result<usize, StructuralError>)
        requires
            old(self).wf(),
        ensures
            final(self).wf(),
            (r matches Err(err) ==> err == StructuralError::StaleIndex && *final(self) == *old(
                self,
            ) && (n as int) >= old(self).nodes@.len()),
            (r matches Ok(sc) ==> {
                &&& (n as int) < old(self).nodes@.len()
                &&& sc == old(self).scopes@.len()
                &&& final(self).scopes@.len() == old(self).scopes@.len() + 1
                &&& final(self).nodes@[n as int].lambda matches Some(lp) && lp.lambda_graph
                    == Some(Idx::<PortAndNodeGraphIdx>(sc, core::marker::PhantomData))
                &&& (forall|j: int|
                    0 <= j < old(self).nodes@.len() && j != n ==> final(self).nodes@[j] == old(
                        self,
                    ).nodes@[j])
                &&& final(self).inputs@ == old(self).inputs@
                &&& final(self).outputs@ == old(self).outputs@
                &&& final(self).edges@ == old(self).edges@
            }),
    {
        if n >= self.nodes.len() {
            return Err(StructuralError::StaleIndex);
        }
        let sc = self.add_scope();
        let old_rec = &self.nodes[n];
        let rec = Node {
            id: old_rec.id,
            name: old_rec.name,
            signature: old_rec.signature,
            consts: old_rec.consts,
            inputs: old_rec.inputs,
            outputs: old_rec.outputs,
            fun: old_rec.fun,
            lambda: Some(
                LambdaParams {
                    inputs: VecIdx {
                        start: 0,
                        count: 0,
                        _phantom: core::marker::PhantomData,
                    },
                    outputs: VecIdx {
                        start: 0,
                        count: 0,
                        _phantom: core::marker::PhantomData,
                    },
                    signature: None,
                    lambda_graph: Some(Idx::new(sc)),
                },
            ),
            resolved: old_rec.resolved,
            scope: old_rec.scope,
            vertex: old_rec.vertex,
            alive: old_rec.alive,
        };
        self.nodes[n] = rec;
        Ok(sc)
    }

    /// Enter the lambda body of node `n`: its scope becomes the innermost
    /// entry of the scope path.
    pub fn enter_lambda(&mut self, n: usize) -> (r: Result<usize, StructuralError>)
        requires
            old(self).wf(),
        ensures
            final(self).wf(),
            (r matches Err(err) ==> err == StructuralError::StaleIndex && *final(self) == *old(
                self,
            )),
            (((n as int) < old(self).nodes@.len() && (old(self).nodes@[n as int].lambda
                matches Some(lp) && lp.lambda_graph matches Some(g) && (g.0 as int) < old(
                self,
            ).scopes@.len())) ==> r is Ok),
            (r matches Ok(sc) ==> {
                &&& (n as int) < old(self).nodes@.len()
                &&& old(self).nodes@[n as int].lambda matches Some(lp) && lp.lambda_graph
                    matches Some(g) && g.0 == sc
                &&& final(self).scope_path@ == old(self).scope_path@.push(sc)
                &&& final(self).nodes@ == old(self).nodes@
                &&& final(self).edges@ == old(self).edges@
            }),
    {
        if n >= self.nodes.len() {
            return Err(StructuralError::StaleIndex);
        }
        let lp = match &self.nodes[n].lambda {
            Some(lp) => *lp,
            None => {
                return Err(StructuralError::StaleIndex);
            },
        };
        let g = match lp.lambda_graph {
            Some(g) => g,
            None => {
                return Err(StructuralError::StaleIndex);
            },
        };
        if g.0 >= self.scopes.len() {
            return Err(StructuralError::StaleIndex);
        }
        self.scope_path.push(g.0);
        Ok(g.0)
    }

    /// Leave the innermost lambda body; at the top level there is nothing
    /// to leave.
    pub fn exit_lambda(&mut self) -> (r: Result<(), StructuralError>)
        requires
            old(self).wf(),
        ensures
            final(self).wf(),
            (r matches Err(err) ==> err == StructuralError::StaleIndex && *final(self) == *old(
                self,
            ) && old(self).scope_path@.len() == 0),
            (r is Ok ==> old(self).scope_path@.len() > 0 && final(self).scope_path@ == old(
                self,
            ).scope_path@.drop_last() && final(self).nodes@ == old(self).nodes@),
    {
        if self.scope_path.len() == 0 {
            return Err(StructuralError::StaleIndex);
        }
        self.scope_path.pop();
        Ok(())
    }

    /// The scope edits currently address: the innermost entered lambda
    /// body, or the top level.
    pub fn current_scope(&self) -> (r: usize)
        requires
            self.wf(),
        ensures
            (r as int) < self.scopes@.len(),
            self.scope_path@.len() == 0 ==> r == 0,
            self.scope_path@.len() > 0 ==> r == self.scope_path@.last(),
    {
        if self.scope_path.len() == 0 {
            0
        } else {
            self.scope_path[self.scope_path.len() - 1]
        }
    }
}

impl Pool {
    /// Record the resolved arity-wrapped type of an input port: the verified
    /// way a port learns its type (the editor's type propagation and the
    /// capture edit go through here or through `capture_into_lambda`).
    pub fn set_input_type(&mut self, p: usize, at: usize) -> (r: Result<(), StructuralError>)
        requires
            old(self).wf(),
        ensures
            final(self).wf(),
            (r matches Err(e) ==> e == StructuralError::StaleIndex && *final(self) == *old(self)
                && ((p as int) >= old(self).inputs@.len() || (at as int) >= old(
                self,
            ).aritied_types@.len())),
            (r is Ok ==> {
                let q = old(self).inputs@[p as int];
                &&& (p as int) < old(self).inputs@.len()
                &&& (at as int) < old(self).aritied_types@.len()
                &&& final(self).inputs@ == old(self).inputs@.update(
                    p as int,
                    InputPort {
                        owned_by: q.owned_by,
                        aritied_type: Some(Idx::<AritiedTypeIdx>(at, core::marker::PhantomData)),
                        belongs_to_lambda: q.belongs_to_lambda,
                        scope: q.scope,
                        vertex: q.vertex,
                    },
                )
                &&& final(self).outputs@ == old(self).outputs@
                &&& final(self).nodes@ == old(self).nodes@
                &&& final(self).edges@ == old(self).edges@
                &&& final(self).scopes@ == old(self).scopes@
                &&& final(self).registry == old(self).registry
            }),
    {
        if p >= self.inputs.len() || at >= self.aritied_types.len() {
            return Err(StructuralError::StaleIndex);
        }
        let q = self.inputs[p];
        self.inputs[p] = InputPort {
            owned_by: q.owned_by,
            aritied_type: Some(Idx::new(at)),
            belongs_to_lambda: q.belongs_to_lambda,
            scope: q.scope,
            vertex: q.vertex,
        };
        Ok(())
    }

    /// Record the produced type of an output port.
    pub fn set_output_type(&mut self, p: usize, t: usize) -> (r: Result<(), StructuralError>)
        requires
            old(self).wf(),
        ensures
            final(self).wf(),
            (r matches Err(e) ==> e == StructuralError::StaleIndex && *final(self) == *old(self)
                && ((p as int) >= old(self).outputs@.len() || (t as int) >= old(
                self,
            ).registry.types@.len())),
            (r is Ok ==> {
                let q = old(self).outputs@[p as int];
                &&& (p as int) < old(self).outputs@.len()
                &&& (t as int) < old(self).registry.types@.len()
                &&& final(self).outputs@ == old(self).outputs@.update(
                    p as int,
                    OutputPort {
                        owned_by: q.owned_by,
                        aritied_type: Some(Idx::<TypeIdx>(t, core::marker::PhantomData)),
                        belongs_to_lambda: q.belongs_to_lambda,
                        scope: q.scope,
                        vertex: q.vertex,
                    },
                )
                &&& final(self).inputs@ == old(self).inputs@
                &&& final(self).nodes@ == old(self).nodes@
                &&& final(self).edges@ == old(self).edges@
                &&& final(self).scopes@ == old(self).scopes@
                &&& final(self).registry == old(self).registry
            }),
    {
        if p >= self.outputs.len() || t >= self.registry.types.len() {
            return Err(StructuralError::StaleIndex);
        }
        let q = self.outputs[p];
        self.outputs[p] = OutputPort {
            owned_by: q.owned_by,
            aritied_type: Some(Idx::new(t)),
            belongs_to_lambda: q.belongs_to_lambda,
            scope: q.scope,
            vertex: q.vertex,
        };
        Ok(())
    }

    /// Store a literal; returns its constant-arena position.
    pub fn add_const(&mut self, c: Const) -> (r: usize)
        requires
            old(self).wf(),
        ensures
            final(self).wf(),
            final(self).consts@ == old(self).consts@.push(c),
            r == old(self).consts@.len(),
            final(self).nodes@ == old(self).nodes@,
            final(self).inputs@ == old(self).inputs@,
            final(self).outputs@ == old(self).outputs@,
            final(self).edges@ == old(self).edges@,
            final(self).scopes@ == old(self).scopes@,
            final(self).registry == old(self).registry,
    {
        let pos = self.consts.len();
        self.consts.push(c);
        pos
    }

    /// Attach a run of constants to a node (the set-constant edit).
    pub fn set_node_consts(&mut self, n: usize, run: VecIdx<ConstIdx>) -> (r: Result<
        (),
        StructuralError,
    >)
        requires
            old(self).wf(),
        ensures
            final(self).wf(),
            (r matches Err(e) ==> e == StructuralError::StaleIndex && *final(self) == *old(self)
                && ((n as int) >= old(self).nodes@.len() || (run.start as int) + (run.count
                as int) > old(self).consts@.len())),
            (r is Ok ==> {
                &&& (n as int) < old(self).nodes@.len()
                &&& (run.start as int) + (run.count as int) <= old(self).consts@.len()
                &&& final(self).nodes@.len() == old(self).nodes@.len()
                &&& final(self).nodes@[n as int].consts == Some(run)
                &&& final(self).nodes@[n as int].resolved == old(self).nodes@[n as int].resolved
                &&& (forall|j: int|
                    0 <= j < old(self).nodes@.len() && j != n ==> final(self).nodes@[j] == old(
                        self,
                    ).nodes@[j])
                &&& final(self).inputs@ == old(self).inputs@
                &&& final(self).outputs@ == old(self).outputs@
                &&& final(self).edges@ == old(self).edges@
                &&& final(self).scopes@ == old(self).scopes@
            }),
    {
        if n >= self.nodes.len() {
            return Err(StructuralError::StaleIndex);
        }
        if run.count > self.consts.len() || run.start > self.consts.len() - run.count {
            return Err(StructuralError::StaleIndex);
        }
        let old_rec = &self.nodes[n];
        let rec = Node {
            id: old_rec.id,
            name: old_rec.name,
            signature: old_rec.signature,
            consts: Some(run),
            inputs: old_rec.inputs,
            outputs: old_rec.outputs,
            fun: old_rec.fun,
            lambda: old_rec.lambda,
            resolved: old_rec.resolved,
            scope: old_rec.scope,
            vertex: old_rec.vertex,
            alive: old_rec.alive,
        };
        self.nodes[n] = rec;
        Ok(())
    }

    /// Bounds- and liveness-checked node lookup: not found for an index
    /// outside the arena or for a tombstoned node.
    pub fn get_node(&self, n: usize) -> (r: Option<&Node>)
        ensures
            (r matches Some(node) ==> (n as int) < self.nodes@.len()
                && self.nodes@[n as int].alive && *node == self.nodes@[n as int]),
            (r is None ==> (n as int) >= self.nodes@.len() || !self.nodes@[n as int].alive),
    {
        if n < self.nodes.len() {
            if self.nodes[n].alive {
                Some(&self.nodes[n])
            } else {
                None
            }
        } else {
            None
        }
    }

    /// The whole connect edit of the editor boundary: commit the connection
    /// (rejecting it atomically on a structural violation, marking the edge
    /// on a type error) and then re-run signature resolution for the
    /// consuming node, when that node declares candidate signatures and port
    /// runs. Returns the resolution outcome, or `None` when the consumer has
    /// nothing to resolve.
    pub fn connect_and_resolve(&mut self, scope: usize, from: Port, to: Port) -> (r: Result<
        Option<Result<usize, crate::arity::ArityError>>,
        StructuralError,
    >)
        requires
            old(self).wf(),
        ensures
            final(self).wf(),
            (r matches Err(e) ==> *final(self) == *old(self) && (e
                == StructuralError::ArityDirectionError || e == StructuralError::StaleIndex || e
                == StructuralError::CycleError)),
            ({
                let o = from->OutputPort_0;
                let i = to->InputPort_0;
                let op = old(self).outputs@[o as int];
                let ip = old(self).inputs@[i as int];
                (from is OutputPort && to is InputPort && (o as int) < old(self).outputs@.len()
                    && (i as int) < old(self).inputs@.len() && op.scope == scope && ip.scope
                    == scope && graph_edges(old(self).scopes@[scope as int].node_graph).len()
                    < 0xffff_fffe && !crate::graph::reachable(
                    graph_edges(old(self).scopes@[scope as int].node_graph),
                    old(self).nodes@[ip.owned_by.0 as int].vertex as int,
                    old(self).nodes@[op.owned_by.0 as int].vertex as int,
                )) ==> r is Ok
            }),
            (r is Ok ==> {
                &&& final(self).edges@.len() == old(self).edges@.len() + 1
                &&& final(self).edges@[old(self).edges@.len() as int].out_port
                    == from->OutputPort_0
                &&& final(self).edges@[old(self).edges@.len() as int].in_port == to->InputPort_0
                &&& !final(self).edges@[old(self).edges@.len() as int].removed
            }),
            (r matches Ok(out) ==> {
                let i = to->InputPort_0;
                let owner = old(self).inputs@[i as int].owned_by.0;
                &&& (out matches Some(Ok(w)) ==> final(self).nodes@[owner as int].resolved
                    == Some(Idx::<SignatureIdx>(w, core::marker::PhantomData)))
                &&& (out matches Some(Err(_)) ==> final(self).nodes@[owner as int].resolved
                    is None)
                &&& (out is None ==> final(self).nodes@ == old(self).nodes@)
            }),
    {
        match self.connect(scope, from, to) {
            Err(e) => {
                return Err(e);
            },
            Ok(()) => {},
        }
        let i = match to {
            Port::InputPort(i) => i,
            Port::OutputPort(_) => {
                proof {
                    assert(false);
                }
                return Ok(None);
            },
        };
        let owner = self.inputs[i].owned_by.0;
        let resolvable = match (
            &self.nodes[owner].inputs,
            &self.nodes[owner].outputs,
            &self.nodes[owner].signature,
        ) {
            (Some(_), Some(_), Some(_)) => true,
            _ => false,
        };
        if resolvable {
            let res = self.resolve_node(owner);
            Ok(Some(res))
        } else {
            Ok(None)
        }
    }
}

} // verus!
