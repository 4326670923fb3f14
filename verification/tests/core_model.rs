use std::marker::PhantomData;

use flowgraph::arena::add_x;
use flowgraph::arena::get_mut_x;
use flowgraph::arena::get_ref;
use flowgraph::arena::get_x;
use flowgraph::arena::FnIdx;
use flowgraph::arena::Idx;
use flowgraph::arena::ManyIdx;
use flowgraph::arena::SetIdx;
use flowgraph::arena::SignatureIdx;
use flowgraph::arena::VecIdx;
use flowgraph::arity::resolve_signature;
use flowgraph::arity::AritiedType;
use flowgraph::arity::ArityError;
use flowgraph::arity::Signature;
use flowgraph::graph::StructuralError;
use flowgraph::model::DateTimeArena;
use flowgraph::model::Pool;
use flowgraph::model::Port;
use flowgraph::types::Type;
use flowgraph::types::TypeRegistry;
use flowgraph::unify::TypeError;

fn vec_run<T>(start: usize, count: usize) -> VecIdx<T> {
    VecIdx { start, count, _phantom: PhantomData }
}

fn set_run<T>(start: usize, count: usize) -> SetIdx<T> {
    SetIdx { start, count, _phantom: PhantomData }
}

#[test]
fn index_stability_after_many_allocations() {
    let mut arena: Vec<u64> = Vec::new();
    let (first, v) = add_x(&mut arena, 41);
    assert_eq!(v, 41);
    for k in 0..100u64 {
        add_x(&mut arena, k);
    }
    assert_eq!(get_x(&arena, first), Some(41));
    assert_eq!(get_ref(&arena, first).copied(), Some(41));
}

#[test]
fn arena_get_rejects_out_of_range() {
    let mut arena: Vec<u32> = Vec::new();
    add_x(&mut arena, 7);
    let stale: Idx<u32> = Idx::new(5);
    assert_eq!(get_x(&arena, stale), None);
    assert!(get_ref(&arena, stale).is_none());
}

#[test]
fn arena_get_mut_writes_in_place() {
    let mut arena: Vec<u32> = Vec::new();
    let (idx, _) = add_x(&mut arena, 1);
    *get_mut_x(&mut arena, idx) = 9;
    assert_eq!(get_x(&arena, idx), Some(9));
}

#[test]
fn run_reinterpretations_keep_start_and_count() {
    let run: VecIdx<FnIdx> = vec_run(3, 4);
    let as_sigs: VecIdx<SignatureIdx> = VecIdx::from(run);
    assert_eq!(as_sigs.start, 3);
    assert_eq!(as_sigs.count, 4);
    let as_set: SetIdx<SignatureIdx> = SetIdx::from(run);
    assert_eq!((as_set.start, as_set.count), (3, 4));
    let back: VecIdx<SignatureIdx> = VecIdx::from(as_set);
    assert_eq!((back.start, back.count), (3, 4));
}

#[test]
fn unify_identical_concrete_types_gives_identity() {
    let mut reg = TypeRegistry::new();
    let int_t = reg.add_type(Type::Int);
    let vec_t = reg.add_type(Type::Vect(int_t, 3));
    let r = reg.unify(vec_t, vec_t).unwrap();
    assert_eq!(r.bindings.len(), 0);
    let r2 = reg.unify(int_t, int_t).unwrap();
    assert_eq!(r2.bindings.len(), 0);
}

#[test]
fn unify_mismatched_tags_fails() {
    let mut reg = TypeRegistry::new();
    let int_t = reg.add_type(Type::Int);
    let str_t = reg.add_type(Type::Str);
    assert_eq!(reg.unify(int_t, str_t), Err(TypeError::TypeMismatch));
}

#[test]
fn unify_dimension_mismatch_fails() {
    let mut reg = TypeRegistry::new();
    let int_t = reg.add_type(Type::Int);
    let v3 = reg.add_type(Type::Vect(int_t, 3));
    let v4 = reg.add_type(Type::Vect(int_t, 4));
    assert_eq!(reg.unify(v3, v4), Err(TypeError::TypeMismatch));
}

#[test]
fn unify_tuple_arity_and_elements() {
    let mut reg = TypeRegistry::new();
    let int_t = reg.add_type(Type::Int);
    let str_t = reg.add_type(Type::Str);
    // contiguous runs of element positions
    let a0 = reg.add_type(Type::Int);
    let a1 = reg.add_type(Type::Str);
    let tup_a = reg.add_type(Type::Tuple(a0, 2));
    let b0 = reg.add_type(Type::Int);
    let b1 = reg.add_type(Type::Str);
    let tup_b = reg.add_type(Type::Tuple(b0, 2));
    assert!(reg.unify(tup_a, tup_b).is_ok());
    let c0 = reg.add_type(Type::Str);
    let c1 = reg.add_type(Type::Str);
    let tup_c = reg.add_type(Type::Tuple(c0, 2));
    assert_eq!(reg.unify(tup_a, tup_c), Err(TypeError::TypeMismatch));
    let _ = (int_t, str_t, a1, b1, c1);
}

#[test]
fn unify_variable_binds_to_free_type() {
    let mut reg = TypeRegistry::new();
    let x = reg.fresh_variable();
    let int_t = reg.add_type(Type::Int);
    let r = reg.unify(x, int_t).unwrap();
    assert_eq!(r.bindings.len(), 1);
    assert_eq!(r.bindings[0].1, int_t);
}

#[test]
fn unify_occurs_check_reports_infinite_type() {
    let mut reg = TypeRegistry::new();
    let x = reg.fresh_variable();
    let stream_x = reg.add_type(Type::Stream(x));
    assert_eq!(reg.unify(x, stream_x), Err(TypeError::InfiniteType));
    // a variable against itself succeeds with nothing bound
    let r = reg.unify(x, x).unwrap();
    assert_eq!(r.bindings.len(), 0);
}

#[test]
fn unify_variables_on_both_sides() {
    let mut reg = TypeRegistry::new();
    let x = reg.fresh_variable();
    let y = reg.fresh_variable();
    let r = reg.unify(x, y).unwrap();
    assert_eq!(r.bindings.len(), 1);
}

/// Arity resolution determinism: `[(Many(Int)) -> Int, (Many(Float)) ->
/// Float]` with three `Int` ports picks the first overload; one `Float` and
/// one `Int` port match nothing.
#[test]
fn resolution_picks_unique_overload() {
    let mut reg = TypeRegistry::new();
    let int_t = reg.add_type(Type::Int);
    let float_t = reg.add_type(Type::Float);
    let ats = vec![AritiedType::Many(int_t), AritiedType::Many(float_t)];
    let sigs = vec![
        Signature { input: ManyIdx::VecIdx(vec_run(0, 1)), output: vec_run(int_t, 1) },
        Signature { input: ManyIdx::VecIdx(vec_run(1, 1)), output: vec_run(float_t, 1) },
    ];
    let cands: SetIdx<SignatureIdx> = set_run(0, 2);
    let ports = vec![int_t, int_t, int_t];
    let picked = resolve_signature(&mut reg, &ats, &sigs, cands, &ports).unwrap();
    assert_eq!(picked, 0);
    // the resolved output type is Int
    assert_eq!(reg.types[sigs[picked].output.start], Type::Int);
    let mixed = vec![float_t, int_t];
    assert_eq!(
        resolve_signature(&mut reg, &ats, &sigs, cands, &mixed),
        Err(ArityError::NoMatchingSignature)
    );
}

#[test]
fn resolution_allows_empty_many_slot() {
    let mut reg = TypeRegistry::new();
    let int_t = reg.add_type(Type::Int);
    let ats = vec![AritiedType::Many(int_t)];
    let sigs = vec![Signature {
        input: ManyIdx::VecIdx(vec_run(0, 1)),
        output: vec_run(int_t, 1),
    }];
    let ports: Vec<usize> = Vec::new();
    let picked = resolve_signature(&mut reg, &ats, &sigs, set_run(0, 1), &ports).unwrap();
    assert_eq!(picked, 0);
}

#[test]
fn resolution_unordered_ignores_port_order() {
    let mut reg = TypeRegistry::new();
    let int_t = reg.add_type(Type::Int);
    let float_t = reg.add_type(Type::Float);
    let ats = vec![AritiedType::Single(int_t), AritiedType::Single(float_t)];
    let unordered = vec![Signature {
        input: ManyIdx::SetIdx(set_run(0, 2)),
        output: vec_run(int_t, 1),
    }];
    let ordered = vec![Signature {
        input: ManyIdx::VecIdx(vec_run(0, 2)),
        output: vec_run(int_t, 1),
    }];
    let ports = vec![float_t, int_t];
    assert_eq!(
        resolve_signature(&mut reg, &ats, &unordered, set_run(0, 1), &ports),
        Ok(0)
    );
    assert_eq!(
        resolve_signature(&mut reg, &ats, &ordered, set_run(0, 1), &ports),
        Err(ArityError::NoMatchingSignature)
    );
}

/// Ambiguity detection: two structurally satisfiable signatures for the
/// same inputs report `AmbiguousOverload`, and the node's resolved slot
/// stays empty.
#[test]
fn ambiguous_overloads_are_reported_not_picked() {
    let mut pool = Pool::new();
    let int_t = pool.registry.add_type(Type::Int);
    let at = pool.add_aritied_type(AritiedType::Many(int_t));
    let s0 = pool.add_signature(Signature {
        input: ManyIdx::VecIdx(vec_run(at, 1)),
        output: vec_run(int_t, 1),
    });
    let _s1 = pool.add_signature(Signature {
        input: ManyIdx::VecIdx(vec_run(at, 1)),
        output: vec_run(int_t, 1),
    });
    let name = pool.add_name(String::from("add"));
    let node = pool
        .add_node(0, Idx::new(name), 1, 1, Some(set_run(s0, 2)))
        .unwrap();
    // the one input port carries an Int
    pool.set_input_type(0, at).unwrap();
    let r = pool.resolve_node(node);
    assert_eq!(r, Err(ArityError::AmbiguousOverload));
    assert!(pool.nodes[node].resolved.is_none());
    // and the output port stays unbound
    assert!(pool.outputs[0].aritied_type.is_none());
}

#[test]
fn resolution_through_node_picks_signature() {
    let mut pool = Pool::new();
    let int_t = pool.registry.add_type(Type::Int);
    let float_t = pool.registry.add_type(Type::Float);
    let at_int = pool.add_aritied_type(AritiedType::Many(int_t));
    let at_float = pool.add_aritied_type(AritiedType::Many(float_t));
    let s0 = pool.add_signature(Signature {
        input: ManyIdx::VecIdx(vec_run(at_int, 1)),
        output: vec_run(int_t, 1),
    });
    let _s1 = pool.add_signature(Signature {
        input: ManyIdx::VecIdx(vec_run(at_float, 1)),
        output: vec_run(float_t, 1),
    });
    let name = pool.add_name(String::from("add"));
    let node = pool
        .add_node(0, Idx::new(name), 3, 1, Some(set_run(s0, 2)))
        .unwrap();
    for p in 0..3 {
        pool.set_input_type(p, at_int).unwrap();
    }
    let r = pool.resolve_node(node).unwrap();
    assert_eq!(r, s0);
    assert_eq!(pool.nodes[node].resolved.map(|i| i.0), Some(s0));
    // the selected overload's output type populates the node's output port
    assert_eq!(pool.outputs[0].aritied_type.map(|i| i.0), Some(int_t));
    assert_eq!(pool.registry.types[int_t], Type::Int);
}

/// Acyclicity: a connect that would close a cycle is rejected and the graph
/// is unchanged, edge for edge.
#[test]
fn connect_rejects_cycles_without_any_change() {
    let mut pool = Pool::new();
    let name = pool.add_name(String::from("n"));
    let a = pool.add_node(0, Idx::new(name), 1, 1, None).unwrap();
    let b = pool.add_node(0, Idx::new(name), 1, 1, None).unwrap();
    // a.out -> b.in
    assert!(pool.connect(0, Port::OutputPort(0), Port::InputPort(1)).is_ok());
    let edges_before = pool.scopes[0].edge_count();
    let recs_before = pool.edges.len();
    // b.out -> a.in would close the cycle
    assert_eq!(
        pool.connect(0, Port::OutputPort(1), Port::InputPort(0)),
        Err(StructuralError::CycleError)
    );
    assert_eq!(pool.scopes[0].edge_count(), edges_before);
    assert_eq!(pool.edges.len(), recs_before);
    // a self-loop is a cycle of length one
    assert_eq!(
        pool.connect(0, Port::OutputPort(0), Port::InputPort(0)),
        Err(StructuralError::CycleError)
    );
    let _ = (a, b);
}

#[test]
fn connect_checks_direction_and_staleness() {
    let mut pool = Pool::new();
    let name = pool.add_name(String::from("n"));
    let _a = pool.add_node(0, Idx::new(name), 1, 1, None).unwrap();
    assert_eq!(
        pool.connect(0, Port::InputPort(0), Port::InputPort(0)),
        Err(StructuralError::ArityDirectionError)
    );
    assert_eq!(
        pool.connect(0, Port::OutputPort(0), Port::OutputPort(0)),
        Err(StructuralError::ArityDirectionError)
    );
    assert_eq!(
        pool.connect(0, Port::OutputPort(9), Port::InputPort(0)),
        Err(StructuralError::StaleIndex)
    );
}

/// A type mismatch on a connection marks the edge, it does not roll the
/// connection back.
#[test]
fn type_error_marks_edge_but_keeps_connection() {
    let mut pool = Pool::new();
    let int_t = pool.registry.add_type(Type::Int);
    let str_t = pool.registry.add_type(Type::Str);
    let at_str = pool.add_aritied_type(AritiedType::Single(str_t));
    let name = pool.add_name(String::from("n"));
    let _a = pool.add_node(0, Idx::new(name), 0, 1, None).unwrap();
    let _b = pool.add_node(0, Idx::new(name), 1, 0, None).unwrap();
    pool.set_output_type(0, int_t).unwrap();
    pool.set_input_type(0, at_str).unwrap();
    assert!(pool.connect(0, Port::OutputPort(0), Port::InputPort(0)).is_ok());
    assert_eq!(pool.edges.len(), 1);
    assert!(pool.edges[0].type_error);
    assert_eq!(pool.scopes[0].edge_count(), 1);
    // matching types leave the flag clear
    let mut pool2 = Pool::new();
    let int2 = pool2.registry.add_type(Type::Int);
    let at_int = pool2.add_aritied_type(AritiedType::Single(int2));
    let name2 = pool2.add_name(String::from("n"));
    let _c = pool2.add_node(0, Idx::new(name2), 0, 1, None).unwrap();
    let _d = pool2.add_node(0, Idx::new(name2), 1, 0, None).unwrap();
    pool2.set_output_type(0, int2).unwrap();
    pool2.set_input_type(0, at_int).unwrap();
    assert!(pool2.connect(0, Port::OutputPort(0), Port::InputPort(0)).is_ok());
    assert!(!pool2.edges[0].type_error);
}

/// Lambda capture isolation: a lambda's port takes the declaring node's
/// port type via capture, while no port of the lambda's scope can be wired
/// from outside by index.
#[test]
fn lambda_scope_is_isolated_but_captures_types() {
    let mut pool = Pool::new();
    let int_t = pool.registry.add_type(Type::Int);
    let at_int = pool.add_aritied_type(AritiedType::Single(int_t));
    let name = pool.add_name(String::from("outer"));
    let _outer = pool.add_node(0, Idx::new(name), 1, 1, None).unwrap();
    let lambda_scope = pool.add_scope();
    let _inner = pool.add_node(lambda_scope, Idx::new(name), 1, 1, None).unwrap();
    // no sibling outside the lambda can address its ports
    assert_eq!(
        pool.connect(0, Port::OutputPort(0), Port::InputPort(1)),
        Err(StructuralError::StaleIndex)
    );
    assert_eq!(
        pool.connect(lambda_scope, Port::OutputPort(0), Port::InputPort(1)),
        Err(StructuralError::StaleIndex)
    );
    // the capture hands the outer port's type to the lambda's input
    pool.set_input_type(0, at_int).unwrap();
    assert!(pool.capture_into_lambda(0, 1).is_ok());
    assert_eq!(pool.inputs[1].aritied_type.map(|i| i.0), Some(at_int));
    assert!(pool.inputs[1].belongs_to_lambda);
}

#[test]
fn delete_tombstones_without_renumbering() {
    let mut pool = Pool::new();
    let name = pool.add_name(String::from("n"));
    let a = pool.add_node(0, Idx::new(name), 1, 1, None).unwrap();
    let b = pool.add_node(0, Idx::new(name), 1, 1, None).unwrap();
    assert!(pool.delete_node(a).is_ok());
    assert_eq!(pool.nodes.len(), 2);
    assert!(!pool.nodes[a].alive);
    assert!(pool.nodes[b].alive);
    assert_eq!(pool.delete_node(99), Err(StructuralError::StaleIndex));
}

#[test]
fn datetime_arena_round_trips_timestamps() {
    let mut arena = DateTimeArena::new();
    assert!(arena.push_timestamp(1_000_000, 250));
    assert!(arena.push_timestamp(-5, 0));
    assert_eq!(arena.count(), 2);
    assert_eq!(arena.get_timestamp(0), Some((1_000_000, 250)));
    assert_eq!(arena.get_timestamp(1), Some((-5, 0)));
    assert_eq!(arena.get_timestamp(2), None);
    // the same instant through chrono directly
    let dt = chrono::DateTime::from_timestamp(1_000_000, 250).unwrap();
    assert_eq!(dt.timestamp(), 1_000_000);
    assert_eq!(dt.timestamp_subsec_nanos(), 250);
}

#[test]
fn connected_ports_resolve_after_connect() {
    // an end-to-end edit: add nodes, connect, then resolve the consumer
    let mut pool = Pool::new();
    let int_t = pool.registry.add_type(Type::Int);
    let at_int = pool.add_aritied_type(AritiedType::Many(int_t));
    let s0 = pool.add_signature(Signature {
        input: ManyIdx::VecIdx(vec_run(at_int, 1)),
        output: vec_run(int_t, 1),
    });
    let name = pool.add_name(String::from("sum"));
    let src = pool.add_node(0, Idx::new(name), 0, 1, None).unwrap();
    let sum = pool.add_node(0, Idx::new(name), 2, 1, Some(set_run(s0, 1))).unwrap();
    pool.set_output_type(0, int_t).unwrap();
    pool.set_input_type(0, at_int).unwrap();
    pool.set_input_type(1, at_int).unwrap();
    assert!(pool.connect(0, Port::OutputPort(0), Port::InputPort(0)).is_ok());
    assert!(!pool.edges[0].type_error);
    let r = pool.resolve_node(sum).unwrap();
    assert_eq!(r, s0);
    // sum's own output port (arena position 1) now carries Int
    assert_eq!(pool.outputs[1].aritied_type.map(|i| i.0), Some(int_t));
    let _ = src;
}

#[test]
fn connect_and_resolve_updates_the_consumer() {
    let mut pool = Pool::new();
    let int_t = pool.registry.add_type(Type::Int);
    let at_int = pool.add_aritied_type(AritiedType::Many(int_t));
    let s0 = pool.add_signature(Signature {
        input: ManyIdx::VecIdx(vec_run(at_int, 1)),
        output: vec_run(int_t, 1),
    });
    let name = pool.add_name(String::from("sum"));
    let _src = pool.add_node(0, Idx::new(name), 0, 1, None).unwrap();
    let sum = pool.add_node(0, Idx::new(name), 2, 1, Some(set_run(s0, 1))).unwrap();
    pool.set_output_type(0, int_t).unwrap();
    pool.set_input_type(0, at_int).unwrap();
    pool.set_input_type(1, at_int).unwrap();
    let out = pool
        .connect_and_resolve(0, Port::OutputPort(0), Port::InputPort(0))
        .unwrap();
    assert_eq!(out, Some(Ok(s0)));
    assert_eq!(pool.nodes[sum].resolved.map(|i| i.0), Some(s0));
    assert_eq!(pool.outputs[1].aritied_type.map(|i| i.0), Some(int_t));
}

/// After a disconnect the edge is gone from the graphs: re-wiring in the
/// opposite direction is legal again.
#[test]
fn disconnect_frees_the_graph_for_rewiring() {
    let mut pool = Pool::new();
    let name = pool.add_name(String::from("n"));
    let _a = pool.add_node(0, Idx::new(name), 1, 1, None).unwrap();
    let _b = pool.add_node(0, Idx::new(name), 1, 1, None).unwrap();
    assert!(pool.connect(0, Port::OutputPort(0), Port::InputPort(1)).is_ok());
    assert_eq!(pool.scopes[0].edge_count(), 1);
    assert!(pool.disconnect(0).is_ok());
    assert!(pool.edges[0].removed);
    assert_eq!(pool.scopes[0].edge_count(), 0);
    // the reverse connection no longer closes a cycle
    assert!(pool.connect(0, Port::OutputPort(1), Port::InputPort(0)).is_ok());
    // a second disconnect of the same record is stale
    assert_eq!(pool.disconnect(0), Err(StructuralError::StaleIndex));
}

#[test]
fn setters_check_bounds_and_lookup_respects_tombstones() {
    let mut pool = Pool::new();
    let name = pool.add_name(String::from("n"));
    let n = pool.add_node(0, Idx::new(name), 1, 1, None).unwrap();
    assert_eq!(pool.set_input_type(9, 0), Err(StructuralError::StaleIndex));
    assert_eq!(pool.set_output_type(0, 5), Err(StructuralError::StaleIndex));
    let c = pool.add_const(flowgraph::model::Const::Int(7));
    assert!(pool.set_node_consts(n, vec_run(c, 1)).is_ok());
    assert!(pool.get_node(n).is_some());
    pool.delete_node(n).unwrap();
    assert!(pool.get_node(n).is_none());
    assert!(pool.get_node(42).is_none());
}

#[test]
fn disconnect_tombstones_the_edge_record() {
    let mut pool = Pool::new();
    let name = pool.add_name(String::from("n"));
    let _a = pool.add_node(0, Idx::new(name), 1, 1, None).unwrap();
    let _b = pool.add_node(0, Idx::new(name), 1, 1, None).unwrap();
    assert!(pool.connect(0, Port::OutputPort(0), Port::InputPort(1)).is_ok());
    assert!(pool.disconnect(0).is_ok());
    assert_eq!(pool.edges.len(), 1);
    assert!(pool.edges[0].removed);
    assert_eq!(pool.disconnect(7), Err(StructuralError::StaleIndex));
}

#[test]
fn lambda_scopes_form_a_strict_tree() {
    let mut pool = Pool::new();
    let name = pool.add_name(String::from("map"));
    let n = pool.add_node(0, Idx::new(name), 1, 1, None).unwrap();
    assert_eq!(pool.current_scope(), 0);
    assert_eq!(pool.enter_lambda(n), Err(StructuralError::StaleIndex));
    let body = pool.attach_lambda(n).unwrap();
    assert_eq!(pool.enter_lambda(n), Ok(body));
    assert_eq!(pool.current_scope(), body);
    assert!(pool.exit_lambda().is_ok());
    assert_eq!(pool.current_scope(), 0);
    assert_eq!(pool.exit_lambda(), Err(StructuralError::StaleIndex));
}
