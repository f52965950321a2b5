use js_trace::rooting::{trace_traceables, RootableVec, RootedTraceableBox, RootedTraceableSet, RootedVec};
use js_trace::tracer::{Edge, Heap, JSObjectRef, JSTracer};

fn obj(n: u64) -> Heap<JSObjectRef> {
    Heap::new(JSObjectRef(n))
}

fn trace_all(roots: &RootedTraceableSet<Heap<JSObjectRef>>) -> Vec<Edge> {
    let mut trc = JSTracer::new();
    trace_traceables(roots, &mut trc);
    trc.edges().clone()
}

#[test]
fn guards_register_and_deregister_in_scope_order() {
    let mut roots: RootedTraceableSet<Heap<JSObjectRef>> = RootedTraceableSet::new();
    let a = RootedTraceableBox::new(&mut roots, obj(1));
    let mut storage = RootableVec::new_unrooted();
    assert!(storage.is_empty());
    let b = RootedVec::new(&mut roots, storage);
    b.push(&mut roots, obj(2));
    b.push(&mut roots, obj(3));
    assert_eq!(roots.len(), 2);
    assert_eq!(trace_all(&roots).len(), 3);
    storage = b.unroot(&mut roots);
    assert!(storage.is_empty());
    assert_eq!(trace_all(&roots), vec![Edge::Object(JSObjectRef(1))]);
    let kept = a.unroot(&mut roots);
    assert_eq!(kept.get(), JSObjectRef(1));
    assert!(trace_all(&roots).is_empty());
    assert!(roots.is_empty());
}

#[test]
fn trace_all_twice_records_the_same_edges() {
    let mut roots: RootedTraceableSet<Heap<JSObjectRef>> = RootedTraceableSet::new();
    let a = RootedTraceableBox::new(&mut roots, obj(4));
    let b = RootedVec::from_iter(&mut roots, RootableVec::new_unrooted(), vec![obj(5), obj(0)]);
    let first = trace_all(&roots);
    let second = trace_all(&roots);
    assert_eq!(first, second);
    assert_eq!(first, vec![Edge::Object(JSObjectRef(4)), Edge::Object(JSObjectRef(5))]);
    b.unroot(&mut roots);
    a.unroot(&mut roots);
}

#[test]
fn interleaved_guards_leave_exactly_the_live_ones() {
    let mut roots: RootedTraceableSet<Heap<JSObjectRef>> = RootedTraceableSet::new();
    let a = RootedTraceableBox::new(&mut roots, obj(1));
    let b = RootedTraceableBox::new(&mut roots, obj(2));
    let c = RootedTraceableBox::from_box(&mut roots, Box::new(obj(3)));
    // Destroyed out of construction order.
    a.unroot(&mut roots);
    assert_eq!(
        trace_all(&roots),
        vec![Edge::Object(JSObjectRef(2)), Edge::Object(JSObjectRef(3))]
    );
    let d = RootedTraceableBox::new(&mut roots, obj(4));
    c.unroot(&mut roots);
    assert_eq!(
        trace_all(&roots),
        vec![Edge::Object(JSObjectRef(2)), Edge::Object(JSObjectRef(4))]
    );
    assert_eq!(roots.len(), 2);
    d.unroot(&mut roots);
    b.unroot(&mut roots);
    assert!(roots.is_empty());
}

#[test]
fn boxed_root_can_be_read_and_replaced() {
    let mut roots: RootedTraceableSet<Heap<JSObjectRef>> = RootedTraceableSet::new();
    let a = RootedTraceableBox::new(&mut roots, obj(1));
    assert_eq!(a.get(&roots).get(), JSObjectRef(1));
    a.set(&mut roots, obj(9));
    assert_eq!(a.get(&roots).get(), JSObjectRef(9));
    assert_eq!(trace_all(&roots), vec![Edge::Object(JSObjectRef(9))]);
    let v = a.unroot(&mut roots);
    assert_eq!(v.get(), JSObjectRef(9));
}

#[test]
fn rooted_vec_grows_while_rooted() {
    let mut roots: RootedTraceableSet<Heap<JSObjectRef>> = RootedTraceableSet::new();
    let v = RootedVec::from_iter(&mut roots, RootableVec::new_unrooted(), vec![obj(1)]);
    v.push(&mut roots, obj(2));
    v.extend(&mut roots, vec![obj(3), obj(4)]);
    let ids: Vec<JSObjectRef> = v.get(&roots).iter().map(|h| h.get()).collect();
    assert_eq!(ids, vec![JSObjectRef(1), JSObjectRef(2), JSObjectRef(3), JSObjectRef(4)]);
    assert_eq!(roots.len(), 1);
    assert_eq!(trace_all(&roots).len(), 4);
    let storage = v.unroot(&mut roots);
    assert!(storage.is_empty());
    assert!(trace_all(&roots).is_empty());
}

#[test]
fn empty_registry_traces_nothing() {
    let roots: RootedTraceableSet<Heap<JSObjectRef>> = RootedTraceableSet::new();
    assert!(roots.is_empty());
    assert!(trace_all(&roots).is_empty());
}

#[test]
fn other_guards_are_untouched_by_updates() {
    let mut roots: RootedTraceableSet<Heap<JSObjectRef>> = RootedTraceableSet::new();
    let a = RootedTraceableBox::new(&mut roots, obj(1));
    let b = RootedVec::new(&mut roots, RootableVec::new_unrooted());
    let c = RootedTraceableBox::new(&mut roots, obj(3));
    b.extend(&mut roots, vec![obj(20), obj(21)]);
    c.set(&mut roots, obj(30));
    assert_eq!(a.get(&roots).get(), JSObjectRef(1));
    assert_eq!(b.get(&roots).len(), 2);
    assert_eq!(
        trace_all(&roots),
        vec![
            Edge::Object(JSObjectRef(1)),
            Edge::Object(JSObjectRef(20)),
            Edge::Object(JSObjectRef(21)),
            Edge::Object(JSObjectRef(30)),
        ]
    );
    b.unroot(&mut roots);
    assert_eq!(c.get(&roots).get(), JSObjectRef(30));
    c.unroot(&mut roots);
    a.unroot(&mut roots);
    assert!(roots.is_empty());
}
