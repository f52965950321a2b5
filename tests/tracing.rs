use js_trace::traceable::{JSTraceable, NoTrace};
use js_trace::tracer::{
    trace_jsval, trace_object, trace_reflector, trace_script, trace_string, Edge, Heap,
    JSObjectRef, JSScriptRef, JSStringRef, JSTracer, JSVal, Reflector,
};
use std::collections::{BTreeMap, HashMap, HashSet, VecDeque};
use std::rc::Rc;
use std::sync::Arc;

fn obj(n: u64) -> Heap<JSObjectRef> {
    Heap::new(JSObjectRef(n))
}

fn traced<T: JSTraceable + ?Sized>(value: &T) -> Vec<Edge> {
    let mut trc = JSTracer::new();
    value.trace(&mut trc);
    trc.edges().clone()
}

#[test]
fn object_handle_reports_its_object() {
    assert_eq!(traced(&obj(7)), vec![Edge::Object(JSObjectRef(7))]);
}

#[test]
fn null_handles_report_nothing() {
    assert!(traced(&obj(0)).is_empty());
    assert!(traced(&Heap::new(JSStringRef(0))).is_empty());
    assert!(traced(&Heap::new(JSScriptRef(0))).is_empty());
}

#[test]
fn string_and_script_handles_report_their_kind() {
    assert_eq!(traced(&Heap::new(JSStringRef(3))), vec![Edge::String(JSStringRef(3))]);
    assert_eq!(traced(&Heap::new(JSScriptRef(4))), vec![Edge::Script(JSScriptRef(4))]);
}

#[test]
fn value_handle_reports_only_markable_values() {
    assert_eq!(traced(&Heap::new(JSVal::Object(9))), vec![Edge::Value(JSVal::Object(9))]);
    assert_eq!(traced(&Heap::new(JSVal::String(2))), vec![Edge::Value(JSVal::String(2))]);
    assert_eq!(traced(&Heap::new(JSVal::Symbol(5))), vec![Edge::Value(JSVal::Symbol(5))]);
    assert_eq!(traced(&Heap::new(JSVal::BigInt(6))), vec![Edge::Value(JSVal::BigInt(6))]);
    assert!(traced(&Heap::new(JSVal::Int32(42))).is_empty());
    assert!(traced(&Heap::new(JSVal::Undefined)).is_empty());
    assert!(traced(&Heap::new(JSVal::Null)).is_empty());
    assert!(traced(&Heap::new(JSVal::Boolean(true))).is_empty());
    assert!(traced(&Heap::new(JSVal::Double(0x4000_0000_0000_0000))).is_empty());
}

#[test]
fn heap_set_changes_what_is_reported() {
    let mut h = obj(0);
    assert!(traced(&h).is_empty());
    h.set(JSObjectRef(11));
    assert_eq!(h.get(), JSObjectRef(11));
    assert_eq!(traced(&h), vec![Edge::Object(JSObjectRef(11))]);
}

#[test]
fn trace_functions_report_one_edge_each() {
    let mut trc = JSTracer::new();
    trace_object(&mut trc, "o", &obj(1));
    trace_string(&mut trc, "s", &Heap::new(JSStringRef(2)));
    trace_script(&mut trc, "c", &Heap::new(JSScriptRef(3)));
    trace_jsval(&mut trc, "v", &Heap::new(JSVal::Object(4)));
    trace_jsval(&mut trc, "i", &Heap::new(JSVal::Int32(5)));
    trace_reflector(&mut trc, "r", &Reflector::new(JSObjectRef(6)));
    assert_eq!(
        trc.edges().clone(),
        vec![
            Edge::Object(JSObjectRef(1)),
            Edge::String(JSStringRef(2)),
            Edge::Script(JSScriptRef(3)),
            Edge::Value(JSVal::Object(4)),
            Edge::Object(JSObjectRef(6)),
        ]
    );
    assert_eq!(trc.len(), 5);
    trc.clear();
    assert_eq!(trc.len(), 0);
}

#[test]
fn reflector_holds_its_object() {
    assert_eq!(Reflector::new(JSObjectRef(8)).get_jsobject(), JSObjectRef(8));
}

#[test]
fn tracing_appends_to_what_was_recorded() {
    let mut trc = JSTracer::new();
    trc.on_object_edge(JSObjectRef(100));
    obj(5).trace(&mut trc);
    assert_eq!(
        trc.edges().clone(),
        vec![Edge::Object(JSObjectRef(100)), Edge::Object(JSObjectRef(5))]
    );
}

#[test]
fn primitives_report_nothing() {
    assert!(traced(&true).is_empty());
    assert!(traced(&7u32).is_empty());
    assert!(traced(&-3i64).is_empty());
    assert!(traced(&'c').is_empty());
    assert!(traced(&String::from("text")).is_empty());
    assert!(traced(&()).is_empty());
}

#[test]
fn sequences_report_every_element_in_order() {
    let v = vec![obj(1), obj(0), obj(3)];
    let expected = vec![Edge::Object(JSObjectRef(1)), Edge::Object(JSObjectRef(3))];
    assert_eq!(traced(&v), expected);
    assert_eq!(traced(&v[..]), expected);
    let d: VecDeque<Heap<JSObjectRef>> = vec![obj(1), obj(0), obj(3)].into_iter().collect();
    assert_eq!(traced(&d), expected);
    let a = [obj(1), obj(0), obj(3)];
    assert_eq!(traced(&a), expected);
}

#[test]
fn empty_sequence_reports_nothing() {
    let v: Vec<Heap<JSObjectRef>> = Vec::new();
    assert!(traced(&v).is_empty());
}

#[test]
fn pointers_option_and_result_forward_to_their_contents() {
    assert_eq!(traced(&Box::new(obj(1))), vec![Edge::Object(JSObjectRef(1))]);
    assert_eq!(traced(&Rc::new(obj(2))), vec![Edge::Object(JSObjectRef(2))]);
    assert_eq!(traced(&Arc::new(obj(3))), vec![Edge::Object(JSObjectRef(3))]);
    assert_eq!(traced(&Some(obj(4))), vec![Edge::Object(JSObjectRef(4))]);
    assert!(traced(&None::<Heap<JSObjectRef>>).is_empty());
    let ok: Result<Heap<JSObjectRef>, Heap<JSStringRef>> = Ok(obj(5));
    let err: Result<Heap<JSObjectRef>, Heap<JSStringRef>> = Err(Heap::new(JSStringRef(6)));
    assert_eq!(traced(&ok), vec![Edge::Object(JSObjectRef(5))]);
    assert_eq!(traced(&err), vec![Edge::String(JSStringRef(6))]);
}

#[test]
fn tuples_report_every_component() {
    assert_eq!(
        traced(&(obj(1), Heap::new(JSStringRef(2)))),
        vec![Edge::Object(JSObjectRef(1)), Edge::String(JSStringRef(2))]
    );
    assert_eq!(traced(&(obj(1), 5u8, obj(3))).len(), 2);
    assert_eq!(
        traced(&(obj(1), obj(2), obj(3), Heap::new(JSVal::Object(4)))),
        vec![
            Edge::Object(JSObjectRef(1)),
            Edge::Object(JSObjectRef(2)),
            Edge::Object(JSObjectRef(3)),
            Edge::Value(JSVal::Object(4)),
        ]
    );
}

#[test]
fn hash_map_reports_keys_and_values() {
    let mut m: HashMap<u64, Heap<JSObjectRef>> = HashMap::new();
    m.insert(1, obj(10));
    m.insert(2, obj(20));
    let mut edges = traced(&m);
    edges.sort_by_key(|e| match e {
        Edge::Object(o) => o.0,
        _ => u64::MAX,
    });
    assert_eq!(edges, vec![Edge::Object(JSObjectRef(10)), Edge::Object(JSObjectRef(20))]);
}

#[test]
fn hash_set_and_ordered_map_report_every_member() {
    let s: HashSet<u32> = [1, 2, 3].into_iter().collect();
    assert!(traced(&s).is_empty());
    let mut b: BTreeMap<u32, Heap<JSObjectRef>> = BTreeMap::new();
    b.insert(2, obj(20));
    b.insert(1, obj(10));
    b.insert(3, obj(0));
    assert_eq!(traced(&b), vec![Edge::Object(JSObjectRef(10)), Edge::Object(JSObjectRef(20))]);
}

#[test]
fn nested_composite_reports_every_present_handle() {
    let v: Vec<Option<Rc<[Heap<JSObjectRef>; 3]>>> = vec![
        Some(Rc::new([obj(1), obj(2), obj(3)])),
        None,
        Some(Rc::new([obj(4), obj(0), obj(6)])),
    ];
    assert_eq!(
        traced(&v),
        vec![
            Edge::Object(JSObjectRef(1)),
            Edge::Object(JSObjectRef(2)),
            Edge::Object(JSObjectRef(3)),
            Edge::Object(JSObjectRef(4)),
            Edge::Object(JSObjectRef(6)),
        ]
    );
}

#[test]
fn no_trace_reports_nothing_even_around_handles() {
    assert!(traced(&NoTrace(obj(7))).is_empty());
    assert!(traced(&vec![NoTrace(obj(1)), NoTrace(obj(2))]).is_empty());
    assert_eq!(traced(&(NoTrace(obj(1)), obj(2))), vec![Edge::Object(JSObjectRef(2))]);
    let wrapped: NoTrace<u32> = NoTrace::from(5);
    assert_eq!(wrapped, NoTrace(5));
}

#[test]
fn null_handle_reports_nothing_through_many_layers() {
    let deep = vec![Some(Box::new(Rc::new(vec![(obj(0), Heap::new(JSStringRef(0)))])))];
    assert!(traced(&deep).is_empty());
    let arr: [Option<Heap<JSObjectRef>>; 2] = [Some(obj(0)), None];
    assert!(traced(&Arc::new(arr)).is_empty());
}

#[test]
fn string_slices_report_nothing() {
    let s: &str = "plain";
    assert!(traced(&s).is_empty());
    assert!(traced(&vec![("a", obj(0))]).is_empty());
}
