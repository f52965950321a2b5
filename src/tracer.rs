//! The collector's tracing visitor and the handle slots that report edges to it.
use vstd::prelude::*;

verus! {

/// A reference to a collector-managed object; `0` is the null reference.
#[derive(Clone, Copy, Debug, PartialEq, Eq, Hash, Structural)]
pub struct JSObjectRef(pub u64);

/// A reference to a collector-managed string; `0` is the null reference.
#[derive(Clone, Copy, Debug, PartialEq, Eq, Hash, Structural)]
pub struct JSStringRef(pub u64);

/// A reference to a collector-managed compiled script; `0` is the null reference.
#[derive(Clone, Copy, Debug, PartialEq, Eq, Hash, Structural)]
pub struct JSScriptRef(pub u64);

impl JSObjectRef {
    pub fn is_null(&self) -> (r: bool)
        ensures
            r == (self.0 == 0),
    {
        self.0 == 0
    }
}

impl JSStringRef {
    pub fn is_null(&self) -> (r: bool)
        ensures
            r == (self.0 == 0),
    {
        self.0 == 0
    }
}

impl JSScriptRef {
    pub fn is_null(&self) -> (r: bool)
        ensures
            r == (self.0 == 0),
    {
        self.0 == 0
    }
}

/// A tagged script value. Immediates (undefined, null, booleans, numbers)
/// carry no reference; the other variants carry the address of a
/// collector-managed thing. A double is held by its bit pattern.
#[derive(Clone, Copy, Debug, PartialEq, Eq, Structural)]
pub enum JSVal {
    Undefined,
    Null,
    Boolean(bool),
    Int32(i32),
    Double(u64),
    String(u64),
    Symbol(u64),
    BigInt(u64),
    Object(u64),
}

impl JSVal {
    /// Whether the representation can encode a reference into the collector's heap.
    pub open spec fn spec_is_markable(&self) -> bool {
        match self {
            JSVal::String(_) | JSVal::Symbol(_) | JSVal::BigInt(_) | JSVal::Object(_) => true,
            _ => false,
        }
    }

    #[verifier::when_used_as_spec(spec_is_markable)]
    pub fn is_markable(&self) -> (r: bool)
        ensures
            r == self.spec_is_markable(),
    {
        match self {
            JSVal::String(_) | JSVal::Symbol(_) | JSVal::BigInt(_) | JSVal::Object(_) => true,
            _ => false,
        }
    }
}

/// One edge reported to the collector, by kind.
#[derive(Clone, Copy, Debug, PartialEq, Eq, Structural)]
pub enum Edge {
    Object(JSObjectRef),
    String(JSStringRef),
    Script(JSScriptRef),
    Value(JSVal),
}

/// The collector's visitor for one trace pass: it receives edges of four
/// kinds, and keeps them in the order in which they were reported.
pub struct JSTracer {
    edges: Vec<Edge>,
}

impl View for JSTracer {
    type V = Seq<Edge>;

    closed spec fn view(&self) -> Seq<Edge> {
        self.edges@
    }
}

impl JSTracer {
    /// A visitor that has recorded nothing yet.
    pub fn new() -> (r: JSTracer)
        ensures
            r@ == Seq::<Edge>::empty(),
    {
        JSTracer { edges: Vec::new() }
    }

    /// Records an edge to an object.
    pub fn on_object_edge(&mut self, obj: JSObjectRef)
        ensures
            final(self)@ == old(self)@.push(Edge::Object(obj)),
    {
        self.edges.push(Edge::Object(obj));
    }

    /// Records an edge to a string.
    pub fn on_string_edge(&mut self, s: JSStringRef)
        ensures
            final(self)@ == old(self)@.push(Edge::String(s)),
    {
        self.edges.push(Edge::String(s));
    }

    /// Records an edge to a compiled script.
    pub fn on_script_edge(&mut self, script: JSScriptRef)
        ensures
            final(self)@ == old(self)@.push(Edge::Script(script)),
    {
        self.edges.push(Edge::Script(script));
    }

    /// Records an edge held by a tagged value.
    pub fn on_value_edge(&mut self, val: JSVal)
        ensures
            final(self)@ == old(self)@.push(Edge::Value(val)),
    {
        self.edges.push(Edge::Value(val));
    }

    /// The number of edges recorded so far.
    pub fn len(&self) -> (r: usize)
        ensures
            r == self@.len(),
    {
        self.edges.len()
    }

    /// The edges recorded so far, in the order in which they were reported.
    pub fn edges(&self) -> (r: &Vec<Edge>)
        ensures
            r@ == self@,
    {
        &self.edges
    }

    /// Forgets every recorded edge, ready for the next pass.
    pub fn clear(&mut self)
        ensures
            final(self)@ == Seq::<Edge>::empty(),
    {
        self.edges.clear();
    }
}

/// A slot that holds a value owned by the collector. The kind of the value is
/// fixed by `T`: one of [`JSObjectRef`], [`JSStringRef`], [`JSScriptRef`] or
/// [`JSVal`].
#[derive(Debug, PartialEq, Eq, Hash)]
pub struct Heap<T> {
    ptr: T,
}

impl<T: Copy> Heap<T> {
    /// The value held in the slot.
    pub closed spec fn spec_get(&self) -> T {
        self.ptr
    }

    /// A slot holding `v`.
    pub fn new(v: T) -> (r: Heap<T>)
        ensures
            r.spec_get() == v,
    {
        Heap { ptr: v }
    }

    #[verifier::when_used_as_spec(spec_get)]
    pub fn get(&self) -> (r: T)
        ensures
            r == self.spec_get(),
    {
        self.ptr
    }

    /// Stores `v` in the slot.
    pub fn set(&mut self, v: T)
        ensures
            final(self).spec_get() == v,
    {
        self.ptr = v;
    }
}

/// Reports the object in `obj` to the visitor, whether or not it is null.
pub fn trace_object(tracer: &mut JSTracer, _description: &str, obj: &Heap<JSObjectRef>)
    ensures
        final(tracer)@ == old(tracer)@.push(Edge::Object(obj.get())),
{
    tracer.on_object_edge(obj.get());
}

/// Reports the string in `s` to the visitor, whether or not it is null.
pub fn trace_string(tracer: &mut JSTracer, _description: &str, s: &Heap<JSStringRef>)
    ensures
        final(tracer)@ == old(tracer)@.push(Edge::String(s.get())),
{
    tracer.on_string_edge(s.get());
}

/// Reports the script in `script` to the visitor, whether or not it is null.
pub fn trace_script(tracer: &mut JSTracer, _description: &str, script: &Heap<JSScriptRef>)
    ensures
        final(tracer)@ == old(tracer)@.push(Edge::Script(script.get())),
{
    tracer.on_script_edge(script.get());
}

/// Reports the value in `val` to the visitor if it is markable; an
/// immediate is skipped.
pub fn trace_jsval(tracer: &mut JSTracer, _description: &str, val: &Heap<JSVal>)
    ensures
        final(tracer)@ == if val.get().is_markable() {
            old(tracer)@.push(Edge::Value(val.get()))
        } else {
            old(tracer)@
        },
{
    if !val.get().is_markable() {
        return;
    }
    tracer.on_value_edge(val.get());
}

/// The native half of a managed object: the slot that holds its object.
pub struct Reflector {
    object: Heap<JSObjectRef>,
}

impl Reflector {
    /// A reflector for `obj`.
    pub fn new(obj: JSObjectRef) -> (r: Reflector)
        ensures
            r.rootable().get() == obj,
    {
        Reflector { object: Heap::new(obj) }
    }

    /// The slot that holds the reflector's object.
    pub closed spec fn rootable(&self) -> &Heap<JSObjectRef> {
        &self.object
    }

    /// The object of this reflector.
    pub fn get_jsobject(&self) -> (r: JSObjectRef)
        ensures
            r == self.rootable().get(),
    {
        self.object.get()
    }
}

/// Reports the object held by `reflector` to the visitor.
pub fn trace_reflector(tracer: &mut JSTracer, description: &str, reflector: &Reflector)
    ensures
        final(tracer)@ == old(tracer)@.push(Edge::Object(reflector.rootable().get())),
{
    trace_object(tracer, description, &reflector.object)
}

} // verus!
