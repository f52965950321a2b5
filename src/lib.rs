//! Tracing and stack-rooting support for native data that holds references
//! into a host-managed, tracing garbage collector.
//!
//! * [`tracer`]: the collector's visitor, its four kinds of edge, and the
//!   handle slots that record them.
//! * [`traceable`]: the `JSTraceable` capability and its propagation through
//!   native composite types, plus the `NoTrace` escape hatch.
//! * [`traced_values`]: a hash map whose keys are never traced.
//! * [`rooting`]: the per-thread root registry and the scoped root guards.
//! * [`snapshot`]: pixel format and alpha mode descriptions of image data.
//! * [`underlying_source`]: the byte queue behind a native readable stream.
pub mod tracer;
pub mod traceable;
pub mod traced_values;
pub mod rooting;
pub mod snapshot;
pub mod underlying_source;
