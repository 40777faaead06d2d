//! Lowering of checked integer arithmetic (add, sub, mul with overflow
//! detection) into instruction trees for a virtual machine whose native
//! word sizes differ by width class.
//!
//! The library models the target's instruction-tree algebra as its own
//! node type, gives it an exact evaluation semantics, and proves that the
//! trees built by the lowering entry points compute the wrapped result and
//! the correct overflow flag for every supported width and signedness.

pub mod consts;
pub mod eval;
pub mod lower;
pub mod node;
pub mod sem;
pub mod ty;
