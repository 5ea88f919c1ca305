//! A dynamically checked shared/exclusive access cell that keeps, for every
//! outstanding access, a record in a ledger together with a symbolic snapshot
//! of the call stack that created it, so that a conflicting access can be
//! reported with the origin of the accesses that block it.

pub mod cell;
pub mod ledger;
pub mod trace;

pub use cell::{
    ref_filter_map, ref_mut_filter_map, BorrowError, BorrowMutError, Ref, RefCell, RefMut,
};
pub use ledger::{AccessKind, BorrowData, BorrowRecord, Occupancy};
pub use trace::{capture_stack, is_machinery, render_frame, render_trace, Frame, StackTrace,
    SymbolInfo};
