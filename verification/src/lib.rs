//! A virtual filesystem core: a tree of directories and files whose
//! metadata lives in a relational, in-memory backing store. The library
//! holds the verified mapping layer — identity allocation, path
//! resolution, paginated enumeration with resumable cursors, attribute
//! synthesis and the one-time initialization transition — and is bound to
//! a mount transport by a thin adapter outside it.

pub mod database;
pub mod fs;
