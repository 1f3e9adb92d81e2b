//! The store of a WebAssembly interpreter: what an embedder allocates through it, how modules
//! are linked, and what instantiating and invoking them asks of the execution engine.

pub mod allocate;
pub mod error;
pub mod func;
pub mod heap;
pub mod init;
pub mod instance;
pub mod instantiate;
pub mod invoke;
pub mod laws;
pub mod link;
pub mod module;
pub mod prepare;
pub mod ready;
pub mod store;
pub mod text;
pub mod types;
pub mod valid;
pub mod value;

pub use vstd::hash_map::StringHashMap;
