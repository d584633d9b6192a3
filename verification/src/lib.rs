//! A verified string representation that can be handed across a foreign
//! calling convention boundary: a borrowed UTF-8 view, a plain wide pointer
//! used to cross the boundary, and an owned growable buffer that carries its
//! own destructor marker so the correct allocator always frees it.
//!
//! Around the core stand a few small collaborators: a stack-bounded string
//! buffer, a byte-stream UTF-8 character decoder, a bounded prefetch queue,
//! well-known directory resolution, and fixed-size matrix arithmetic.

pub mod dirs;
pub mod fetch;
pub mod ffi;
pub mod growth;
pub mod matrix;
pub mod stack;
pub mod utf8;
