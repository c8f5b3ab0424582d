//! String values for a scripting-language runtime's object model: string
//! handles over an explicit storage arena, copy-avoiding substring views,
//! content interning for identity equality, and an amortized in-place append
//! path whose aliasing safety is proved rather than assumed.
//!
//! The runtime's garbage-collected heap is modelled by [`arena::Arena`]: a
//! record index plays the role of an allocation address, and an offset into a
//! record's buffer plays the role of a raw pointer into it. Every operation
//! states how it changes the arena, and the central safety theorem
//! ([`arena::Arena::lemma_extension_preserves_views`]) shows that no
//! operation ever disturbs the content seen through a previously created
//! handle.

pub mod arena;
pub mod atom;
pub mod avm_string;
pub mod repr;
pub mod security;
pub mod sound;
pub mod utf8;
pub mod wstring;
