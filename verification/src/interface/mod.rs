//! The dialogue with the operator, as steps: what is asked next and what a
//! reply or a key changes. Whoever drives the dialogue reads the replies
//! and the keys from wherever they come.

pub mod ask;
pub mod select_list;

pub use select_list::select_from_list;
