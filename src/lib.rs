//! An incremental filter over shell history: a substring filter, pages of
//! matches with a cursor, and the picker state that ties them together.
pub mod filter;
pub mod history;
pub mod paging;
pub mod picker;
