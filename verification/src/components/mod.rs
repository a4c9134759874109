//! The launcher window's parts: the favorites bar, the results list and the
//! search engine behind it.
pub mod fav;
pub mod list;
pub mod search;
