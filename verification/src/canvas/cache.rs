//! The store in which the window system keeps what was last drawn of the
//! graph, so that it is drawn anew only after the graph has changed.

use vstd::prelude::*;

verus! {

/// `iced`'s cache of drawn geometry. Nothing of what it holds is visible
/// here: it is made, handed on and cleared.
#[verifier::external_type_specification]
#[verifier::external_body]
pub struct ExCache(iced::pure::widget::canvas::Cache);

/// Calls `Cache::new` of `iced`'s canvas, which makes a cache that holds
/// nothing. Nothing is claimed of the cache that comes back.
#[verifier::external_body]
pub(crate) fn new_cache() -> iced::pure::widget::canvas::Cache {
    iced::pure::widget::canvas::Cache::new()
}

/// Calls `Cache::clear` of `iced`'s canvas, which empties the cache and so
/// forces what it held to be drawn again when it is next used. Nothing is
/// claimed of the cache afterwards.
#[verifier::external_body]
pub(crate) fn clear_cache(cache: &mut iced::pure::widget::canvas::Cache) {
    cache.clear();
}

} // verus!
