//! The values of the settings that a configuration leaves out.

use vstd::prelude::*;
use crate::config::SwapStrategy;

verus! {

/// The schema version of a configuration that names none.
pub fn version() -> (r: String)
    ensures
        r@ == "1.0"@,
{
    "1.0".to_owned()
}

/// The version of the HTMX library to load.
pub fn htmx_version() -> (r: String)
    ensures
        r@ == "1.9.10"@,
{
    "1.9.10".to_owned()
}

/// Whether links are boosted.
pub fn boost() -> (r: bool)
    ensures
        r,
{
    true
}

/// How fetched content is swapped in.
pub fn swap_strategy() -> (r: SwapStrategy)
    ensures
        r == SwapStrategy::InnerHTML,
{
    SwapStrategy::InnerHTML
}

/// The selector of the element that fetched content goes to.
pub fn target() -> (r: String)
    ensures
        r@ == "#content"@,
{
    "#content".to_owned()
}

/// Whether navigation pushes the URL.
pub fn push_url() -> (r: bool)
    ensures
        r,
{
    true
}

} // verus!
