//! The launcher's own palette.
use vstd::prelude::*;

verus! {

/// The launcher's colour scheme (its colours are given by the app).
pub struct LauncherTheme {}

} // verus!
