//! The plain records that agents report.

use vstd::prelude::*;

verus! {

/// One open tab of a browser on a student's workstation.
#[derive(Debug)]
pub struct BrowserTab {
    pub browser: String,
    pub title: String,
    pub url: String,
}

} // verus!
