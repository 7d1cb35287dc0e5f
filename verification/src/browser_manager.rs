//! The runtime's own view of the browser: whether a headless pool has been
//! set up. Pages are fetched by the browser module.
use vstd::prelude::*;
use crate::clock::{duration_secs, secs};
use crate::types::ContextPool;

verus! {

/// The runtime's browser pools, each present once set up.
pub struct BrowserManager {
    pub headless: Option<ContextPool>,
    pub headful: Option<ContextPool>,
}

/// The refusal of a search while no headless pool is set up.
pub open spec fn not_ready_message() -> Seq<char> {
    "浏览器模块未初始化，请确保 Chromium 已安装"@
}

/// The refusal of a search once the headless pool is set up: searching is
/// the browser module's work.
pub open spec fn not_implemented_message() -> Seq<char> {
    "浏览器搜索功能待实现"@
}

impl BrowserManager {
    /// A manager with no pool set up.
    pub fn new() -> (r: Self)
        ensures
            r.headless is None,
            r.headful is None,
    {
        BrowserManager { headless: None, headful: None }
    }

    /// Sets up an empty headless pool of at most 16 contexts with 8 tabs
    /// each, closing contexts idle for 30 seconds.
    pub fn init_headless(&mut self)
        ensures
            final(self).headless matches Some(p) && p.contexts@.len() == 0 && p.max_size == 16
                && p.max_tabs_per_context == 8 && p.idle_timeout == duration_secs(30),
            final(self).headful == old(self).headful,
    {
        self.headless = Some(
            ContextPool { contexts: Vec::new(), max_size: 16, idle_timeout: secs(30), max_tabs_per_context: 8 },
        );
    }

    /// Whether the headless pool is set up.
    pub fn is_available(&self) -> (r: bool)
        ensures
            r == self.headless is Some,
    {
        self.headless.is_some()
    }

    /// A search through the runtime's own browser: refused, with a message
    /// that says whether the headless pool is set up.
    pub fn search(&self, _query: &str) -> (r: Result<String, String>)
        ensures
            r matches Err(e) && e@ == (if self.headless is Some {
                not_implemented_message()
            } else {
                not_ready_message()
            }),
    {
        if !self.is_available() {
            return Err("浏览器模块未初始化，请确保 Chromium 已安装".to_owned());
        }
        Err("浏览器搜索功能待实现".to_owned())
    }
}

impl Default for BrowserManager {
    /// The same as `BrowserManager::new`.
    fn default() -> (r: Self)
        ensures
            r.headless is None,
            r.headful is None,
    {
        BrowserManager::new()
    }
}

} // verus!
