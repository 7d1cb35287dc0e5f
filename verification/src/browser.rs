//! The browser module's bookkeeping: pools of isolated browser contexts
//! (one headless pool, one headful), the randomized fingerprints the
//! contexts are launched with, their command lines, and the routing of
//! searches to URLs. The browsers themselves are opaque handles.
use vstd::prelude::*;
use rand::Rng;
use std::time::{Duration, Instant};
use crate::clock::{duration_secs, elapsed_exceeds, now, secs};
use crate::envvars::{env_lookup, lookup};
use crate::module::ModuleError;
use crate::search::{search_url, unknown_engine_message, SearchEngine, SearchRegistry};
use crate::text::{chars_of, concat, decimal, decimal_chars, extend_chars, extend_str, string_of};

verus! {

/// `rand::thread_rng().gen_range(0..n)`: a random index below `n`.
#[verifier::external_body]
fn random_below(n: usize) -> (r: usize)
    requires
        n > 0,
    ensures
        r < n,
{
    rand::thread_rng().gen_range(0..n)
}

// ───────────────────────── fingerprints ─────────────────────────

/// The user agents a context may present.
pub open spec fn user_agents() -> Seq<Seq<char>> {
    seq![
        "Mozilla/5.0 (Windows NT 10.0; Win64; x64) AppleWebKit/537.36 Chrome/125.0.0.0 Safari/537.36"@,
        "Mozilla/5.0 (Macintosh; Intel Mac OS X 10_15_7) AppleWebKit/537.36 Chrome/125.0.0.0 Safari/537.36"@,
        "Mozilla/5.0 (X11; Linux x86_64) AppleWebKit/537.36 Chrome/125.0.0.0 Safari/537.36"@,
        "Mozilla/5.0 (Windows NT 10.0; Win64; x64) AppleWebKit/537.36 Edg/124.0.0.0 Safari/537.36"@,
    ]
}

/// The screen resolutions a context may present.
pub open spec fn resolutions() -> Seq<(u32, u32)> {
    seq![(1920u32, 1080u32), (2560u32, 1440u32), (1366u32, 768u32), (1440u32, 900u32)]
}

/// The locales a context may present.
pub open spec fn locales() -> Seq<Seq<char>> {
    seq!["zh-CN"@, "en-US"@, "ja-JP"@, "de-DE"@]
}

/// The time zones a context may present.
pub open spec fn timezones() -> Seq<Seq<char>> {
    seq!["Asia/Shanghai"@, "America/New_York"@, "Europe/London"@, "Asia/Tokyo"@]
}

/// The platforms a context may present.
pub open spec fn platforms() -> Seq<Seq<char>> {
    seq!["Win32"@, "MacIntel"@, "Linux x86_64"@]
}

/// What a browser context presents to the sites it visits.
#[derive(Debug, Clone)]
pub struct BrowserFingerprint {
    pub user_agent: String,
    pub viewport_width: u32,
    pub viewport_height: u32,
    pub locale: String,
    pub timezone: String,
    pub platform: String,
}

/// Every field is one of the listed values. The width and the height are
/// drawn separately, each from some listed resolution.
pub open spec fn plausible(fp: BrowserFingerprint) -> bool {
    &&& user_agents().contains(fp.user_agent@)
    &&& exists|i: int| 0 <= i < resolutions().len() && resolutions()[i].0 == fp.viewport_width
    &&& exists|i: int| 0 <= i < resolutions().len() && resolutions()[i].1 == fp.viewport_height
    &&& locales().contains(fp.locale@)
    &&& timezones().contains(fp.timezone@)
    &&& platforms().contains(fp.platform@)
}

fn pick(v: &Vec<&'static str>) -> (r: String)
    requires
        v@.len() > 0,
    ensures
        exists|i: int| 0 <= i < v@.len() && r@ == v@[i]@,
{
    let i = random_below(v.len());
    v[i].to_owned()
}

/// A fingerprint drawn at random from the listed values.
pub fn random_fingerprint() -> (fp: BrowserFingerprint)
    ensures
        plausible(fp),
{
    let mut uas: Vec<&'static str> = Vec::new();
    uas.push("Mozilla/5.0 (Windows NT 10.0; Win64; x64) AppleWebKit/537.36 Chrome/125.0.0.0 Safari/537.36");
    uas.push("Mozilla/5.0 (Macintosh; Intel Mac OS X 10_15_7) AppleWebKit/537.36 Chrome/125.0.0.0 Safari/537.36");
    uas.push("Mozilla/5.0 (X11; Linux x86_64) AppleWebKit/537.36 Chrome/125.0.0.0 Safari/537.36");
    uas.push("Mozilla/5.0 (Windows NT 10.0; Win64; x64) AppleWebKit/537.36 Edg/124.0.0.0 Safari/537.36");
    let mut res: Vec<(u32, u32)> = Vec::new();
    res.push((1920, 1080));
    res.push((2560, 1440));
    res.push((1366, 768));
    res.push((1440, 900));
    let mut locs: Vec<&'static str> = Vec::new();
    locs.push("zh-CN");
    locs.push("en-US");
    locs.push("ja-JP");
    locs.push("de-DE");
    let mut tzs: Vec<&'static str> = Vec::new();
    tzs.push("Asia/Shanghai");
    tzs.push("America/New_York");
    tzs.push("Europe/London");
    tzs.push("Asia/Tokyo");
    let mut plats: Vec<&'static str> = Vec::new();
    plats.push("Win32");
    plats.push("MacIntel");
    plats.push("Linux x86_64");
    assert(uas@.map_values(|s: &'static str| s@) =~= user_agents());
    assert(res@ =~= resolutions());
    assert(locs@.map_values(|s: &'static str| s@) =~= locales());
    assert(tzs@.map_values(|s: &'static str| s@) =~= timezones());
    assert(plats@.map_values(|s: &'static str| s@) =~= platforms());
    let user_agent = pick(&uas);
    let w = random_below(res.len());
    let h = random_below(res.len());
    let locale = pick(&locs);
    let timezone = pick(&tzs);
    let platform = pick(&plats);
    let fp = BrowserFingerprint {
        user_agent,
        viewport_width: res[w].0,
        viewport_height: res[h].1,
        locale,
        timezone,
        platform,
    };
    proof {
        let i = choose|i: int| 0 <= i < uas@.len() && fp.user_agent@ == uas@[i]@;
        assert(user_agents()[i] == fp.user_agent@);
        let l = choose|i: int| 0 <= i < locs@.len() && fp.locale@ == locs@[i]@;
        assert(locales()[l] == fp.locale@);
        let t = choose|i: int| 0 <= i < tzs@.len() && fp.timezone@ == tzs@[i]@;
        assert(timezones()[t] == fp.timezone@);
        let p = choose|i: int| 0 <= i < plats@.len() && fp.platform@ == plats@[i]@;
        assert(platforms()[p] == fp.platform@);
        assert(resolutions()[w as int].0 == fp.viewport_width);
        assert(resolutions()[h as int].1 == fp.viewport_height);
    }
    fp
}

/// The command-line switches a context is launched with: its fingerprint,
/// then the fixed anti-automation switches, then `--enable-gpu` when the
/// GPU is enabled.
pub open spec fn launch_switches(fp: BrowserFingerprint, gpu: bool) -> Seq<Seq<char>> {
    seq![
        "--user-agent="@ + fp.user_agent@,
        "--window-size="@ + decimal(fp.viewport_width as nat) + ","@ + decimal(fp.viewport_height as nat),
        "--lang="@ + fp.locale@,
        "--platform="@ + fp.platform@,
        "--disable-blink-features=AutomationControlled"@,
        "--disable-features=IsolateOrigins,site-per-process"@,
        "--disable-gpu-sandbox"@,
        "--no-first-run"@,
        "--no-default-browser-check"@,
    ] + (if gpu { seq!["--enable-gpu"@] } else { seq![] })
}

/// The switches for a context, with the GPU enabled when
/// `BROWSER_ENABLE_GPU` is set.
pub fn launch_args(fp: &BrowserFingerprint, env: &Vec<(String, String)>) -> (r: Vec<String>)
    ensures
        r@.map_values(|s: String| s@) == launch_switches(*fp, env_lookup(env@, "BROWSER_ENABLE_GPU"@) is Some),
{
    let mut r: Vec<String> = Vec::new();
    r.push(concat("--user-agent=", fp.user_agent.as_str()));
    let mut size = chars_of("--window-size=");
    let w = decimal_chars(fp.viewport_width as u64);
    extend_chars(&mut size, &w);
    extend_str(&mut size, ",");
    let h = decimal_chars(fp.viewport_height as u64);
    extend_chars(&mut size, &h);
    r.push(string_of(&size));
    r.push(concat("--lang=", fp.locale.as_str()));
    r.push(concat("--platform=", fp.platform.as_str()));
    r.push("--disable-blink-features=AutomationControlled".to_owned());
    r.push("--disable-features=IsolateOrigins,site-per-process".to_owned());
    r.push("--disable-gpu-sandbox".to_owned());
    r.push("--no-first-run".to_owned());
    r.push("--no-default-browser-check".to_owned());
    let gpu = lookup(env, "BROWSER_ENABLE_GPU").is_some();
    if gpu {
        r.push("--enable-gpu".to_owned());
    }
    assert(r@.map_values(|s: String| s@) =~= launch_switches(*fp, gpu));
    r
}

// ───────────────────────── context pools ─────────────────────────

/// One browser context of a pool.
pub struct ContextEntry<B> {
    pub browser: B,
    pub tabs_used: usize,
    pub fingerprint: BrowserFingerprint,
    pub created_at: Instant,
    pub last_used: Instant,
    pub search_count: u32,
}

/// How a pool serves the next page.
#[derive(Debug, Clone, Copy, PartialEq, Eq, Structural)]
pub enum PoolChoice {
    /// Open a tab in the context at this position.
    Reuse(usize),
    /// Launch a new context and add it to the pool.
    Create,
}

/// Every element of `after` is an element of `before`.
pub open spec fn kept_from<T>(after: Seq<T>, before: Seq<T>) -> bool {
    forall|k: int| 0 <= k < after.len() ==> before.contains(#[trigger] after[k])
}

/// `ix` places the elements of `after` in `before`, in increasing positions.
pub open spec fn places_in_order<T>(ix: Seq<int>, after: Seq<T>, before: Seq<T>) -> bool {
    &&& ix.len() == after.len()
    &&& forall|k: int| 0 <= k < ix.len() ==> 0 <= #[trigger] ix[k] < before.len() && after[k] == before[ix[k]]
    &&& forall|a: int, b: int| 0 <= a < b < ix.len() ==> #[trigger] ix[a] < #[trigger] ix[b]
}

/// `after` is `before` with some elements left out, the rest in their order.
pub open spec fn is_subsequence<T>(after: Seq<T>, before: Seq<T>) -> bool {
    exists|ix: Seq<int>| places_in_order(ix, after, before)
}

/// A pool of browser contexts, each with its own profile and fingerprint.
pub struct ContextPool<B> {
    pub contexts: Vec<ContextEntry<B>>,
    pub max_size: usize,
    pub max_tabs_per_context: usize,
    pub idle_dormant: Duration,
    pub idle_destroy: Duration,
    pub recycle_interval: u32,
}

/// The error when every context is busy and the pool is full.
pub open spec fn pool_full_message() -> Seq<char> {
    "Context 池已满"@
}

impl<B> ContextPool<B> {
    /// The contexts, in the order they were added.
    pub open spec fn entries(self) -> Seq<ContextEntry<B>> {
        self.contexts@
    }

    /// An empty pool of at most `max_size` contexts with at most `max_tabs`
    /// tabs each; contexts idle for 300 s are closed and a context is
    /// recycled after 50 pages.
    pub fn new(max_size: usize, max_tabs: usize) -> (r: Self)
        ensures
            r.entries().len() == 0,
            r.max_size == max_size,
            r.max_tabs_per_context == max_tabs,
            r.recycle_interval == 50,
            r.idle_dormant == duration_secs(30),
            r.idle_destroy == duration_secs(300),
    {
        ContextPool {
            contexts: Vec::new(),
            max_size,
            max_tabs_per_context: max_tabs,
            idle_dormant: secs(30),
            idle_destroy: secs(300),
            recycle_interval: 50,
        }
    }

    /// The number of contexts.
    pub fn len(&self) -> (r: usize)
        ensures
            r == self.entries().len(),
    {
        self.contexts.len()
    }

    /// Where the next page goes: the first context with a free tab; else a
    /// new context while the pool is not full; else the pool is full.
    pub fn select(&self) -> (r: Result<PoolChoice, ModuleError>)
        ensures
            match r {
                Ok(PoolChoice::Reuse(i)) => i < self.entries().len()
                    && self.entries()[i as int].tabs_used < self.max_tabs_per_context
                    && forall|j: int| 0 <= j < i ==> self.entries()[j].tabs_used >= self.max_tabs_per_context,
                Ok(PoolChoice::Create) => (forall|j: int| 0 <= j < self.entries().len()
                    ==> self.entries()[j].tabs_used >= self.max_tabs_per_context)
                    && self.entries().len() < self.max_size,
                Err(e) => {
                    &&& forall|j: int| 0 <= j < self.entries().len()
                        ==> self.entries()[j].tabs_used >= self.max_tabs_per_context
                    &&& self.entries().len() >= self.max_size
                    &&& e matches ModuleError::Runtime(m) && m@ == pool_full_message()
                },
            },
    {
        let mut i: usize = 0;
        while i < self.contexts.len()
            invariant
                i <= self.contexts@.len(),
                forall|j: int| 0 <= j < i ==> self.contexts@[j].tabs_used >= self.max_tabs_per_context,
            decreases self.contexts@.len() - i,
        {
            if self.contexts[i].tabs_used < self.max_tabs_per_context {
                return Ok(PoolChoice::Reuse(i));
            }
            i = i + 1;
        }
        if self.contexts.len() < self.max_size {
            Ok(PoolChoice::Create)
        } else {
            Err(ModuleError::Runtime("Context 池已满".to_owned()))
        }
    }

    /// The browser of the context at position `i`.
    pub fn browser(&self, i: usize) -> (r: &B)
        requires
            i < self.entries().len(),
        ensures
            *r == self.entries()[i as int].browser,
    {
        &self.contexts[i].browser
    }

    /// Adds a freshly launched context, with no tab used, and returns its
    /// position.
    pub fn add(&mut self, browser: B, fingerprint: BrowserFingerprint) -> (i: usize)
        ensures
            i == old(self).entries().len(),
            final(self).entries().len() == i + 1,
            final(self).entries().take(i as int) == old(self).entries(),
            final(self).entries()[i as int].browser == browser,
            final(self).entries()[i as int].tabs_used == 0,
            final(self).entries()[i as int].search_count == 0,
            final(self).entries()[i as int].fingerprint == fingerprint,
            final(self).max_size == old(self).max_size,
            final(self).max_tabs_per_context == old(self).max_tabs_per_context,
            final(self).recycle_interval == old(self).recycle_interval,
    {
        let t = now();
        let i = self.contexts.len();
        self.contexts.push(ContextEntry {
            browser,
            tabs_used: 0,
            fingerprint,
            created_at: t,
            last_used: t,
            search_count: 0,
        });
        assert(self.contexts@.take(i as int) =~= old(self).contexts@);
        i
    }

    /// Records that a page was opened in the context at position `i`: one
    /// more tab used, one more page served, used just now.
    pub fn begin_use(&mut self, i: usize)
        requires
            i < old(self).entries().len(),
            old(self).entries()[i as int].tabs_used < usize::MAX,
            old(self).entries()[i as int].search_count < u32::MAX,
        ensures
            final(self).entries().len() == old(self).entries().len(),
            final(self).entries()[i as int].tabs_used == old(self).entries()[i as int].tabs_used + 1,
            final(self).entries()[i as int].search_count == old(self).entries()[i as int].search_count + 1,
            final(self).entries()[i as int].browser == old(self).entries()[i as int].browser,
            forall|j: int| 0 <= j < old(self).entries().len() && j != i ==> final(self).entries()[j] == old(self).entries()[j],
            final(self).max_size == old(self).max_size,
            final(self).max_tabs_per_context == old(self).max_tabs_per_context,
            final(self).recycle_interval == old(self).recycle_interval,
    {
        let t = now();
        let mut e = self.contexts.remove(i);
        e.tabs_used = e.tabs_used + 1;
        e.search_count = e.search_count + 1;
        e.last_used = t;
        self.contexts.insert(i, e);
        proof {
            assert forall|j: int| 0 <= j < old(self).entries().len() && j != i implies self.contexts@[j] == old(self).contexts@[j] by {
                if j < i {
                    assert(self.contexts@[j] == old(self).contexts@[j]);
                } else {
                    assert(self.contexts@[j] == old(self).contexts@.remove(i as int)[j - 1]);
                }
            }
        }
    }

    /// Closes every context left unused for longer than the idle limit. How
    /// long a context has been idle depends on the clock, so only this is
    /// stated: the contexts that stay are contexts of before, unchanged and
    /// in their order, and the pool's limits stay.
    pub fn reap_idle(&mut self)
        ensures
            final(self).entries().len() <= old(self).entries().len(),
            kept_from(final(self).entries(), old(self).entries()),
            is_subsequence(final(self).entries(), old(self).entries()),
            final(self).max_size == old(self).max_size,
            final(self).max_tabs_per_context == old(self).max_tabs_per_context,
            final(self).recycle_interval == old(self).recycle_interval,
            final(self).idle_dormant == old(self).idle_dormant,
            final(self).idle_destroy == old(self).idle_destroy,
    {
        let ghost before = self.contexts@;
        let ghost mut ix: Seq<int> = Seq::new(before.len(), |k: int| k);
        let mut i: usize = 0;
        while i < self.contexts.len()
            invariant
                i <= self.contexts@.len(),
                self.contexts@.len() <= before.len(),
                kept_from(self.contexts@, before),
                places_in_order(ix, self.contexts@, before),
                self.max_size == old(self).max_size,
                self.max_tabs_per_context == old(self).max_tabs_per_context,
                self.recycle_interval == old(self).recycle_interval,
                self.idle_dormant == old(self).idle_dormant,
                self.idle_destroy == old(self).idle_destroy,
                before == old(self).contexts@,
            decreases self.contexts@.len() - i,
        {
            if elapsed_exceeds(&self.contexts[i].last_used, &self.idle_destroy) {
                let ghost cur = self.contexts@;
                let ghost ix0 = ix;
                let _gone = self.contexts.remove(i);
                proof {
                    ix = ix0.remove(i as int);
                    assert forall|k: int| 0 <= k < ix.len() implies 0 <= #[trigger] ix[k] < before.len()
                        && self.contexts@[k] == before[ix[k]] by {
                        if k < i {
                            assert(ix[k] == ix0[k]);
                            assert(self.contexts@[k] == cur[k]);
                        } else {
                            assert(ix[k] == ix0[k + 1]);
                            assert(self.contexts@[k] == cur[k + 1]);
                        }
                    }
                    assert forall|a: int, b: int| 0 <= a < b < ix.len() implies #[trigger] ix[a] < #[trigger] ix[b] by {
                        let a0 = if a < i { a } else { a + 1 };
                        let b0 = if b < i { b } else { b + 1 };
                        assert(ix[a] == ix0[a0]);
                        assert(ix[b] == ix0[b0]);
                        assert(ix0[a0] < ix0[b0]);
                    }
                    assert forall|k: int| 0 <= k < self.contexts@.len() implies before.contains(#[trigger] self.contexts@[k]) by {
                        if k < i {
                            assert(self.contexts@[k] == cur[k]);
                            assert(before.contains(cur[k]));
                        } else {
                            assert(self.contexts@[k] == cur[k + 1]);
                            assert(before.contains(cur[k + 1]));
                        }
                    }
                }
            } else {
                i = i + 1;
            }
        }
        assert(places_in_order(ix, self.contexts@, before));
    }

    /// Finishes a page served by the context at position `i`: the context is
    /// recycled once it has served as many pages as the recycle interval;
    /// then idle contexts are closed.
    pub fn end_use(&mut self, i: usize)
        requires
            i < old(self).entries().len(),
        ensures
            final(self).entries().len() <= old(self).entries().len(),
            old(self).entries()[i as int].search_count >= old(self).recycle_interval
                ==> final(self).entries().len() < old(self).entries().len(),
            kept_from(final(self).entries(), old(self).entries()),
            final(self).max_size == old(self).max_size,
            final(self).max_tabs_per_context == old(self).max_tabs_per_context,
    {
        if self.contexts[i].search_count >= self.recycle_interval {
            let ghost cur = self.contexts@;
            let _gone = self.contexts.remove(i);
            proof {
                assert forall|k: int| 0 <= k < self.contexts@.len() implies old(self).contexts@.contains(#[trigger] self.contexts@[k]) by {
                    if k < i {
                        assert(self.contexts@[k] == cur[k]);
                        assert(old(self).contexts@[k] == cur[k]);
                    } else {
                        assert(self.contexts@[k] == cur[k + 1]);
                        assert(old(self).contexts@[k + 1] == cur[k + 1]);
                    }
                }
            }
        }
        let ghost mid = self.contexts@;
        assert(kept_from(mid, old(self).contexts@)) by {
            assert forall|k: int| 0 <= k < mid.len() implies old(self).contexts@.contains(#[trigger] mid[k]) by {
                if !(old(self).entries()[i as int].search_count >= old(self).recycle_interval) {
                    assert(mid[k] == old(self).contexts@[k]);
                }
            }
        }
        self.reap_idle();
        proof {
            assert forall|k: int| 0 <= k < self.contexts@.len() implies old(self).contexts@.contains(#[trigger] self.contexts@[k]) by {
                assert(mid.contains(self.contexts@[k]));
                let m = choose|m: int| 0 <= m < mid.len() && mid[m] == self.contexts@[k];
                assert(old(self).contexts@.contains(mid[m]));
            }
        }
    }

    /// Closes every context.
    pub fn clear(&mut self)
        ensures
            final(self).entries().len() == 0,
            final(self).max_size == old(self).max_size,
    {
        self.contexts.clear();
    }
}

// ───────────────────────── the module ─────────────────────────

/// The size of the headless pool: two contexts per processor, at most 16.
pub open spec fn headless_pool_size(cpus: usize) -> usize {
    if cpus * 2 < 16 { (cpus * 2) as usize } else { 16 }
}

/// The two pools of the browser module: headless contexts for fetching
/// and searching, and a small headful pool (2 contexts, 2 tabs each).
pub struct BrowserPools<B> {
    pub headless: ContextPool<B>,
    pub headful: ContextPool<B>,
}

impl<B> BrowserPools<B> {
    /// Pools sized for `cpus` processors (4 when unknown): the headless pool
    /// holds `min(2 × cpus, 16)` contexts of 8 tabs.
    pub fn new(cpus: usize) -> (r: Self)
        requires
            cpus <= usize::MAX / 2,
        ensures
            r.headless.max_size == headless_pool_size(cpus),
            r.headless.max_tabs_per_context == 8,
            r.headless.entries().len() == 0,
            r.headful.max_size == 2,
            r.headful.max_tabs_per_context == 2,
            r.headful.entries().len() == 0,
    {
        let doubled = cpus * 2;
        let size = if doubled < 16 { doubled } else { 16 };
        BrowserPools { headless: ContextPool::new(size, 8), headful: ContextPool::new(2, 2) }
    }

    /// The pools' fill levels, as `Headless: n/max | Headful: n/max`.
    pub fn status(&self) -> (r: String)
        ensures
            r@ == "Headless: "@ + decimal(self.headless.entries().len()) + "/"@ + decimal(self.headless.max_size as nat)
                + " | Headful: "@ + decimal(self.headful.entries().len()) + "/"@ + decimal(self.headful.max_size as nat),
    {
        let mut v = chars_of("Headless: ");
        let a = decimal_chars(self.headless.len() as u64);
        extend_chars(&mut v, &a);
        extend_str(&mut v, "/");
        let b = decimal_chars(self.headless.max_size as u64);
        extend_chars(&mut v, &b);
        extend_str(&mut v, " | Headful: ");
        let c = decimal_chars(self.headful.len() as u64);
        extend_chars(&mut v, &c);
        extend_str(&mut v, "/");
        let d = decimal_chars(self.headful.max_size as u64);
        extend_chars(&mut v, &d);
        string_of(&v)
    }
}

/// The URL of a search with the engine registered under `engine`; an
/// unknown engine is a runtime error.
pub fn search_target(reg: &SearchRegistry, engine: &str, query: &str) -> (r: Result<String, ModuleError>)
    requires
        reg.wf(),
    ensures
        match reg.engine(engine@) {
            Some(e) => r matches Ok(u) && u@ == search_url(e.url_template@, query@),
            None => r matches Err(ModuleError::Runtime(m)) && m@ == unknown_engine_message(engine@),
        },
{
    match reg.build_url(engine, query) {
        Some(u) => Ok(u),
        None => Err(ModuleError::Runtime(concat("未知搜索引擎: ", engine))),
    }
}

/// A search with the default engine. The engine is looked up by the
/// default engine's display name.
pub fn default_search_target(reg: &SearchRegistry, query: &str) -> (r: Result<String, ModuleError>)
    requires
        reg.wf(),
    ensures
        match reg.engine(reg.engine(reg.default_id()).unwrap().name@) {
            Some(e) => r matches Ok(u) && u@ == search_url(e.url_template@, query@),
            None => r matches Err(ModuleError::Runtime(m))
                && m@ == unknown_engine_message(reg.engine(reg.default_id()).unwrap().name@),
        },
{
    let name = reg.default_engine().name.clone();
    search_target(reg, name.as_str(), query)
}

/// Registers a custom engine under `id`, without a result-extraction script.
pub fn add_engine(reg: &mut SearchRegistry, id: String, name: String, url_template: String)
    requires
        old(reg).wf(),
    ensures
        final(reg).wf(),
        final(reg).engine(id@) matches Some(e) && e.name@ == name@ && e.url_template@ == url_template@
            && e.result_extract_js@ == ""@,
        forall|other: Seq<char>| other != id@ ==> final(reg).engine(other) == old(reg).engine(other),
        final(reg).default_id() == old(reg).default_id(),
{
    let engine = SearchEngine { name, url_template, result_extract_js: "" };
    reg.register(id, engine);
}

} // verus!
