//! Search engines for the browser module: a registry of URL templates, a
//! default engine (Bing), and the construction of search URLs.
use vstd::prelude::*;
use crate::text::{chars_of, map_char, replace_all, replace_char, replace_chars, str_eq, string_of};

verus! {

/// A search engine: a display name and a URL template in which `{query}`
/// stands for the query.
#[derive(Debug, Clone)]
pub struct SearchEngine {
    pub name: String,
    pub url_template: String,
    pub result_extract_js: &'static str,
}

/// Page script that collects up to ten result links of a search page.
pub const GENERIC_EXTRACT_JS: &'static str = r#"
(function(){
    var results = [];
    document.querySelectorAll('a[href]').forEach(function(a){
        var text = (a.textContent||'').trim();
        if (text.length > 10) results.push({title: text.substring(0,100), url: a.href});
    });
    return JSON.stringify(results.slice(0,10));
})()
"#;

/// The built-in engines as (id, display name, URL template).
pub open spec fn builtin_engines() -> Seq<(Seq<char>, Seq<char>, Seq<char>)> {
    seq![
        ("bing"@, "Bing"@, "https://www.bing.com/search?q={query}"@),
        ("google"@, "Google"@, "https://www.google.com/search?q={query}"@),
        ("baidu"@, "百度"@, "https://www.baidu.com/s?wd={query}"@),
        ("duckduckgo"@, "DuckDuckGo"@, "https://duckduckgo.com/?q={query}"@),
        ("bing-cn"@, "Bing 中国"@, "https://cn.bing.com/search?q={query}"@),
        ("searxng"@, "SearXNG"@, "https://searx.be/search?q={query}"@),
    ]
}

/// An engine's id, display name and URL template.
pub open spec fn engine_key(e: (String, SearchEngine)) -> (Seq<char>, Seq<char>, Seq<char>) {
    (e.0@, e.1.name@, e.1.url_template@)
}

/// The search URL for `query` under `template`: spaces in the query become
/// `+`, and every `{query}` in the template is replaced by it.
pub open spec fn search_url(template: Seq<char>, query: Seq<char>) -> Seq<char> {
    replace_all(template, "{query}"@, map_char(query, ' ', '+'))
}

/// The error message for an unknown engine name.
pub open spec fn unknown_engine_message(name: Seq<char>) -> Seq<char> {
    "未知搜索引擎: "@ + name
}

/// Search engines keyed by id, with one of them the default.
pub struct SearchRegistry {
    engines: Vec<(String, SearchEngine)>,
    default_engine: String,
}

impl SearchRegistry {
    /// The registered engines with their ids, in registration order.
    pub closed spec fn entries(self) -> Seq<(String, SearchEngine)> {
        self.engines@
    }

    /// The id of the default engine.
    pub closed spec fn default_id(self) -> Seq<char> {
        self.default_engine@
    }

    /// The engine registered under `id`, if any.
    pub open spec fn engine(self, id: Seq<char>) -> Option<SearchEngine> {
        if exists|k: int| 0 <= k < self.entries().len() && self.entries()[k].0@ == id {
            Some(
                self.entries()[choose|k: int|
                    0 <= k < self.entries().len() && self.entries()[k].0@ == id].1,
            )
        } else {
            None
        }
    }

    /// Ids are unique and the default id names a registered engine.
    pub open spec fn wf(self) -> bool {
        &&& forall|j: int, k: int|
            0 <= j < k < self.entries().len() ==> self.entries()[j].0@ != self.entries()[k].0@
        &&& self.engine(self.default_id()) is Some
    }

    /// The registry of the built-in engines (Bing, Google, Baidu,
    /// DuckDuckGo, Bing China, SearXNG), with Bing as the default; each
    /// extracts its results with `GENERIC_EXTRACT_JS`.
    pub fn new() -> (r: Self)
        ensures
            r.wf(),
            r.entries().map_values(|e: (String, SearchEngine)| engine_key(e)) == builtin_engines(),
            forall|k: int| 0 <= k < r.entries().len() ==> #[trigger] r.entries()[k].1.result_extract_js == GENERIC_EXTRACT_JS,
            r.default_id() == "bing"@,
    {
        proof {
            lemma_builtin_ids_distinct();
        }
        let mut engines: Vec<(String, SearchEngine)> = Vec::new();
        engines.push(("bing".to_owned(), SearchEngine { name: "Bing".to_owned(), url_template: "https://www.bing.com/search?q={query}".to_owned(), result_extract_js: GENERIC_EXTRACT_JS }));
        engines.push(("google".to_owned(), SearchEngine { name: "Google".to_owned(), url_template: "https://www.google.com/search?q={query}".to_owned(), result_extract_js: GENERIC_EXTRACT_JS }));
        engines.push(("baidu".to_owned(), SearchEngine { name: "百度".to_owned(), url_template: "https://www.baidu.com/s?wd={query}".to_owned(), result_extract_js: GENERIC_EXTRACT_JS }));
        engines.push(("duckduckgo".to_owned(), SearchEngine { name: "DuckDuckGo".to_owned(), url_template: "https://duckduckgo.com/?q={query}".to_owned(), result_extract_js: GENERIC_EXTRACT_JS }));
        engines.push(("bing-cn".to_owned(), SearchEngine { name: "Bing 中国".to_owned(), url_template: "https://cn.bing.com/search?q={query}".to_owned(), result_extract_js: GENERIC_EXTRACT_JS }));
        engines.push(("searxng".to_owned(), SearchEngine { name: "SearXNG".to_owned(), url_template: "https://searx.be/search?q={query}".to_owned(), result_extract_js: GENERIC_EXTRACT_JS }));
        let r = SearchRegistry { engines, default_engine: "bing".to_owned() };
        proof {
            assert(r.entries().map_values(|e: (String, SearchEngine)| engine_key(e)) =~= builtin_engines());
            assert(r.entries()[0].0@ == "bing"@);
        }
        r
    }

    /// Index of the engine registered under `id`.
    fn position(&self, id: &str) -> (r: Option<usize>)
        requires
            self.wf(),
        ensures
            match r {
                Some(k) => k < self.entries().len() && self.entries()[k as int].0@ == id@
                    && self.engine(id@) == Some(self.entries()[k as int].1),
                None => self.engine(id@) is None,
            },
    {
        let mut i: usize = 0;
        while i < self.engines.len()
            invariant
                i <= self.engines@.len(),
                self.wf(),
                forall|k: int| 0 <= k < i ==> self.engines@[k].0@ != id@,
            decreases self.engines@.len() - i,
        {
            if str_eq(self.engines[i].0.as_str(), id) {
                proof {
                    let k = choose|k: int|
                        0 <= k < self.entries().len() && self.entries()[k].0@ == id@;
                    assert(k == i as int);
                }
                return Some(i);
            }
            i = i + 1;
        }
        None
    }

    /// The engine registered under `name`.
    pub fn get(&self, name: &str) -> (r: Option<&SearchEngine>)
        requires
            self.wf(),
        ensures
            match r {
                Some(e) => self.engine(name@) == Some(*e),
                None => self.engine(name@) is None,
            },
    {
        match self.position(name) {
            Some(k) => Some(&self.engines[k].1),
            None => None,
        }
    }

    /// The default engine.
    pub fn default_engine(&self) -> (r: &SearchEngine)
        requires
            self.wf(),
        ensures
            self.engine(self.default_id()) == Some(*r),
    {
        match self.position(self.default_engine.as_str()) {
            Some(k) => &self.engines[k].1,
            None => {
                proof {
                    assert(false);
                }
                &self.engines[0].1
            },
        }
    }

    /// Makes the engine registered under `name` the default; an unknown
    /// name is refused with a message naming it and changes nothing.
    pub fn set_default(&mut self, name: &str) -> (r: Result<(), String>)
        requires
            old(self).wf(),
        ensures
            final(self).wf(),
            final(self).entries() == old(self).entries(),
            old(self).engine(name@) is Some ==> r is Ok && final(self).default_id() == name@,
            old(self).engine(name@) is None ==> r is Err && final(self).default_id() == old(
                self,
            ).default_id() && r->Err_0@ == unknown_engine_message(name@),
    {
        match self.position(name) {
            Some(_) => {
                self.default_engine = name.to_owned();
                assert(self.entries() == old(self).entries());
                assert(self.engine(name@) == old(self).engine(name@));
                Ok(())
            },
            None => {
                let mut msg: Vec<char> = chars_of("未知搜索引擎: ");
                let tail = chars_of(name);
                crate::text::extend_chars(&mut msg, &tail);
                Err(string_of(&msg))
            },
        }
    }

    /// The ids of all registered engines, in registration order.
    pub fn list(&self) -> (r: Vec<String>)
        ensures
            r@.map_values(|s: String| s@) == self.entries().map_values(
                |e: (String, SearchEngine)| e.0@,
            ),
    {
        let mut r: Vec<String> = Vec::new();
        let mut i: usize = 0;
        while i < self.engines.len()
            invariant
                i <= self.engines@.len(),
                r@.map_values(|s: String| s@) == self.engines@.take(i as int).map_values(
                    |e: (String, SearchEngine)| e.0@,
                ),
            decreases self.engines@.len() - i,
        {
            let ghost before = r@;
            let id = self.engines[i].0.clone();
            assert(id@ == self.engines@[i as int].0@);
            r.push(id);
            assert(r@.map_values(|s: String| s@) =~= before.map_values(|s: String| s@).push(
                self.engines@[i as int].0@,
            ));
            assert(self.engines@.take(i + 1).map_values(|e: (String, SearchEngine)| e.0@)
                =~= self.engines@.take(i as int).map_values(|e: (String, SearchEngine)| e.0@).push(
                self.engines@[i as int].0@,
            ));
            i = i + 1;
            assert(r@.map_values(|s: String| s@) =~= self.engines@.take(i as int).map_values(
                |e: (String, SearchEngine)| e.0@,
            ));
        }
        assert(self.engines@.take(self.engines@.len() as int) =~= self.engines@);
        r
    }

    /// Registers an engine under `id`, replacing any engine registered
    /// under the same id; the default id is kept.
    pub fn register(&mut self, id: String, engine: SearchEngine)
        requires
            old(self).wf(),
        ensures
            final(self).wf(),
            final(self).engine(id@) == Some(engine),
            forall|other: Seq<char>| other != id@ ==> final(self).engine(other) == old(self).engine(other),
            final(self).default_id() == old(self).default_id(),
    {
        let ghost olds = self.engines@;
        let ghost e = engine;
        let ghost idv = id@;
        match self.position(id.as_str()) {
            Some(k) => {
                self.engines.set(k, (id, engine));
                proof {
                    assert(self.engines@ == olds.update(k as int, self.engines@[k as int]));
                    assert(self.entries()[k as int].0@ == idv);
                    assert forall|other: Seq<char>| true implies (self.engine(other) is Some <==> old(
                        self,
                    ).engine(other) is Some) by {
                        if exists|q: int| 0 <= q < olds.len() && olds[q].0@ == other {
                            let q = choose|q: int| 0 <= q < olds.len() && olds[q].0@ == other;
                            assert(self.entries()[q].0@ == other);
                        }
                        if exists|q: int|
                            0 <= q < self.entries().len() && self.entries()[q].0@ == other {
                            let q = choose|q: int|
                                0 <= q < self.entries().len() && self.entries()[q].0@ == other;
                            assert(olds[q].0@ == other);
                        }
                    }
                    let c = choose|q: int|
                        0 <= q < self.entries().len() && self.entries()[q].0@ == idv;
                    assert(c == k);
                    assert forall|other: Seq<char>| other != idv implies self.engine(other)
                        == old(self).engine(other) by {
                        if exists|q: int| 0 <= q < olds.len() && olds[q].0@ == other {
                            let q1 = choose|q: int| 0 <= q < olds.len() && olds[q].0@ == other;
                            let q2 = choose|q: int|
                                0 <= q < self.entries().len() && self.entries()[q].0@ == other;
                            assert(self.entries()[q1].0@ == other);
                            assert(q1 == q2);
                        }
                    }
                    assert(self.engine(self.default_id()) is Some);
                }
            },
            None => {
                self.engines.push((id, engine));
                proof {
                    let n = olds.len() as int;
                    assert(self.entries()[n].0@ == idv);
                    let c = choose|q: int|
                        0 <= q < self.entries().len() && self.entries()[q].0@ == idv;
                    assert(c == n);
                    assert forall|other: Seq<char>| other != idv implies self.engine(other)
                        == old(self).engine(other) by {
                        if exists|q: int| 0 <= q < olds.len() && olds[q].0@ == other {
                            let q1 = choose|q: int| 0 <= q < olds.len() && olds[q].0@ == other;
                            let q2 = choose|q: int|
                                0 <= q < self.entries().len() && self.entries()[q].0@ == other;
                            assert(self.entries()[q1].0@ == other);
                            assert(q1 == q2);
                        } else {
                            if exists|q: int|
                                0 <= q < self.entries().len() && self.entries()[q].0@ == other {
                                let q2 = choose|q: int|
                                    0 <= q < self.entries().len() && self.entries()[q].0@ == other;
                                assert(olds[q2].0@ == other);
                            }
                        }
                    }
                    assert(self.engine(self.default_id()) == old(self).engine(old(self).default_id()));
                }
            },
        }
    }

    /// The search URL for `query` on the engine registered under `engine`:
    /// the engine's template with `{query}` replaced by the query, whose
    /// spaces become `+`. `None` for an unknown engine.
    pub fn build_url(&self, engine: &str, query: &str) -> (r: Option<String>)
        requires
            self.wf(),
        ensures
            match self.engine(engine@) {
                Some(e) => r is Some && r->0@ == search_url(e.url_template@, query@),
                None => r is None,
            },
    {
        match self.get(engine) {
            Some(e) => {
                let template = chars_of(e.url_template.as_str());
                let q = chars_of(query);
                let q2 = replace_char(&q, ' ', '+');
                let pat = chars_of("{query}");
                proof {
                    reveal_strlit("{query}");
                }
                let url = replace_chars(&template, &pat, &q2);
                Some(string_of(&url))
            },
            None => None,
        }
    }
}

/// The built-in engine ids are pairwise distinct.
proof fn lemma_builtin_ids_distinct()
    ensures
        forall|j: int, k: int|
            0 <= j < k < builtin_engines().len() ==> builtin_engines()[j].0 != builtin_engines()[k].0,
{
    reveal_strlit("bing");
    reveal_strlit("google");
    reveal_strlit("baidu");
    reveal_strlit("duckduckgo");
    reveal_strlit("bing-cn");
    reveal_strlit("searxng");
    assert("bing"@.len() != "google"@.len());
    assert("bing"@.len() != "baidu"@.len());
    assert("bing"@.len() != "duckduckgo"@.len());
    assert("bing"@.len() != "bing-cn"@.len());
    assert("bing"@.len() != "searxng"@.len());
    assert("google"@.len() != "baidu"@.len());
    assert("google"@.len() != "duckduckgo"@.len());
    assert("google"@.len() != "bing-cn"@.len());
    assert("google"@.len() != "searxng"@.len());
    assert("baidu"@.len() != "duckduckgo"@.len());
    assert("baidu"@.len() != "bing-cn"@.len());
    assert("baidu"@.len() != "searxng"@.len());
    assert("duckduckgo"@.len() != "bing-cn"@.len());
    assert("duckduckgo"@.len() != "searxng"@.len());
    assert("bing-cn"@[0] != "searxng"@[0]);
}

} // verus!
