use bugs::browser::{
    add_engine, default_search_target, launch_args, random_fingerprint, search_target, BrowserFingerprint,
    BrowserPools, ContextPool, PoolChoice,
};
use bugs::module::ModuleError;
use bugs::search::SearchRegistry;

#[test]
fn fingerprint_varies() {
    let _a = random_fingerprint();
    let mut seen = std::collections::HashSet::new();
    for _ in 0..10 {
        seen.insert(random_fingerprint().user_agent);
    }
    assert!(seen.len() > 1, "UA未随机化");
}

#[test]
fn pool_max_size() {
    assert_eq!(ContextPool::<u32>::new(4, 8).max_size, 4);
}

#[test]
fn pool_reuses_then_creates_then_is_full() {
    let mut p: ContextPool<&str> = ContextPool::new(1, 2);
    assert!(matches!(p.select(), Ok(PoolChoice::Create)));
    let i = p.add("b0", random_fingerprint());
    assert_eq!(i, 0);
    assert!(matches!(p.select(), Ok(PoolChoice::Reuse(0))));
    p.begin_use(0);
    p.begin_use(0);
    match p.select() {
        Err(ModuleError::Runtime(m)) => assert_eq!(m, "Context 池已满"),
        _ => panic!("pool should be full"),
    }
    assert_eq!(*p.browser(0), "b0");
    p.end_use(0);
    assert_eq!(p.len(), 1);
}

#[test]
fn pool_recycles_after_interval() {
    let mut p: ContextPool<u8> = ContextPool::new(2, 1000);
    p.recycle_interval = 2;
    p.add(7, random_fingerprint());
    p.begin_use(0);
    p.end_use(0);
    assert_eq!(p.len(), 1);
    p.begin_use(0);
    p.end_use(0);
    assert_eq!(p.len(), 0);
}

#[test]
fn pools_and_status() {
    let pools: BrowserPools<u8> = BrowserPools::new(4);
    assert_eq!(pools.headless.max_size, 8);
    assert_eq!(pools.status(), "Headless: 0/8 | Headful: 0/2");
    let big: BrowserPools<u8> = BrowserPools::new(64);
    assert_eq!(big.headless.max_size, 16);
}

#[test]
fn launch_switches() {
    let fp = BrowserFingerprint {
        user_agent: "UA".into(),
        viewport_width: 1366,
        viewport_height: 900,
        locale: "ja-JP".into(),
        timezone: "Asia/Tokyo".into(),
        platform: "Win32".into(),
    };
    let args = launch_args(&fp, &vec![]);
    assert_eq!(args.len(), 9);
    assert_eq!(args[0], "--user-agent=UA");
    assert_eq!(args[1], "--window-size=1366,900");
    assert_eq!(args[2], "--lang=ja-JP");
    assert_eq!(args[3], "--platform=Win32");
    let gpu = launch_args(&fp, &vec![("BROWSER_ENABLE_GPU".to_string(), "1".to_string())]);
    assert_eq!(gpu.last().unwrap(), "--enable-gpu");
}

#[test]
fn search_routing() {
    let mut reg = SearchRegistry::new();
    assert_eq!(search_target(&reg, "bing", "a b").unwrap(), "https://www.bing.com/search?q=a+b");
    match search_target(&reg, "nope", "q") {
        Err(ModuleError::Runtime(m)) => assert_eq!(m, "未知搜索引擎: nope"),
        _ => panic!(),
    }
    match default_search_target(&reg, "q") {
        Err(ModuleError::Runtime(m)) => assert_eq!(m, "未知搜索引擎: Bing"),
        _ => panic!("the default engine is looked up by its display name"),
    }
    add_engine(&mut reg, "Bing".into(), "B".into(), "https://b/?q={query}".into());
    assert_eq!(default_search_target(&reg, "x").unwrap(), "https://b/?q=x");
}
