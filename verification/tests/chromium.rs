use bugs::chromium::{download_urls, platform_info, ChromiumBundle, Platform};

#[test]
fn bundle_paths() {
    let b = ChromiumBundle::new(Some("/home/u".into()));
    assert_eq!(b.cache_dir, "/home/u/.bugs/browser/chromium");
    assert_eq!(b.executable_path(Platform::Linux), "/home/u/.bugs/browser/chromium/chrome-linux64/chrome");
    assert_eq!(b.archive_path(Platform::Windows), "/home/u/.bugs/browser/chromium/chrome-win64.zip");
    assert_eq!(ChromiumBundle::new(None).cache_dir, "./.bugs/browser/chromium");
    assert_eq!(platform_info(Platform::MacOs), ("mac-x64", "chrome-mac-x64.zip"));
}

#[test]
fn download_sources() {
    let (g, m) = download_urls(Platform::Linux);
    assert_eq!(g, "https://storage.googleapis.com/chrome-for-testing-public/130.0.6723.31/linux64/chrome-linux64.zip");
    assert_eq!(m, "https://registry.npmmirror.com/-/binary/chrome-for-testing/130.0.6723.31/linux64/chrome-linux64.zip");
    assert_eq!(
        ChromiumBundle::download_failed_message("boom", Platform::Linux),
        format!("下载失败。\n最后错误: boom\n手动下载: {g}")
    );
}
