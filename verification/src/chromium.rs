//! Where the bundled Chromium (Chrome for Testing) lives and where it is
//! downloaded from, per platform.
use vstd::prelude::*;
use std::path::Path;
use crate::text::{chars_of, extend_str, string_of};

verus! {

/// The Chrome for Testing release that is bundled.
pub const CHROMIUM_VERSION: &'static str = "130.0.6723.31";
/// Google's download server.
pub const CDN_GOOGLE: &'static str = "https://storage.googleapis.com/chrome-for-testing-public";
/// A mirror reachable from China.
pub const CDN_MIRROR: &'static str = "https://registry.npmmirror.com/-/binary/chrome-for-testing";

/// `base` joined with the relative path `rel` (`Path::join`).
pub uninterp spec fn joined(base: Seq<char>, rel: Seq<char>) -> Seq<char>;

/// `Path::new(base).join(rel)`, as a string.
#[verifier::external_body]
pub(crate) fn join_path(base: &str, rel: &str) -> (r: String)
    ensures
        r@ == joined(base@, rel@),
{
    Path::new(base).join(rel).to_string_lossy().into_owned()
}

/// The platforms Chrome for Testing is bundled for.
#[derive(Debug, Clone, Copy, PartialEq, Eq, Structural)]
pub enum Platform {
    Linux,
    MacOs,
    Windows,
}

/// The platform's download directory and archive name.
pub open spec fn platform_archive(p: Platform) -> (Seq<char>, Seq<char>) {
    match p {
        Platform::Linux => ("linux64"@, "chrome-linux64.zip"@),
        Platform::MacOs => ("mac-x64"@, "chrome-mac-x64.zip"@),
        Platform::Windows => ("win64"@, "chrome-win64.zip"@),
    }
}

/// The executable's path inside the unpacked archive.
pub open spec fn executable_rel(p: Platform) -> Seq<char> {
    match p {
        Platform::Linux => "chrome-linux64/chrome"@,
        Platform::MacOs => "chrome-mac-x64/Google Chrome for Testing.app/Contents/MacOS/Google Chrome for Testing"@,
        Platform::Windows => "chrome-win64/chrome.exe"@,
    }
}

/// The platform's download directory and archive name.
pub fn platform_info(p: Platform) -> (r: (&'static str, &'static str))
    ensures
        (r.0@, r.1@) == platform_archive(p),
{
    match p {
        Platform::Linux => ("linux64", "chrome-linux64.zip"),
        Platform::MacOs => ("mac-x64", "chrome-mac-x64.zip"),
        Platform::Windows => ("win64", "chrome-win64.zip"),
    }
}

/// The archive's URL on a download server.
pub open spec fn archive_url(cdn: Seq<char>, p: Platform) -> Seq<char> {
    cdn + "/"@ + CHROMIUM_VERSION@ + "/"@ + platform_archive(p).0 + "/"@ + platform_archive(p).1
}

fn url_on(cdn: &str, p: Platform) -> (r: String)
    ensures
        r@ == archive_url(cdn@, p),
{
    let (dir, zip) = platform_info(p);
    let mut v = chars_of(cdn);
    extend_str(&mut v, "/");
    extend_str(&mut v, CHROMIUM_VERSION);
    extend_str(&mut v, "/");
    extend_str(&mut v, dir);
    extend_str(&mut v, "/");
    extend_str(&mut v, zip);
    string_of(&v)
}

/// The URLs to try, in order: Google's server, then the mirror.
pub fn download_urls(p: Platform) -> (r: (String, String))
    ensures
        r.0@ == archive_url(CDN_GOOGLE@, p),
        r.1@ == archive_url(CDN_MIRROR@, p),
{
    (url_on(CDN_GOOGLE, p), url_on(CDN_MIRROR, p))
}

/// The bundled Chromium, cached under the user's home directory.
pub struct ChromiumBundle {
    pub cache_dir: String,
}

impl ChromiumBundle {
    /// The bundle cached in `.bugs/browser/chromium` under `home` (the
    /// working directory when there is no home directory).
    pub fn new(home: Option<String>) -> (r: Self)
        ensures
            r.cache_dir@ == joined(
                match home { Some(h) => h@, None => "."@ },
                ".bugs/browser/chromium"@,
            ),
    {
        let base = match home { Some(h) => h, None => ".".to_owned() };
        ChromiumBundle { cache_dir: join_path(base.as_str(), ".bugs/browser/chromium") }
    }

    /// Where the executable is once the archive is unpacked.
    pub fn executable_path(&self, p: Platform) -> (r: String)
        ensures
            r@ == joined(self.cache_dir@, executable_rel(p)),
    {
        let rel = match p {
            Platform::Linux => "chrome-linux64/chrome",
            Platform::MacOs => "chrome-mac-x64/Google Chrome for Testing.app/Contents/MacOS/Google Chrome for Testing",
            Platform::Windows => "chrome-win64/chrome.exe",
        };
        join_path(self.cache_dir.as_str(), rel)
    }

    /// Where the archive is stored while it is unpacked.
    pub fn archive_path(&self, p: Platform) -> (r: String)
        ensures
            r@ == joined(self.cache_dir@, platform_archive(p).1),
    {
        let (_dir, zip) = platform_info(p);
        join_path(self.cache_dir.as_str(), zip)
    }

    /// The message when every download failed.
    pub fn download_failed_message(last_error: &str, p: Platform) -> (r: String)
        ensures
            r@ == "下载失败。\n最后错误: "@ + last_error@ + "\n手动下载: "@ + archive_url(CDN_GOOGLE@, p),
    {
        let mut v = chars_of("下载失败。\n最后错误: ");
        extend_str(&mut v, last_error);
        extend_str(&mut v, "\n手动下载: ");
        let u = url_on(CDN_GOOGLE, p);
        extend_str(&mut v, u.as_str());
        string_of(&v)
    }
}

} // verus!
