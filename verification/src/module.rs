//! Modules: what a pluggable module can do, what it may touch, how its
//! operations fail, and its manifest.
use vstd::prelude::*;
use std::path::PathBuf;
use crate::text::concat;

verus! {

/// `std::path::PathBuf`, carried through as an opaque value.
#[verifier::external_type_specification]
#[verifier::external_body]
pub struct ExPathBuf(PathBuf);

/// `PathBuf::clone`: a copy of the path; nothing about paths is modelled.
pub assume_specification[ <PathBuf as Clone>::clone ](p: &PathBuf) -> PathBuf;

/// A capability a module offers.
#[derive(Debug, Clone, PartialEq, Eq)]
pub enum ModuleCapability {
    TextInference,
    SpeechSynthesis,
    SpeechRecognition,
    WebSearch,
    Channel { name: String },
    Tool { name: String },
}

/// A permission a module asks for.
#[derive(Debug, Clone, Copy, PartialEq, Eq, Structural)]
pub enum ModulePermission {
    FileSystemRead,
    FileSystemWrite,
    NetworkOutbound,
    ExecuteCommand,
    AccessMemory,
}

/// Why a module operation failed.
#[derive(Debug)]
pub enum ModuleError {
    NotFound,
    VersionMismatch(String),
    InstallFailed(String),
    Runtime(String),
}

/// The text shown for a module error.
pub open spec fn module_error_text(e: ModuleError) -> Seq<char> {
    match e {
        ModuleError::NotFound => "模块未找到"@,
        ModuleError::VersionMismatch(v) => "版本不兼容: 需要 Bugs >= "@ + v@,
        ModuleError::InstallFailed(s) => "安装失败: "@ + s@,
        ModuleError::Runtime(s) => "运行时错误: "@ + s@,
    }
}

impl ModuleError {
    /// The human-readable description of the error.
    pub fn message(&self) -> (r: String)
        ensures
            r@ == module_error_text(*self),
    {
        match self {
            ModuleError::NotFound => "模块未找到".to_owned(),
            ModuleError::VersionMismatch(v) => concat("版本不兼容: 需要 Bugs >= ", v.as_str()),
            ModuleError::InstallFailed(s) => concat("安装失败: ", s.as_str()),
            ModuleError::Runtime(s) => concat("运行时错误: ", s.as_str()),
        }
    }
}

/// What a module declares about itself.
#[derive(Debug, Clone)]
pub struct ModuleManifest {
    pub id: String,
    pub name: String,
    pub version: String,
    pub description: String,
    pub author: String,
    pub bugs_version: String,
    pub capabilities: Vec<ModuleCapability>,
    pub permissions: Vec<ModulePermission>,
    pub install_path: PathBuf,
}

} // verus!
