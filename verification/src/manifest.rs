//! The game manifest: what a game is, how it is installed, launched,
//! updated and verified. Maps of the JSON form (headers, environment) are
//! held as lists of pairs in the order they were read.
use vstd::prelude::*;

verus! {

#[derive(Clone, Debug)]
pub struct GameManifest {
    pub schema_version: u32,
    pub id: String,
    pub name: String,
    pub description: String,
    pub assets: ManifestAssets,
    pub installation: InstallationConfig,
    pub launch: LaunchConfig,
    pub update: UpdateConfig,
    pub verification: VerificationConfig,
}

#[derive(Clone, Debug)]
pub struct VerificationConfig {
    pub required_files: Vec<String>,
    pub checksums: Vec<VerificationChecksumConfig>,
}

#[derive(Clone, Debug)]
pub struct VerificationChecksumConfig {
    pub path: String,
    pub algorithm: String,
    pub value: String,
}

#[derive(Clone, Debug)]
pub struct ManifestAssets {
    pub banner: String,
    pub icon: String,
}

#[derive(Clone, Debug)]
pub struct InstallationConfig {
    pub methods: Vec<InstallMethod>,
}

#[derive(Clone, Debug)]
pub struct InstallMethod {
    pub kind: String,
    pub label: String,
    pub url: Option<String>,
    pub runner: Option<String>,
    pub compat_prefix: Option<String>,
    pub install_path: Option<String>,
    pub launch_after_install: Option<bool>,
    pub format: Option<String>,
    pub strip_top_level_dir: bool,
    pub headers: Vec<(String, String)>,
}

#[derive(Clone, Debug)]
pub struct LaunchConfig {
    pub runner: String,
    pub executable: Option<String>,
    pub args: Vec<String>,
    pub env: Vec<(String, String)>,
    pub unset_env: Vec<String>,
    pub battl_eye: Option<BattlEyeConfig>,
}

#[derive(Clone, Debug)]
pub struct BattlEyeConfig {
    pub enabled: bool,
    pub executable: String,
    pub args: Vec<String>,
    pub install_args: Vec<String>,
    pub install_before_launch: bool,
    pub launch_mode: Option<String>,
    pub path_base: Option<String>,
    pub working_dir: Option<String>,
    pub working_dir_base: Option<String>,
    pub required: bool,
}

#[derive(Clone, Debug)]
pub struct UpdateConfig {
    pub strategy: String,
    pub runner: Option<String>,
    pub compat_prefix: Option<String>,
    pub executable: Option<String>,
    pub args: Vec<String>,
    pub path_base: Option<String>,
    pub working_dir: Option<String>,
    pub working_dir_base: Option<String>,
    pub env: Vec<(String, String)>,
    pub unset_env: Vec<String>,
    pub manifest_url: Option<String>,
    pub manifest_format: Option<String>,
    pub target_dir: Option<String>,
    pub target_dir_base: Option<String>,
    pub max_concurrent_downloads: Option<usize>,
}

/// The default of the manifest's switches that are on unless stated.
pub fn default_true() -> (r: bool)
    ensures
        r,
{
    true
}

/// The view of an optional text.
pub open spec fn opt_view(o: Option<String>) -> Option<Seq<char>> {
    match o {
        Some(s) => Some(s@),
        None => None,
    }
}

} // verus!
