//! Build options: as the user gives them, and normalized.

use crate::inject::InjectItem;
use rustc_hash::FxHashMap;
use vstd::prelude::*;

verus! {

/// The platform the output runs on.
#[derive(Clone, Copy, Debug, PartialEq, Eq, Structural)]
pub enum Platform {
    Node,
    Browser,
    Neutral,
}

/// How the content of a file is to be read.
#[derive(Clone, Copy, Debug, PartialEq, Eq, Structural)]
pub enum ModuleType {
    Js,
    Jsx,
    Ts,
    Tsx,
    Json,
    Text,
}

/// The module format of the output.
#[derive(Clone, Copy, Debug, PartialEq, Eq, Structural)]
pub enum OutputFormat {
    Esm,
    Cjs,
    Iife,
    Umd,
}

/// Whether and where source maps are written.
#[derive(Clone, Copy, Debug, PartialEq, Eq, Structural)]
pub enum SourceMapType {
    File,
    Inline,
    Hidden,
}

/// One entry point.
#[derive(Debug, PartialEq, Eq)]
pub struct InputItem {
    pub name: Option<String>,
    pub import: String,
}

/// How module requests are resolved. Normalization hands these on unchanged.
#[derive(Debug, PartialEq, Eq)]
pub struct ResolveOptions {
    pub alias: Option<Vec<(String, Vec<String>)>>,
    pub condition_names: Option<Vec<String>>,
    pub extensions: Option<Vec<String>>,
    pub main_fields: Option<Vec<String>>,
    pub symlinks: Option<bool>,
}

/// Which kind of exports the entry chunk offers.
#[derive(Clone, Copy, Debug, PartialEq, Eq, Structural)]
pub enum OutputExports {
    /// Decided from what the entry module exports.
    Auto,
    /// The default export only.
    Default,
    /// Named exports.
    Named,
    /// No exports.
    Nothing,
}

/// When the output is marked with the `__esModule` property.
#[derive(Clone, Copy, Debug, PartialEq, Eq, Structural)]
pub enum EsModuleFlag {
    Always,
    Never,
    IfDefaultProp,
}

impl Default for EsModuleFlag {
    fn default() -> (flag: Self)
        ensures
            flag == EsModuleFlag::IfDefaultProp,
    {
        EsModuleFlag::IfDefaultProp
    }
}

/// Switches for behaviour that is still being tried out.
#[derive(Clone, Copy, Debug, PartialEq, Eq, Structural)]
pub struct ExperimentalOptions {
    pub strict_execution_order: Option<bool>,
    pub disable_live_bindings: Option<bool>,
}

impl Default for ExperimentalOptions {
    fn default() -> (options: Self)
        ensures
            options == (ExperimentalOptions {
                strict_execution_order: None,
                disable_live_bindings: None,
            }),
    {
        ExperimentalOptions { strict_execution_order: None, disable_live_bindings: None }
    }
}

/// Whether unused code is removed, and what is assumed of module side effects.
#[derive(Clone, Copy, Debug, PartialEq, Eq, Structural)]
pub enum TreeshakeOptions {
    Boolean(bool),
    Options { module_side_effects: bool },
}

impl Default for TreeshakeOptions {
    fn default() -> (options: Self)
        ensures
            options == TreeshakeOptions::Boolean(true),
    {
        TreeshakeOptions::Boolean(true)
    }
}

/// The options as the user gives them: everything may be left out. Maps are lists of
/// entries; where a key occurs twice, the later entry counts. `External`, `IgnoreList` and
/// `PathTransform` are the caller's own types for what decides whether a module is
/// external, whether a source is left out of source maps, and how a source path is
/// rewritten; normalization hands them on as they are.
#[derive(Debug, PartialEq, Eq)]
pub struct BundlerOptions<External, IgnoreList, PathTransform> {
    pub input: Option<Vec<InputItem>>,
    pub cwd: Option<String>,
    pub external: Option<External>,
    pub treeshake: TreeshakeOptions,
    pub platform: Option<Platform>,
    pub name: Option<String>,
    pub entry_filenames: Option<String>,
    pub chunk_filenames: Option<String>,
    pub asset_filenames: Option<String>,
    pub css_entry_filenames: Option<String>,
    pub css_chunk_filenames: Option<String>,
    pub banner: Option<String>,
    pub footer: Option<String>,
    pub intro: Option<String>,
    pub outro: Option<String>,
    pub es_module: Option<EsModuleFlag>,
    pub dir: Option<String>,
    pub format: Option<OutputFormat>,
    pub exports: Option<OutputExports>,
    pub globals: Option<Vec<(String, String)>>,
    pub sourcemap: Option<SourceMapType>,
    pub sourcemap_ignore_list: Option<IgnoreList>,
    pub sourcemap_path_transform: Option<PathTransform>,
    pub shim_missing_exports: Option<bool>,
    pub module_types: Option<Vec<(String, ModuleType)>>,
    pub experimental: Option<ExperimentalOptions>,
    pub minify: Option<bool>,
    pub define: Option<Vec<(String, String)>>,
    pub inject: Option<Vec<InjectItem>>,
    pub resolve: Option<ResolveOptions>,
}

impl<External, IgnoreList, PathTransform> Default for BundlerOptions<
    External,
    IgnoreList,
    PathTransform,
> {
    /// The options with everything left out.
    fn default() -> (options: Self)
        ensures
            options == (BundlerOptions::<External, IgnoreList, PathTransform> {
                input: None,
                cwd: None,
                external: None,
                treeshake: TreeshakeOptions::Boolean(true),
                platform: None,
                name: None,
                entry_filenames: None,
                chunk_filenames: None,
                asset_filenames: None,
                css_entry_filenames: None,
                css_chunk_filenames: None,
                banner: None,
                footer: None,
                intro: None,
                outro: None,
                es_module: None,
                dir: None,
                format: None,
                exports: None,
                globals: None,
                sourcemap: None,
                sourcemap_ignore_list: None,
                sourcemap_path_transform: None,
                shim_missing_exports: None,
                module_types: None,
                experimental: None,
                minify: None,
                define: None,
                inject: None,
                resolve: None,
            }),
    {
        BundlerOptions {
            input: None,
            cwd: None,
            external: None,
            treeshake: TreeshakeOptions::Boolean(true),
            platform: None,
            name: None,
            entry_filenames: None,
            chunk_filenames: None,
            asset_filenames: None,
            css_entry_filenames: None,
            css_chunk_filenames: None,
            banner: None,
            footer: None,
            intro: None,
            outro: None,
            es_module: None,
            dir: None,
            format: None,
            exports: None,
            globals: None,
            sourcemap: None,
            sourcemap_ignore_list: None,
            sourcemap_path_transform: None,
            shim_missing_exports: None,
            module_types: None,
            experimental: None,
            minify: None,
            define: None,
            inject: None,
            resolve: None,
        }
    }
}

/// The options with every default filled in.
pub struct NormalizedBundlerOptions<External, IgnoreList, PathTransform> {
    pub input: Vec<InputItem>,
    pub cwd: String,
    pub external: Option<External>,
    pub treeshake: TreeshakeOptions,
    pub platform: Platform,
    pub name: Option<String>,
    pub entry_filenames: String,
    pub chunk_filenames: String,
    pub asset_filenames: String,
    pub css_entry_filenames: String,
    pub css_chunk_filenames: String,
    pub banner: Option<String>,
    pub footer: Option<String>,
    pub intro: Option<String>,
    pub outro: Option<String>,
    pub es_module: EsModuleFlag,
    pub dir: String,
    pub format: OutputFormat,
    pub exports: OutputExports,
    pub globals: FxHashMap<String, String>,
    pub sourcemap: SourceMapType,
    pub sourcemap_ignore_list: Option<IgnoreList>,
    pub sourcemap_path_transform: Option<PathTransform>,
    pub shim_missing_exports: bool,
    pub module_types: FxHashMap<String, ModuleType>,
    pub experimental: ExperimentalOptions,
    pub minify: bool,
    pub define: Vec<(String, String)>,
    pub inject: Vec<InjectItem>,
    pub oxc_inject_global_variables_config: oxc::minifier::InjectGlobalVariablesConfig,
}

} // verus!
