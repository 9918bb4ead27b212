//! Option normalization: fills in the defaults of whatever the user left out.

use crate::bundler_options::{
    BundlerOptions, EsModuleFlag, ExperimentalOptions, ModuleType, NormalizedBundlerOptions,
    OutputExports, OutputFormat, Platform, ResolveOptions, SourceMapType,
};
use crate::fx_map::{
    insert_module_type, insert_text, module_type_entries, new_module_type_map, new_text_map,
    text_entries,
};
use crate::inject::{inject_config_for, inject_config_of, injected_imports};
use rustc_hash::FxHashMap;
use vstd::prelude::*;
use vstd::string::*;

verus! {

/// The normalized options and, apart from them, the options of the resolver.
pub struct NormalizeOptionsReturn<External, IgnoreList, PathTransform> {
    pub options: NormalizedBundlerOptions<External, IgnoreList, PathTransform>,
    pub resolve_options: ResolveOptions,
}

impl Default for ResolveOptions {
    fn default() -> (options: Self)
        ensures
            options.alias is None,
            options.condition_names is None,
            options.extensions is None,
            options.main_fields is None,
            options.symlinks is None,
    {
        ResolveOptions {
            alias: None,
            condition_names: None,
            extensions: None,
            main_fields: None,
            symlinks: None,
        }
    }
}

/// An extension without its leading dot, if it has one.
pub open spec fn strip_dot(extension: Seq<char>) -> Seq<char> {
    if extension.len() > 0 && extension[0] == '.' {
        extension.subrange(1, extension.len() as int)
    } else {
        extension
    }
}

/// The module types of the extensions that are known without configuration.
pub open spec fn default_module_types() -> Map<Seq<char>, ModuleType> {
    Map::<Seq<char>, ModuleType>::empty().insert("js"@, ModuleType::Js).insert(
        "mjs"@,
        ModuleType::Js,
    ).insert("cjs"@, ModuleType::Js).insert("jsx"@, ModuleType::Jsx).insert(
        "ts"@,
        ModuleType::Ts,
    ).insert("mts"@, ModuleType::Ts).insert("cts"@, ModuleType::Ts).insert(
        "tsx"@,
        ModuleType::Tsx,
    ).insert("json"@, ModuleType::Json).insert("txt"@, ModuleType::Text)
}

/// `base` overlaid with the user's entries, each under its extension without the leading
/// dot; a later entry replaces an earlier one for the same extension.
pub open spec fn with_user_module_types(
    base: Map<Seq<char>, ModuleType>,
    user: Seq<(String, ModuleType)>,
) -> Map<Seq<char>, ModuleType>
    decreases user.len(),
{
    if user.len() == 0 {
        base
    } else {
        with_user_module_types(base, user.drop_last()).insert(
            strip_dot(user.last().0@),
            user.last().1,
        )
    }
}

/// The map that a list of entries stands for; a later entry replaces an earlier one for
/// the same key.
pub open spec fn text_map_of(entries: Seq<(String, String)>) -> Map<Seq<char>, Seq<char>>
    decreases entries.len(),
{
    if entries.len() == 0 {
        Map::empty()
    } else {
        text_map_of(entries.drop_last()).insert(entries.last().0@, entries.last().1@)
    }
}

/// The entries of a list as pairs of texts.
pub open spec fn text_pairs(entries: Seq<(String, String)>) -> Seq<(Seq<char>, Seq<char>)> {
    Seq::new(entries.len(), |i: int| (entries[i].0@, entries[i].1@))
}

/// Whether some entry has the key.
pub open spec fn has_key(entries: Seq<(String, String)>, key: Seq<char>) -> bool {
    exists|i: int| 0 <= i < entries.len() && (#[trigger] entries[i]).0@ == key
}

/// The substitutions after normalization: the user's, and, unless the platform is neutral
/// or the user defines it, `process.env.NODE_ENV` as the quoted value of the environment
/// variable `NODE_ENV`, where that is set.
pub open spec fn normalized_define(
    define: Seq<(String, String)>,
    platform: Platform,
    node_env: Option<Seq<char>>,
) -> Seq<(Seq<char>, Seq<char>)> {
    match node_env {
        Some(value) => if platform != Platform::Neutral && !has_key(
            define,
            "process.env.NODE_ENV"@,
        ) {
            text_pairs(define).push(("process.env.NODE_ENV"@, "\""@ + value + "\""@))
        } else {
            text_pairs(define)
        },
        None => text_pairs(define),
    }
}

/// The text of an optional setting, or its default.
pub open spec fn text_or(value: Option<String>, default: Seq<char>) -> Seq<char> {
    match value {
        Some(text) => text@,
        None => default,
    }
}

/// The entries of an optional list; none for an absent list.
pub open spec fn entries_or_empty<T>(list: Option<Vec<T>>) -> Seq<T> {
    match list {
        Some(entries) => entries@,
        None => Seq::empty(),
    }
}

fn or_text(value: Option<String>, default: &str) -> (text: String)
    ensures
        text@ == text_or(value, default@),
{
    match value {
        Some(text) => text,
        None => default.to_owned(),
    }
}

/// Drops the leading dot of an extension.
pub fn strip_leading_dot(extension: String) -> (stripped: String)
    ensures
        stripped@ == strip_dot(extension@),
{
    let text = extension.as_str();
    let len = text.unicode_len();
    if len > 0 && text.get_char(0) == '.' {
        text.substring_char(1, len).to_owned()
    } else {
        extension
    }
}

fn build_module_types(user: Option<Vec<(String, ModuleType)>>) -> (table: FxHashMap<
    String,
    ModuleType,
>)
    ensures
        module_type_entries(table) == with_user_module_types(
            default_module_types(),
            entries_or_empty(user),
        ),
{
    let mut table = new_module_type_map();
    insert_module_type(&mut table, "js".to_owned(), ModuleType::Js);
    insert_module_type(&mut table, "mjs".to_owned(), ModuleType::Js);
    insert_module_type(&mut table, "cjs".to_owned(), ModuleType::Js);
    insert_module_type(&mut table, "jsx".to_owned(), ModuleType::Jsx);
    insert_module_type(&mut table, "ts".to_owned(), ModuleType::Ts);
    insert_module_type(&mut table, "mts".to_owned(), ModuleType::Ts);
    insert_module_type(&mut table, "cts".to_owned(), ModuleType::Ts);
    insert_module_type(&mut table, "tsx".to_owned(), ModuleType::Tsx);
    insert_module_type(&mut table, "json".to_owned(), ModuleType::Json);
    insert_module_type(&mut table, "txt".to_owned(), ModuleType::Text);
    match user {
        Some(entries) => {
            let ghost all = entries@;
            assert(all.take(0) =~= Seq::<(String, ModuleType)>::empty());
            for entry in it: entries
                invariant
                    it.seq() == all,
                    module_type_entries(table) == with_user_module_types(
                        default_module_types(),
                        all.take(it.index() as int),
                    ),
            {
                proof {
                    let next = all.take(it.index() + 1);
                    assert(next.drop_last() =~= all.take(it.index() as int));
                    assert(next.last() == entry);
                }
                let (extension, module_type) = entry;
                insert_module_type(&mut table, strip_leading_dot(extension), module_type);
            }
            assert(all.take(all.len() as int) =~= all);
        },
        None => {},
    }
    table
}

fn build_text_map(entries: Option<Vec<(String, String)>>) -> (table: FxHashMap<String, String>)
    ensures
        text_entries(table) == text_map_of(entries_or_empty(entries)),
{
    let mut table = new_text_map();
    match entries {
        Some(entries) => {
            let ghost all = entries@;
            assert(all.take(0) =~= Seq::<(String, String)>::empty());
            for entry in it: entries
                invariant
                    it.seq() == all,
                    text_entries(table) == text_map_of(all.take(it.index() as int)),
            {
                proof {
                    let next = all.take(it.index() + 1);
                    assert(next.drop_last() =~= all.take(it.index() as int));
                    assert(next.last() == entry);
                }
                let (key, value) = entry;
                insert_text(&mut table, key, value);
            }
            assert(all.take(all.len() as int) =~= all);
        },
        None => {},
    }
    table
}

fn contains_key(entries: &Vec<(String, String)>, key: &str) -> (found: bool)
    ensures
        found == has_key(entries@, key@),
{
    let mut i: usize = 0;
    while i < entries.len()
        invariant
            i <= entries.len(),
            forall|j: int| 0 <= j < i ==> (#[trigger] entries@[j]).0@ != key@,
        decreases entries.len() - i,
    {
        if entries[i].0.as_str().eq(key) {
            return true;
        }
        i += 1;
    }
    false
}

fn build_define(
    define: Option<Vec<(String, String)>>,
    platform: Platform,
    node_env: Option<String>,
) -> (entries: Vec<(String, String)>)
    ensures
        text_pairs(entries@) == normalized_define(
            entries_or_empty(define),
            platform,
            match node_env {
                Some(value) => Some(value@),
                None => None,
            },
        ),
{
    let mut entries = match define {
        Some(entries) => entries,
        None => Vec::new(),
    };
    let ghost before = entries@;
    match platform {
        Platform::Node | Platform::Browser => {
            if !contains_key(&entries, "process.env.NODE_ENV") {
                match node_env {
                    Some(value) => {
                        let mut quoted = "\"".to_owned();
                        quoted.append(value.as_str());
                        quoted.append("\"");
                        entries.push(("process.env.NODE_ENV".to_owned(), quoted));
                        assert(text_pairs(entries@) =~= text_pairs(before).push(
                            ("process.env.NODE_ENV"@, "\""@ + value@ + "\""@),
                        ));
                    },
                    None => {},
                }
            }
        },
        Platform::Neutral => {},
    }
    entries
}

/// Normalizes the options: what is given is kept, and a default stands in only for what
/// is left out. `node_env` is the value of the environment variable `NODE_ENV`, if it is
/// set; `current_dir` is the working directory of the process, used where the options name
/// none.
pub fn normalize_options<External, IgnoreList, PathTransform>(
    raw_options: BundlerOptions<External, IgnoreList, PathTransform>,
    node_env: Option<String>,
    current_dir: String,
) -> (normalized: NormalizeOptionsReturn<External, IgnoreList, PathTransform>)
    ensures
        normalized.resolve_options == match raw_options.resolve {
            Some(resolve) => resolve,
            None => ResolveOptions {
                alias: None,
                condition_names: None,
                extensions: None,
                main_fields: None,
                symlinks: None,
            },
        },
        normalized.options.input@ == entries_or_empty(raw_options.input),
        normalized.options.cwd@ == text_or(raw_options.cwd, current_dir@),
        normalized.options.external == raw_options.external,
        normalized.options.treeshake == raw_options.treeshake,
        normalized.options.sourcemap_ignore_list == raw_options.sourcemap_ignore_list,
        normalized.options.sourcemap_path_transform == raw_options.sourcemap_path_transform,
        normalized.options.exports == match raw_options.exports {
            Some(exports) => exports,
            None => OutputExports::Auto,
        },
        normalized.options.es_module == match raw_options.es_module {
            Some(flag) => flag,
            None => EsModuleFlag::IfDefaultProp,
        },
        normalized.options.experimental == match raw_options.experimental {
            Some(experimental) => experimental,
            None => ExperimentalOptions {
                strict_execution_order: None,
                disable_live_bindings: None,
            },
        },
        normalized.options.platform == match raw_options.platform {
            Some(platform) => platform,
            None => Platform::Browser,
        },
        normalized.options.name == raw_options.name,
        normalized.options.entry_filenames@ == text_or(raw_options.entry_filenames, "[name].js"@),
        normalized.options.chunk_filenames@ == text_or(
            raw_options.chunk_filenames,
            "[name]-[hash].js"@,
        ),
        normalized.options.asset_filenames@ == text_or(
            raw_options.asset_filenames,
            "assets/[name]-[hash][extname]"@,
        ),
        normalized.options.css_entry_filenames@ == text_or(
            raw_options.css_entry_filenames,
            "[name].css"@,
        ),
        normalized.options.css_chunk_filenames@ == text_or(
            raw_options.css_chunk_filenames,
            "[name]-[hash].css"@,
        ),
        normalized.options.banner == raw_options.banner,
        normalized.options.footer == raw_options.footer,
        normalized.options.intro == raw_options.intro,
        normalized.options.outro == raw_options.outro,
        normalized.options.dir@ == text_or(raw_options.dir, "dist"@),
        normalized.options.format == match raw_options.format {
            Some(format) => format,
            None => OutputFormat::Esm,
        },
        text_entries(normalized.options.globals) == text_map_of(
            entries_or_empty(raw_options.globals),
        ),
        normalized.options.sourcemap == match raw_options.sourcemap {
            Some(sourcemap) => sourcemap,
            None => SourceMapType::Hidden,
        },
        normalized.options.shim_missing_exports == match raw_options.shim_missing_exports {
            Some(shim) => shim,
            None => false,
        },
        module_type_entries(normalized.options.module_types) == with_user_module_types(
            default_module_types(),
            entries_or_empty(raw_options.module_types),
        ),
        normalized.options.minify == match raw_options.minify {
            Some(minify) => minify,
            None => false,
        },
        text_pairs(normalized.options.define@) == normalized_define(
            entries_or_empty(raw_options.define),
            normalized.options.platform,
            match node_env {
                Some(value) => Some(value@),
                None => None,
            },
        ),
        normalized.options.inject@ == entries_or_empty(raw_options.inject),
        normalized.options.oxc_inject_global_variables_config == inject_config_of(
            injected_imports(entries_or_empty(raw_options.inject)),
        ),
{
    let platform = match raw_options.platform {
        Some(platform) => platform,
        None => Platform::Browser,
    };
    let resolve_options = match raw_options.resolve {
        Some(resolve) => resolve,
        None => ResolveOptions::default(),
    };
    let module_types = build_module_types(raw_options.module_types);
    let globals = build_text_map(raw_options.globals);
    let define = build_define(raw_options.define, platform, node_env);
    let oxc_inject_global_variables_config = inject_config_for(&raw_options.inject);
    let options = NormalizedBundlerOptions {
        input: match raw_options.input {
            Some(input) => input,
            None => Vec::new(),
        },
        cwd: or_text(raw_options.cwd, current_dir.as_str()),
        external: raw_options.external,
        treeshake: raw_options.treeshake,
        platform,
        name: raw_options.name,
        entry_filenames: or_text(raw_options.entry_filenames, "[name].js"),
        chunk_filenames: or_text(raw_options.chunk_filenames, "[name]-[hash].js"),
        asset_filenames: or_text(raw_options.asset_filenames, "assets/[name]-[hash][extname]"),
        css_entry_filenames: or_text(raw_options.css_entry_filenames, "[name].css"),
        css_chunk_filenames: or_text(raw_options.css_chunk_filenames, "[name]-[hash].css"),
        banner: raw_options.banner,
        footer: raw_options.footer,
        intro: raw_options.intro,
        outro: raw_options.outro,
        es_module: match raw_options.es_module {
            Some(flag) => flag,
            None => EsModuleFlag::default(),
        },
        dir: or_text(raw_options.dir, "dist"),
        format: match raw_options.format {
            Some(format) => format,
            None => OutputFormat::Esm,
        },
        exports: match raw_options.exports {
            Some(exports) => exports,
            None => OutputExports::Auto,
        },
        globals,
        sourcemap: match raw_options.sourcemap {
            Some(sourcemap) => sourcemap,
            None => SourceMapType::Hidden,
        },
        sourcemap_ignore_list: raw_options.sourcemap_ignore_list,
        sourcemap_path_transform: raw_options.sourcemap_path_transform,
        shim_missing_exports: match raw_options.shim_missing_exports {
            Some(shim) => shim,
            None => false,
        },
        module_types,
        experimental: match raw_options.experimental {
            Some(experimental) => experimental,
            None => ExperimentalOptions::default(),
        },
        minify: match raw_options.minify {
            Some(minify) => minify,
            None => false,
        },
        define,
        inject: match raw_options.inject {
            Some(inject) => inject,
            None => Vec::new(),
        },
        oxc_inject_global_variables_config,
    };
    NormalizeOptionsReturn { options, resolve_options }
}

} // verus!
