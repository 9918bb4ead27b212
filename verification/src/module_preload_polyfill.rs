//! The module-preload polyfill plugin: resolves one virtual specifier and loads the
//! polyfill for it.

use vstd::prelude::*;
use vstd::string::*;

verus! {

/// Whether a module's side effects must be kept.
#[derive(Clone, Copy, Debug, PartialEq, Eq, Structural)]
pub enum HookSideEffects {
    True,
    False,
    NoTreeshake,
}

/// What resolving a specifier gives.
#[derive(Debug, PartialEq, Eq)]
pub struct HookResolveIdOutput {
    pub id: String,
}

/// What loading a module gives.
#[derive(Debug, PartialEq, Eq)]
pub struct HookLoadOutput {
    pub code: String,
    pub side_effects: Option<HookSideEffects>,
}

/// The plugin. With `skip` set, loading gives an empty module for every id.
#[derive(Debug, PartialEq, Eq)]
pub struct ModulePreloadPolyfillPlugin {
    pub skip: bool,
}

/// The specifier that stands for the polyfill.
pub open spec fn polyfill_specifier() -> Seq<char> {
    "vite/modulepreload-polyfill"@
}

/// The id that the specifier resolves to. It starts with a tab, which no file name does.
pub open spec fn resolved_polyfill_id() -> Seq<char> {
    "\tvite/modulepreload-polyfill.js"@
}

/// The code of the polyfill module: the polyfill runs only in a modern build.
pub open spec fn polyfill_code(polyfill: Seq<char>) -> Seq<char> {
    "__VITE_IS_MODERN__"@ + "&&"@ + polyfill
}

impl ModulePreloadPolyfillPlugin {
    /// The name the plugin is known by.
    pub fn name(&self) -> (name: String)
        ensures
            name@ == "builtin:module-preload-polyfill"@,
    {
        "builtin:module-preload-polyfill".to_owned()
    }

    /// Resolves the polyfill's specifier to its id; every other specifier is left to others.
    pub fn resolve_id(&self, specifier: &str) -> (resolved: Option<HookResolveIdOutput>)
        ensures
            match resolved {
                Some(output) => specifier@ == polyfill_specifier() && output.id@
                    == resolved_polyfill_id(),
                None => specifier@ != polyfill_specifier(),
            },
    {
        if specifier.eq("vite/modulepreload-polyfill") {
            Some(HookResolveIdOutput { id: "\tvite/modulepreload-polyfill.js".to_owned() })
        } else {
            None
        }
    }

    /// Loads the module `id`, given the text of the polyfill. A skipping plugin gives an
    /// empty module for every id. Otherwise the polyfill's id gives the polyfill, guarded
    /// by the modern-build flag and marked as having side effects; every other id is left
    /// to others.
    pub fn load(&self, id: &str, polyfill: &str) -> (loaded: Option<HookLoadOutput>)
        ensures
            match loaded {
                Some(output) => if self.skip {
                    output.code@ == Seq::<char>::empty() && output.side_effects is None
                } else {
                    id@ == resolved_polyfill_id() && output.code@ == polyfill_code(polyfill@)
                        && output.side_effects == Some(HookSideEffects::True)
                },
                None => !self.skip && id@ != resolved_polyfill_id(),
            },
    {
        if self.skip {
            return Some(HookLoadOutput { code: String::new(), side_effects: None });
        }
        if id.eq("\tvite/modulepreload-polyfill.js") {
            let mut code = "__VITE_IS_MODERN__".to_owned();
            code.append("&&");
            code.append(polyfill);
            Some(HookLoadOutput { code, side_effects: Some(HookSideEffects::True) })
        } else {
            None
        }
    }
}

} // verus!
