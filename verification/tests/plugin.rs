use chunk_render::module_preload_polyfill::{
    HookLoadOutput, HookResolveIdOutput, HookSideEffects, ModulePreloadPolyfillPlugin,
};

#[test]
fn plugin_name() {
    let plugin = ModulePreloadPolyfillPlugin { skip: false };
    assert_eq!(plugin.name(), "builtin:module-preload-polyfill");
}

#[test]
fn polyfill_specifier_resolves_to_the_virtual_id() {
    let plugin = ModulePreloadPolyfillPlugin { skip: false };
    assert_eq!(
        plugin.resolve_id("vite/modulepreload-polyfill"),
        Some(HookResolveIdOutput { id: "\tvite/modulepreload-polyfill.js".to_string() })
    );
    let skipping = ModulePreloadPolyfillPlugin { skip: true };
    assert_eq!(
        skipping.resolve_id("vite/modulepreload-polyfill"),
        Some(HookResolveIdOutput { id: "\tvite/modulepreload-polyfill.js".to_string() })
    );
}

#[test]
fn other_specifiers_are_not_resolved() {
    let plugin = ModulePreloadPolyfillPlugin { skip: false };
    assert_eq!(plugin.resolve_id("vite/modulepreload-polyfill.js"), None);
    assert_eq!(plugin.resolve_id("\tvite/modulepreload-polyfill.js"), None);
    assert_eq!(plugin.resolve_id(""), None);
}

#[test]
fn virtual_id_loads_the_guarded_polyfill() {
    let plugin = ModulePreloadPolyfillPlugin { skip: false };
    assert_eq!(
        plugin.load("\tvite/modulepreload-polyfill.js", "(function(){})();"),
        Some(HookLoadOutput {
            code: "__VITE_IS_MODERN__&&(function(){})();".to_string(),
            side_effects: Some(HookSideEffects::True),
        })
    );
}

#[test]
fn other_ids_are_not_loaded() {
    let plugin = ModulePreloadPolyfillPlugin { skip: false };
    assert_eq!(plugin.load("vite/modulepreload-polyfill", "p"), None);
    assert_eq!(plugin.load("./main.js", "p"), None);
}

#[test]
fn skipping_plugin_loads_an_empty_module_for_every_id() {
    let plugin = ModulePreloadPolyfillPlugin { skip: true };
    let empty = || HookLoadOutput { code: String::new(), side_effects: None };
    assert_eq!(plugin.load("\tvite/modulepreload-polyfill.js", "p"), Some(empty()));
    assert_eq!(plugin.load("./main.js", "p"), Some(empty()));
}
