//! The inject list and the configuration that the global-variable injector of oxc takes.

use vstd::prelude::*;

verus! {

#[verifier::external_type_specification]
#[verifier::external_body]
pub struct ExInjectImport(oxc::minifier::InjectImport);

#[verifier::external_type_specification]
#[verifier::external_body]
pub struct ExInjectGlobalVariablesConfig(oxc::minifier::InjectGlobalVariablesConfig);

/// One import to inject wherever a global of that name is used.
#[derive(Debug, PartialEq, Eq)]
#[allow(inconsistent_fields)]
pub enum InjectItem {
    /// `import { imported as alias } from "from"`; without alias, under its own name.
    Named { imported: String, alias: Option<String>, from: String },
    /// `import * as alias from "from"`.
    Namespace { alias: String, from: String },
}

/// What `InjectImport::named_specifier` of oxc makes of a source, an imported name and a
/// local name.
pub uninterp spec fn named_specifier_of(
    source: Seq<char>,
    imported: Seq<char>,
    local: Seq<char>,
) -> oxc::minifier::InjectImport;

/// What `InjectImport::namespace_specifier` of oxc makes of a source and a local name.
pub uninterp spec fn namespace_specifier_of(
    source: Seq<char>,
    local: Seq<char>,
) -> oxc::minifier::InjectImport;

/// What `InjectGlobalVariablesConfig::new` of oxc makes of a list of imports.
pub uninterp spec fn inject_config_of(
    injects: Seq<oxc::minifier::InjectImport>,
) -> oxc::minifier::InjectGlobalVariablesConfig;

/// `InjectImport::named_specifier` of oxc_minifier, called with an imported name: it stores
/// copies of its three arguments and a replacement name derived from `local`, so the
/// result depends on the three texts alone.
#[verifier::external_body]
pub(crate) fn named_specifier(source: &str, imported: &str, local: &str) -> (import:
    oxc::minifier::InjectImport)
    ensures
        import == named_specifier_of(source@, imported@, local@),
{
    oxc::minifier::InjectImport::named_specifier(source, Some(imported), local)
}

/// `InjectImport::namespace_specifier` of oxc_minifier: it stores copies of its two
/// arguments and a replacement name derived from `local`, so the result depends on the two
/// texts alone.
#[verifier::external_body]
pub(crate) fn namespace_specifier(source: &str, local: &str) -> (import:
    oxc::minifier::InjectImport)
    ensures
        import == namespace_specifier_of(source@, local@),
{
    oxc::minifier::InjectImport::namespace_specifier(source, local)
}

/// `InjectGlobalVariablesConfig::new` of oxc_minifier: it stores the list as given.
#[verifier::external_body]
pub(crate) fn inject_config(injects: Vec<oxc::minifier::InjectImport>) -> (config:
    oxc::minifier::InjectGlobalVariablesConfig)
    ensures
        config == inject_config_of(injects@),
{
    oxc::minifier::InjectGlobalVariablesConfig::new(injects)
}

impl InjectItem {
    /// The name that the import is bound under: the alias, or, for a named import without
    /// alias, the imported name itself.
    pub open spec fn spec_local_name(&self) -> Seq<char> {
        match self {
            InjectItem::Named { imported, alias, .. } => match alias {
                Some(alias) => alias@,
                None => imported@,
            },
            InjectItem::Namespace { alias, .. } => alias@,
        }
    }

    /// The name that the import is bound under.
    pub fn local_name(&self) -> (name: &str)
        ensures
            name@ == self.spec_local_name(),
    {
        match self {
            InjectItem::Named { imported, alias, .. } => match alias {
                Some(alias) => alias.as_str(),
                None => imported.as_str(),
            },
            InjectItem::Namespace { alias, .. } => alias.as_str(),
        }
    }
}

/// The import that oxc injects for one entry of the inject list.
pub open spec fn injected_import(inject: InjectItem) -> oxc::minifier::InjectImport {
    match inject {
        InjectItem::Named { imported, from, .. } => named_specifier_of(
            from@,
            imported@,
            inject.spec_local_name(),
        ),
        InjectItem::Namespace { from, .. } => namespace_specifier_of(
            from@,
            inject.spec_local_name(),
        ),
    }
}

/// The imports that oxc injects for an inject list, in order.
pub open spec fn injected_imports(injects: Seq<InjectItem>) -> Seq<oxc::minifier::InjectImport> {
    Seq::new(injects.len(), |i: int| injected_import(injects[i]))
}

/// Builds the injector configuration for an inject list; an absent list counts as empty.
pub fn inject_config_for(injects: &Option<Vec<InjectItem>>) -> (config:
    oxc::minifier::InjectGlobalVariablesConfig)
    ensures
        config == inject_config_of(
            injected_imports(
                match injects {
                    Some(list) => list@,
                    None => Seq::empty(),
                },
            ),
        ),
{
    let mut imports: Vec<oxc::minifier::InjectImport> = Vec::new();
    match injects {
        Some(list) => {
            let mut i: usize = 0;
            while i < list.len()
                invariant
                    i <= list.len(),
                    imports@ == injected_imports(list@).take(i as int),
                decreases list.len() - i,
            {
                let item = &list[i];
                let import = match item {
                    InjectItem::Named { imported, from, .. } => named_specifier(
                        from.as_str(),
                        imported.as_str(),
                        item.local_name(),
                    ),
                    InjectItem::Namespace { from, .. } => namespace_specifier(
                        from.as_str(),
                        item.local_name(),
                    ),
                };
                imports.push(import);
                assert(imports@ =~= injected_imports(list@).take(i + 1));
                i += 1;
            }
            assert(injected_imports(list@).take(i as int) =~= injected_imports(list@));
        },
        None => {
            assert(imports@ =~= injected_imports(Seq::<InjectItem>::empty()));
        },
    }
    inject_config(imports)
}

} // verus!
