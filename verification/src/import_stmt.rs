//! Render-ready import declarations and their ESM text.

use crate::text::{join, lemma_join_step};
use vstd::prelude::*;
use vstd::string::*;

verus! {

/// One binding of a named import: the name the exporter gives it and, where it differs, the
/// name it has in the importing chunk.
#[derive(Debug, PartialEq, Eq)]
pub struct RenderImportSpecifier {
    pub imported: String,
    pub alias: Option<String>,
}

/// What an import declaration binds.
#[derive(Debug, PartialEq, Eq)]
pub enum RenderImportDeclarationSpecifier {
    /// Named bindings; with none, the declaration is a bare side-effect import.
    ImportSpecifier(Vec<RenderImportSpecifier>),
    /// The whole module under one local name.
    ImportStarSpecifier(String),
}

/// One import declaration of a chunk.
#[derive(Debug, PartialEq, Eq)]
pub struct RenderImportStmt {
    pub path: String,
    pub specifiers: RenderImportDeclarationSpecifier,
}

/// Model of a [`RenderImportSpecifier`].
pub struct SpecifierView {
    pub imported: Seq<char>,
    pub alias: Option<Seq<char>>,
}

/// Model of a [`RenderImportDeclarationSpecifier`].
pub enum DeclarationView {
    Named(Seq<SpecifierView>),
    Namespace(Seq<char>),
}

/// Model of a [`RenderImportStmt`].
pub struct ImportStmtView {
    pub path: Seq<char>,
    pub specifiers: DeclarationView,
}

impl View for RenderImportSpecifier {
    type V = SpecifierView;

    open spec fn view(&self) -> SpecifierView {
        SpecifierView {
            imported: self.imported@,
            alias: match self.alias {
                Some(alias) => Some(alias@),
                None => None,
            },
        }
    }
}

/// The models of a list of specifiers.
pub open spec fn specifier_views(specifiers: Seq<RenderImportSpecifier>) -> Seq<SpecifierView> {
    Seq::new(specifiers.len(), |i: int| specifiers[i]@)
}

impl View for RenderImportDeclarationSpecifier {
    type V = DeclarationView;

    open spec fn view(&self) -> DeclarationView {
        match self {
            RenderImportDeclarationSpecifier::ImportSpecifier(specifiers) => DeclarationView::Named(
                specifier_views(specifiers@),
            ),
            RenderImportDeclarationSpecifier::ImportStarSpecifier(alias) => {
                DeclarationView::Namespace(alias@)
            },
        }
    }
}

impl View for RenderImportStmt {
    type V = ImportStmtView;

    open spec fn view(&self) -> ImportStmtView {
        ImportStmtView { path: self.path@, specifiers: self.specifiers@ }
    }
}

/// The models of a list of declarations.
pub open spec fn stmt_views(stmts: Seq<RenderImportStmt>) -> Seq<ImportStmtView> {
    Seq::new(stmts.len(), |i: int| stmts[i]@)
}

/// `a` for a binding kept under its own name, `a as b` for a renamed one.
pub open spec fn specifier_text(specifier: SpecifierView) -> Seq<char> {
    match specifier.alias {
        Some(alias) => if alias == specifier.imported {
            specifier.imported
        } else {
            specifier.imported + " as "@ + alias
        },
        None => specifier.imported,
    }
}

/// The texts of a list of specifiers.
pub open spec fn specifier_texts(specifiers: Seq<SpecifierView>) -> Seq<Seq<char>> {
    Seq::new(specifiers.len(), |i: int| specifier_text(specifiers[i]))
}

/// The line of one declaration, newline included.
pub open spec fn import_stmt_text(stmt: ImportStmtView) -> Seq<char> {
    match stmt.specifiers {
        DeclarationView::Named(specifiers) => if specifiers.len() == 0 {
            "import \""@ + stmt.path + "\";\n"@
        } else {
            "import { "@ + join(specifier_texts(specifiers), ", "@) + " } from \""@ + stmt.path
                + "\";\n"@
        },
        DeclarationView::Namespace(alias) => "import * as "@ + alias + " from \""@ + stmt.path
            + "\";\n"@,
    }
}

/// The import block: one line per declaration, in the order given.
pub open spec fn import_block_text(stmts: Seq<ImportStmtView>) -> Seq<char>
    decreases stmts.len(),
{
    if stmts.len() == 0 {
        Seq::empty()
    } else {
        import_block_text(stmts.drop_last()) + import_stmt_text(stmts.last())
    }
}

/// Appends `a, b as c, ...` for the given specifiers.
fn push_specifier_list(s: &mut String, specifiers: &Vec<RenderImportSpecifier>)
    ensures
        final(s)@ == old(s)@ + join(specifier_texts(specifier_views(specifiers@)), ", "@),
{
    let ghost texts = specifier_texts(specifier_views(specifiers@));
    let ghost start = s@;
    let mut i: usize = 0;
    assert(texts.take(0) =~= Seq::<Seq<char>>::empty());
    assert(s@ =~= start + join(texts.take(0), ", "@));
    while i < specifiers.len()
        invariant
            i <= specifiers.len(),
            texts == specifier_texts(specifier_views(specifiers@)),
            texts.len() == specifiers.len(),
            s@ == start + join(texts.take(i as int), ", "@),
        decreases specifiers.len() - i,
    {
        let specifier = &specifiers[i];
        let ghost before = s@;
        if i > 0 {
            s.append(", ");
        }
        s.append(specifier.imported.as_str());
        match &specifier.alias {
            Some(alias) => {
                if !alias.as_str().eq(specifier.imported.as_str()) {
                    s.append(" as ");
                    s.append(alias.as_str());
                }
            },
            None => {},
        }
        proof {
            lemma_join_step(texts, ", "@, i as int);
            assert(texts[i as int] == specifier_text(specifiers@[i as int]@));
            if i > 0 {
                assert(s@ =~= before + ", "@ + texts[i as int]);
                assert(s@ =~= start + (join(texts.take(i as int), ", "@) + ", "@ + texts[i as int]));
            } else {
                assert(join(texts.take(0), ", "@) =~= Seq::<char>::empty());
                assert(s@ =~= start + texts[0]);
            }
        }
        i += 1;
    }
    assert(texts.take(i as int) =~= texts);
}

/// Appends the line of one declaration.
fn push_import_stmt(s: &mut String, stmt: &RenderImportStmt)
    ensures
        final(s)@ == old(s)@ + import_stmt_text(stmt@),
{
    let ghost start = s@;
    match &stmt.specifiers {
        RenderImportDeclarationSpecifier::ImportSpecifier(specifiers) => {
            if specifiers.len() == 0 {
                s.append("import \"");
                s.append(stmt.path.as_str());
                s.append("\";\n");
                assert(s@ =~= start + ("import \""@ + stmt.path@ + "\";\n"@));
            } else {
                s.append("import { ");
                push_specifier_list(s, specifiers);
                s.append(" } from \"");
                s.append(stmt.path.as_str());
                s.append("\";\n");
                assert(s@ =~= start + ("import { "@ + join(
                    specifier_texts(specifier_views(specifiers@)),
                    ", "@,
                ) + " } from \""@ + stmt.path@ + "\";\n"@));
            }
        },
        RenderImportDeclarationSpecifier::ImportStarSpecifier(alias) => {
            s.append("import * as ");
            s.append(alias.as_str());
            s.append(" from \"");
            s.append(stmt.path.as_str());
            s.append("\";\n");
            assert(s@ =~= start + ("import * as "@ + alias@ + " from \""@ + stmt.path@ + "\";\n"@));
        },
    }
}

/// Renders the import block of a chunk: `import "path";` for a bare import,
/// `import { a, b as c } from "path";` for named bindings and
/// `import * as ns from "path";` for a namespace, one declaration per line.
pub fn render_import_stmts(stmts: &Vec<RenderImportStmt>) -> (s: String)
    ensures
        s@ == import_block_text(stmt_views(stmts@)),
{
    let ghost views = stmt_views(stmts@);
    let mut s = String::new();
    let mut i: usize = 0;
    assert(views.take(0) =~= Seq::<ImportStmtView>::empty());
    while i < stmts.len()
        invariant
            i <= stmts.len(),
            views == stmt_views(stmts@),
            s@ == import_block_text(views.take(i as int)),
        decreases stmts.len() - i,
    {
        push_import_stmt(&mut s, &stmts[i]);
        proof {
            let t = views.take(i + 1);
            assert(t.drop_last() =~= views.take(i as int));
            assert(t.last() == stmts@[i as int]@);
        }
        i += 1;
    }
    assert(views.take(i as int) =~= views);
    s
}

} // verus!
