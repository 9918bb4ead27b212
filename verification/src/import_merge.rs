//! Merging import requests into declarations: one declaration per distinct path, in the
//! order in which each path is first requested.

use crate::import_stmt::{
    specifier_views, stmt_views, DeclarationView, ImportStmtView, RenderImportDeclarationSpecifier,
    RenderImportSpecifier, RenderImportStmt, SpecifierView,
};
use vstd::prelude::*;

verus! {

/// What one import site asks of its target path: the whole module under a local name, or a
/// list of named bindings (none for a side-effect import).
#[derive(Debug, PartialEq, Eq)]
pub struct ImportRequest {
    pub path: String,
    pub namespace_alias: Option<String>,
    pub specifiers: Vec<RenderImportSpecifier>,
}

/// Model of an [`ImportRequest`].
pub struct ImportRequestView {
    pub path: Seq<char>,
    pub namespace_alias: Option<Seq<char>>,
    pub specifiers: Seq<SpecifierView>,
}

impl View for ImportRequest {
    type V = ImportRequestView;

    open spec fn view(&self) -> ImportRequestView {
        ImportRequestView {
            path: self.path@,
            namespace_alias: match self.namespace_alias {
                Some(alias) => Some(alias@),
                None => None,
            },
            specifiers: specifier_views(self.specifiers@),
        }
    }
}

/// The models of a list of requests.
pub open spec fn request_views(requests: Seq<ImportRequest>) -> Seq<ImportRequestView> {
    Seq::new(requests.len(), |i: int| requests[i]@)
}

/// `acc`, then each of `items` that is not yet there, in order.
pub open spec fn extend_unique(acc: Seq<SpecifierView>, items: Seq<SpecifierView>) -> Seq<
    SpecifierView,
>
    decreases items.len(),
{
    if items.len() == 0 {
        acc
    } else {
        let prev = extend_unique(acc, items.drop_last());
        if prev.contains(items.last()) {
            prev
        } else {
            prev.push(items.last())
        }
    }
}

/// A declaration after one more request for its path. A namespace request turns the
/// declaration into a namespace declaration under that request's alias; once it is one, it
/// stays as it is. Named requests add the bindings that are not yet listed.
pub open spec fn absorb(declaration: DeclarationView, request: ImportRequestView) -> DeclarationView {
    match declaration {
        DeclarationView::Namespace(_) => declaration,
        DeclarationView::Named(specifiers) => match request.namespace_alias {
            Some(alias) => DeclarationView::Namespace(alias),
            None => DeclarationView::Named(extend_unique(specifiers, request.specifiers)),
        },
    }
}

/// What the requests for `path` amount to, taken in order.
pub open spec fn merged_declaration(
    requests: Seq<ImportRequestView>,
    path: Seq<char>,
) -> DeclarationView
    decreases requests.len(),
{
    if requests.len() == 0 {
        DeclarationView::Named(Seq::empty())
    } else {
        let prev = merged_declaration(requests.drop_last(), path);
        if requests.last().path == path {
            absorb(prev, requests.last())
        } else {
            prev
        }
    }
}

/// The requested paths, each once, in the order of first request.
pub open spec fn distinct_paths(requests: Seq<ImportRequestView>) -> Seq<Seq<char>>
    decreases requests.len(),
{
    if requests.len() == 0 {
        Seq::empty()
    } else {
        let prev = distinct_paths(requests.drop_last());
        if prev.contains(requests.last().path) {
            prev
        } else {
            prev.push(requests.last().path)
        }
    }
}

/// The declarations that a list of requests amounts to.
pub open spec fn merged_stmts(requests: Seq<ImportRequestView>) -> Seq<ImportStmtView> {
    let paths = distinct_paths(requests);
    Seq::new(
        paths.len(),
        |k: int|
            ImportStmtView { path: paths[k], specifiers: merged_declaration(requests, paths[k]) },
    )
}

/// A path is among the distinct paths exactly when some request names it.
pub proof fn lemma_distinct_paths_contains(requests: Seq<ImportRequestView>, path: Seq<char>)
    ensures
        distinct_paths(requests).contains(path) <==> exists|i: int|
            0 <= i < requests.len() && (#[trigger] requests[i]).path == path,
    decreases requests.len(),
{
    if requests.len() > 0 {
        let init = requests.drop_last();
        let prev = distinct_paths(init);
        lemma_distinct_paths_contains(init, path);
        if distinct_paths(requests).contains(path) {
            if prev.contains(path) {
                let i = choose|i: int| 0 <= i < init.len() && (#[trigger] init[i]).path == path;
                assert(requests[i].path == path);
            } else {
                let k = choose|k: int|
                    0 <= k < distinct_paths(requests).len() && distinct_paths(requests)[k] == path;
                assert(requests[requests.len() - 1].path == path);
            }
        }
        if exists|i: int| 0 <= i < requests.len() && (#[trigger] requests[i]).path == path {
            let i = choose|i: int| 0 <= i < requests.len() && (#[trigger] requests[i]).path == path;
            if i < init.len() {
                assert(init[i].path == path);
                assert(prev.contains(path));
                if !prev.contains(requests.last().path) {
                    assert(prev.push(requests.last().path)[prev.index_of(path)] == path);
                }
            } else {
                if !prev.contains(path) {
                    assert(prev.push(path)[prev.len() as int] == path);
                }
            }
        }
    }
}

/// No path occurs twice among the distinct paths.
pub proof fn lemma_distinct_paths_no_duplicates(requests: Seq<ImportRequestView>)
    ensures
        distinct_paths(requests).no_duplicates(),
    decreases requests.len(),
{
    if requests.len() > 0 {
        lemma_distinct_paths_no_duplicates(requests.drop_last());
    }
}

/// A path that no request names has the empty declaration.
pub proof fn lemma_unrequested_path(requests: Seq<ImportRequestView>, path: Seq<char>)
    requires
        !distinct_paths(requests).contains(path),
    ensures
        merged_declaration(requests, path) == DeclarationView::Named(Seq::empty()),
    decreases requests.len(),
{
    if requests.len() > 0 {
        let init = requests.drop_last();
        let prev = distinct_paths(init);
        if prev.contains(path) {
            if !prev.contains(requests.last().path) {
                assert(prev.push(requests.last().path)[prev.index_of(path)] == path);
            }
            assert(false);
        }
        if requests.last().path == path {
            if !prev.contains(path) {
                assert(prev.push(path)[prev.len() as int] == path);
            }
            assert(false);
        }
        lemma_unrequested_path(init, path);
    }
}

/// Extending a list without repeats gives a list without repeats that holds exactly what
/// either list holds.
pub proof fn lemma_extend_unique(acc: Seq<SpecifierView>, items: Seq<SpecifierView>)
    requires
        acc.no_duplicates(),
    ensures
        extend_unique(acc, items).no_duplicates(),
        forall|s: SpecifierView|
            extend_unique(acc, items).contains(s) <==> acc.contains(s) || items.contains(s),
    decreases items.len(),
{
    if items.len() > 0 {
        let init = items.drop_last();
        let prev = extend_unique(acc, init);
        lemma_extend_unique(acc, init);
        let result = extend_unique(acc, items);
        assert forall|s: SpecifierView| result.contains(s) <==> acc.contains(s) || items.contains(
            s,
        ) by {
            if items.contains(s) {
                let i = items.index_of(s);
                if i < init.len() {
                    assert(init[i] == s);
                    assert(init.contains(s));
                }
            }
            if init.contains(s) {
                let i = init.index_of(s);
                assert(items[i] == s);
            }
            if !prev.contains(items.last()) {
                assert(result == prev.push(items.last()));
                if prev.contains(s) {
                    assert(result[prev.index_of(s)] == s);
                }
                if s == items.last() {
                    assert(result[prev.len() as int] == s);
                    assert(items[items.len() - 1] == s);
                }
                if result.contains(s) {
                    let k = result.index_of(s);
                    if k < prev.len() {
                        assert(prev[k] == s);
                    }
                }
            } else {
                if s == items.last() {
                    assert(items[items.len() - 1] == s);
                }
            }
        }
    }
}

/// Every requested path has exactly one declaration, and every declaration has a request.
pub proof fn lemma_one_declaration_per_path(requests: Seq<ImportRequestView>)
    ensures
        forall|i: int|
            0 <= i < requests.len() ==> exists|k: int|
                0 <= k < merged_stmts(requests).len() && (#[trigger] merged_stmts(requests)[k]).path
                    == (#[trigger] requests[i]).path,
        forall|k: int, l: int|
            0 <= k < l < merged_stmts(requests).len() ==> (#[trigger] merged_stmts(
                requests,
            )[k]).path != (#[trigger] merged_stmts(requests)[l]).path,
        forall|k: int|
            0 <= k < merged_stmts(requests).len() ==> exists|i: int|
                0 <= i < requests.len() && (#[trigger] requests[i]).path == (#[trigger] merged_stmts(
                    requests,
                )[k]).path,
{
    let paths = distinct_paths(requests);
    let merged = merged_stmts(requests);
    lemma_distinct_paths_no_duplicates(requests);
    assert forall|i: int| 0 <= i < requests.len() implies exists|k: int|
        0 <= k < merged.len() && (#[trigger] merged[k]).path == (#[trigger] requests[i]).path by {
        lemma_distinct_paths_contains(requests, requests[i].path);
        let k = paths.index_of(requests[i].path);
        assert(merged[k].path == requests[i].path);
    }
    assert forall|k: int| 0 <= k < merged.len() implies exists|i: int|
        0 <= i < requests.len() && (#[trigger] requests[i]).path == (#[trigger] merged[k]).path by {
        lemma_distinct_paths_contains(requests, paths[k]);
        assert(paths.contains(paths[k]));
    }
}

/// A declaration is what the requests for its path ask for together. Where none of them
/// asks for the namespace, it lists each requested `(name, alias)` pair exactly once.
/// Where one does, it is the namespace declaration under the alias of the first that does.
pub proof fn lemma_declaration_unites_requests(requests: Seq<ImportRequestView>, path: Seq<char>)
    ensures
        match merged_declaration(requests, path) {
            DeclarationView::Named(specifiers) => {
                &&& forall|i: int|
                    0 <= i < requests.len() && (#[trigger] requests[i]).path == path
                        ==> requests[i].namespace_alias is None
                &&& specifiers.no_duplicates()
                &&& forall|s: SpecifierView|
                    specifiers.contains(s) <==> exists|i: int|
                        0 <= i < requests.len() && (#[trigger] requests[i]).path == path
                            && requests[i].specifiers.contains(s)
            },
            DeclarationView::Namespace(alias) => exists|i: int|
                {
                    &&& 0 <= i < requests.len()
                    &&& (#[trigger] requests[i]).path == path
                    &&& requests[i].namespace_alias == Some(alias)
                    &&& forall|j: int|
                        0 <= j < i && (#[trigger] requests[j]).path == path
                            ==> requests[j].namespace_alias is None
                },
        },
    decreases requests.len(),
{
    if requests.len() > 0 {
        let init = requests.drop_last();
        let last = requests.last();
        let n = init.len() as int;
        lemma_declaration_unites_requests(init, path);
        let prev = merged_declaration(init, path);
        assert(forall|i: int| 0 <= i < n ==> init[i] == requests[i]);
        match prev {
            DeclarationView::Namespace(alias) => {
                let i = choose|i: int|
                    {
                        &&& 0 <= i < init.len()
                        &&& (#[trigger] init[i]).path == path
                        &&& init[i].namespace_alias == Some(alias)
                        &&& forall|j: int|
                            0 <= j < i && (#[trigger] init[j]).path == path
                                ==> init[j].namespace_alias is None
                    };
                assert(requests[i].path == path);
                assert forall|j: int| 0 <= j < i && (#[trigger] requests[j]).path
                    == path implies requests[j].namespace_alias is None by {
                    assert(init[j].path == path);
                }
            },
            DeclarationView::Named(before) => {
                if last.path == path {
                    match last.namespace_alias {
                        Some(alias) => {
                            assert(requests[n].path == path);
                            assert forall|j: int| 0 <= j < n && (#[trigger] requests[j]).path
                                == path implies requests[j].namespace_alias is None by {
                                assert(init[j].path == path);
                            }
                        },
                        None => {
                            let specifiers = extend_unique(before, last.specifiers);
                            lemma_extend_unique(before, last.specifiers);
                            assert forall|i: int|
                                0 <= i < requests.len() && (#[trigger] requests[i]).path
                                    == path implies requests[i].namespace_alias is None by {
                                if i < n {
                                    assert(init[i].path == path);
                                }
                            }
                            assert forall|s: SpecifierView|
                                specifiers.contains(s) <==> exists|i: int|
                                    0 <= i < requests.len() && (#[trigger] requests[i]).path == path
                                        && requests[i].specifiers.contains(s) by {
                                if before.contains(s) {
                                    let i = choose|i: int|
                                        0 <= i < init.len() && (#[trigger] init[i]).path == path
                                            && init[i].specifiers.contains(s);
                                    assert(requests[i].path == path);
                                }
                                if last.specifiers.contains(s) {
                                    assert(requests[n].path == path);
                                }
                                if exists|i: int|
                                    0 <= i < requests.len() && (#[trigger] requests[i]).path == path
                                        && requests[i].specifiers.contains(s) {
                                    let i = choose|i: int|
                                        0 <= i < requests.len() && (#[trigger] requests[i]).path
                                            == path && requests[i].specifiers.contains(s);
                                    if i < n {
                                        assert(init[i].path == path);
                                    }
                                }
                            }
                        },
                    }
                } else {
                    assert forall|i: int|
                        0 <= i < requests.len() && (#[trigger] requests[i]).path
                            == path implies requests[i].namespace_alias is None by {
                        if i < n {
                            assert(init[i].path == path);
                        }
                    }
                    assert forall|s: SpecifierView|
                        before.contains(s) <==> exists|i: int|
                            0 <= i < requests.len() && (#[trigger] requests[i]).path == path
                                && requests[i].specifiers.contains(s) by {
                        if before.contains(s) {
                            let i = choose|i: int|
                                0 <= i < init.len() && (#[trigger] init[i]).path == path
                                    && init[i].specifiers.contains(s);
                            assert(requests[i].path == path);
                        }
                        if exists|i: int|
                            0 <= i < requests.len() && (#[trigger] requests[i]).path == path
                                && requests[i].specifiers.contains(s) {
                            let i = choose|i: int|
                                0 <= i < requests.len() && (#[trigger] requests[i]).path == path
                                    && requests[i].specifiers.contains(s);
                            assert(init[i].path == path);
                        }
                    }
                }
            },
        }
    }
}

/// The position of the first request for `path`; the number of requests where there is
/// none.
pub open spec fn first_request(requests: Seq<ImportRequestView>, path: Seq<char>) -> int
    decreases requests.len(),
{
    if requests.len() == 0 {
        0
    } else {
        let earlier = first_request(requests.drop_last(), path);
        if earlier < requests.len() - 1 {
            earlier
        } else if requests.last().path == path {
            requests.len() - 1
        } else {
            requests.len() as int
        }
    }
}

/// `first_request` is the least position that asks for `path`.
pub proof fn lemma_first_request(requests: Seq<ImportRequestView>, path: Seq<char>)
    ensures
        0 <= first_request(requests, path) <= requests.len(),
        first_request(requests, path) < requests.len() ==> requests[first_request(
            requests,
            path,
        )].path == path,
        forall|j: int|
            0 <= j < first_request(requests, path) ==> (#[trigger] requests[j]).path != path,
    decreases requests.len(),
{
    if requests.len() > 0 {
        let init = requests.drop_last();
        lemma_first_request(init, path);
        assert(forall|j: int| 0 <= j < init.len() ==> init[j] == requests[j]);
    }
}

/// Declarations stand in the order in which their paths are first requested.
pub proof fn lemma_declarations_in_first_request_order(requests: Seq<ImportRequestView>)
    ensures
        forall|k: int|
            0 <= k < merged_stmts(requests).len() ==> first_request(
                requests,
                (#[trigger] merged_stmts(requests)[k]).path,
            ) < requests.len(),
        forall|k: int, l: int|
            0 <= k < l < merged_stmts(requests).len() ==> first_request(
                requests,
                (#[trigger] merged_stmts(requests)[k]).path,
            ) < first_request(requests, (#[trigger] merged_stmts(requests)[l]).path),
    decreases requests.len(),
{
    let paths = distinct_paths(requests);
    let merged = merged_stmts(requests);
    if requests.len() > 0 {
        let init = requests.drop_last();
        let last = requests.last();
        let before = distinct_paths(init);
        let merged_before = merged_stmts(init);
        lemma_declarations_in_first_request_order(init);
        assert forall|k: int| 0 <= k < before.len() implies first_request(
            requests,
            #[trigger] before[k],
        ) == first_request(init, before[k]) && first_request(init, before[k]) < init.len() by {
            assert(merged_before[k].path == before[k]);
        }
        if !before.contains(last.path) {
            lemma_distinct_paths_contains(init, last.path);
            lemma_first_request(init, last.path);
            if first_request(init, last.path) < init.len() {
                assert(init[first_request(init, last.path)].path == last.path);
                assert(false);
            }
        }
        assert forall|k: int| 0 <= k < merged.len() implies first_request(
            requests,
            (#[trigger] merged[k]).path,
        ) < requests.len() by {
            if k < before.len() {
                assert(paths[k] == before[k]);
            }
        }
        assert forall|k: int, l: int| 0 <= k < l < merged.len() implies first_request(
            requests,
            (#[trigger] merged[k]).path,
        ) < first_request(requests, (#[trigger] merged[l]).path) by {
            assert(paths[k] == before[k]);
            if l < before.len() {
                assert(paths[l] == before[l]);
                assert(merged_before[k].path == before[k]);
                assert(merged_before[l].path == before[l]);
            }
        }
    }
}

/// The copy of a specifier.
fn clone_specifier(specifier: &RenderImportSpecifier) -> (copy: RenderImportSpecifier)
    ensures
        copy@ == specifier@,
{
    RenderImportSpecifier {
        imported: specifier.imported.clone(),
        alias: match &specifier.alias {
            Some(alias) => Some(alias.clone()),
            None => None,
        },
    }
}

/// Whether two specifiers bind the same name under the same alias.
fn same_specifier(a: &RenderImportSpecifier, b: &RenderImportSpecifier) -> (same: bool)
    ensures
        same == (a@ == b@),
{
    if !a.imported.as_str().eq(b.imported.as_str()) {
        return false;
    }
    match (&a.alias, &b.alias) {
        (Some(x), Some(y)) => x.as_str().eq(y.as_str()),
        (None, None) => true,
        _ => false,
    }
}

/// Whether the list holds the specifier.
fn has_specifier(list: &Vec<RenderImportSpecifier>, specifier: &RenderImportSpecifier) -> (found:
    bool)
    ensures
        found == specifier_views(list@).contains(specifier@),
{
    let ghost views = specifier_views(list@);
    let mut i: usize = 0;
    while i < list.len()
        invariant
            i <= list.len(),
            views == specifier_views(list@),
            forall|j: int| 0 <= j < i ==> views[j] != specifier@,
        decreases list.len() - i,
    {
        if same_specifier(&list[i], specifier) {
            assert(views[i as int] == specifier@);
            return true;
        }
        i += 1;
    }
    false
}

/// Adds to `list` each of `items` that it does not hold yet.
fn extend_unique_specifiers(
    list: &mut Vec<RenderImportSpecifier>,
    items: &Vec<RenderImportSpecifier>,
)
    ensures
        specifier_views(final(list)@) == extend_unique(
            specifier_views(old(list)@),
            specifier_views(items@),
        ),
{
    let ghost start = specifier_views(list@);
    let ghost item_views = specifier_views(items@);
    let mut i: usize = 0;
    assert(item_views.take(0) =~= Seq::<SpecifierView>::empty());
    while i < items.len()
        invariant
            i <= items.len(),
            item_views == specifier_views(items@),
            specifier_views(list@) == extend_unique(start, item_views.take(i as int)),
        decreases items.len() - i,
    {
        let ghost before = specifier_views(list@);
        proof {
            let t = item_views.take(i + 1);
            assert(t.drop_last() =~= item_views.take(i as int));
            assert(t.last() == items@[i as int]@);
        }
        if !has_specifier(list, &items[i]) {
            let copy = clone_specifier(&items[i]);
            list.push(copy);
            assert(specifier_views(list@) =~= before.push(items@[i as int]@));
        }
        i += 1;
    }
    assert(item_views.take(i as int) =~= item_views);
}

/// The position of the declaration for `path`, if there is one.
fn find_path(stmts: &Vec<RenderImportStmt>, path: &String) -> (found: Option<usize>)
    ensures
        match found {
            Some(k) => k < stmts.len() && stmts@[k as int].path@ == path@,
            None => forall|j: int| 0 <= j < stmts.len() ==> stmts@[j].path@ != path@,
        },
{
    let mut i: usize = 0;
    while i < stmts.len()
        invariant
            i <= stmts.len(),
            forall|j: int| 0 <= j < i ==> stmts@[j].path@ != path@,
        decreases stmts.len() - i,
    {
        if stmts[i].path.as_str().eq(path.as_str()) {
            return Some(i);
        }
        i += 1;
    }
    None
}

/// The declaration that a first request for a path makes.
fn first_declaration(request: &ImportRequest) -> (declaration: RenderImportDeclarationSpecifier)
    ensures
        declaration@ == absorb(DeclarationView::Named(Seq::empty()), request@),
{
    match &request.namespace_alias {
        Some(alias) => RenderImportDeclarationSpecifier::ImportStarSpecifier(alias.clone()),
        None => {
            let mut list: Vec<RenderImportSpecifier> = Vec::new();
            assert(specifier_views(list@) =~= Seq::<SpecifierView>::empty());
            extend_unique_specifiers(&mut list, &request.specifiers);
            RenderImportDeclarationSpecifier::ImportSpecifier(list)
        },
    }
}

/// Takes one more request for the path of `stmt` into it.
fn absorb_request(stmt: &mut RenderImportStmt, request: &ImportRequest)
    ensures
        final(stmt).path == old(stmt).path,
        final(stmt).specifiers@ == absorb(old(stmt).specifiers@, request@),
{
    match &mut stmt.specifiers {
        RenderImportDeclarationSpecifier::ImportStarSpecifier(_) => {},
        RenderImportDeclarationSpecifier::ImportSpecifier(list) => {
            match &request.namespace_alias {
                Some(_) => {},
                None => {
                    extend_unique_specifiers(list, &request.specifiers);
                    return ;
                },
            }
        },
    }
    match (&stmt.specifiers, &request.namespace_alias) {
        (RenderImportDeclarationSpecifier::ImportSpecifier(_), Some(alias)) => {
            stmt.specifiers = RenderImportDeclarationSpecifier::ImportStarSpecifier(alias.clone());
        },
        _ => {},
    }
}

/// Merges import requests into declarations. Requests that share a path become one
/// declaration; the declarations stand in the order in which their paths are first requested.
/// Named bindings are united, each `(name, alias)` pair once, in the order of first request.
/// A namespace request makes the declaration for its path a namespace declaration under the
/// alias of the first such request; named bindings for that path are then not listed.
pub fn merge_import_requests(requests: &Vec<ImportRequest>) -> (stmts: Vec<RenderImportStmt>)
    ensures
        stmt_views(stmts@) == merged_stmts(request_views(requests@)),
{
    let ghost views = request_views(requests@);
    let mut stmts: Vec<RenderImportStmt> = Vec::new();
    let mut i: usize = 0;
    assert(views.take(0) =~= Seq::<ImportRequestView>::empty());
    assert(stmt_views(stmts@) =~= merged_stmts(views.take(0)));
    while i < requests.len()
        invariant
            i <= requests.len(),
            views == request_views(requests@),
            stmt_views(stmts@) == merged_stmts(views.take(i as int)),
        decreases requests.len() - i,
    {
        let request = &requests[i];
        let ghost done = views.take(i as int);
        let ghost next = views.take(i + 1);
        let ghost paths = distinct_paths(done);
        let ghost before = stmt_views(stmts@);
        proof {
            assert(next.drop_last() =~= done);
            assert(next.last() == request@);
            lemma_distinct_paths_no_duplicates(done);
            assert(before.len() == paths.len());
            assert forall|j: int| 0 <= j < stmts.len() implies stmts@[j].path@ == paths[j] by {
                assert(before[j] == stmts@[j]@);
            }
        }
        match find_path(&stmts, &request.path) {
            Some(k) => {
                proof {
                    assert(paths[k as int] == request@.path);
                    assert(distinct_paths(next) == paths);
                }
                absorb_request(&mut stmts[k], request);
                proof {
                    assert forall|j: int| 0 <= j < stmts.len() implies (#[trigger] stmt_views(
                        stmts@,
                    )[j]) == merged_stmts(next)[j] by {
                        if j == k {
                            assert(before[j] == merged_stmts(done)[j]);
                        } else {
                            assert(before[j] == merged_stmts(done)[j]);
                            assert(paths[j] != paths[k as int]);
                        }
                    }
                    assert(stmt_views(stmts@) =~= merged_stmts(next));
                }
            },
            None => {
                proof {
                    assert(!paths.contains(request@.path)) by {
                        if paths.contains(request@.path) {
                            let j = paths.index_of(request@.path);
                            assert(stmts@[j].path@ == paths[j]);
                        }
                    }
                    lemma_unrequested_path(done, request@.path);
                    assert(distinct_paths(next) == paths.push(request@.path));
                }
                let declaration = first_declaration(request);
                stmts.push(RenderImportStmt { path: request.path.clone(), specifiers: declaration });
                proof {
                    assert forall|j: int| 0 <= j < stmts.len() implies (#[trigger] stmt_views(
                        stmts@,
                    )[j]) == merged_stmts(next)[j] by {
                        if j < paths.len() {
                            assert(before[j] == merged_stmts(done)[j]);
                            assert(paths[j] != request@.path);
                        }
                    }
                    assert(stmt_views(stmts@) =~= merged_stmts(next));
                }
            },
        }
        i += 1;
    }
    assert(views.take(i as int) =~= views);
    stmts
}

} // verus!
