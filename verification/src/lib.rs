//! A compiler for a small declarative language that describes HTTP mock
//! endpoints, and the dispatcher that serves requests from the compiled table.

use vstd::prelude::*;

pub mod asserts;
pub mod ast;
pub mod blanks;
pub mod decimal;
pub mod decimal_order;
pub mod dispatch;
pub mod entry;
pub mod error;
pub mod filters;
pub mod http;
pub mod json;
pub mod parser;
pub mod pattern;
pub mod query_string;
pub mod request;
pub mod template;
pub mod text;

use crate::dispatch::{
    grouped, law_first_declared_match_serves, law_no_match_is_not_found, not_found, served,
    DispatchTable, RouteView,
};
use crate::entry::source::{
    entries_from, entry_source, entry_sources, lemma_entry_from, EntrySource,
};
use crate::entry::{compiled_entry, Entry, EntryErrorView, EntryView};
use crate::error::{Error, ErrorView};
use crate::http::{is_routable, method_filter_error, method_filter_refusal};
use crate::request::Request;
use crate::text::{chars_of, is_quoted, slice_chars, string_of, trimmed};

verus! {

/// Removes one layer of matching surrounding delimiters (`'`, `"` or a
/// backtick) from `s`. A string that does not start and end with the same
/// delimiter is returned unchanged.
pub fn possibly_trim_surrounding_quotes(s: String) -> (r: String)
    ensures
        r@ == trimmed(s@),
        !is_quoted(s@) ==> r@ == s@,
{
    let chars = chars_of(s.as_str());
    let n = chars.len();
    if n >= 2 {
        let first = chars[0];
        let last = chars[n - 1];
        if (first == '\'' || first == '"' || first == '`') && last == first {
            let inner = slice_chars(&chars, 1, n - 1);
            return string_of(&inner);
        }
    }
    s
}

/// The entries of the source compiled in order, or the error of the first
/// that cannot be compiled.
pub open spec fn compiled_entries(entries: Seq<ast::Entry>) -> Result<Seq<EntryView>, EntryErrorView>
    decreases entries.len(),
{
    if entries.len() == 0 {
        Ok(Seq::empty())
    } else {
        match compiled_entries(entries.drop_last()) {
            Err(e) => Err(e),
            Ok(prefix) => match compiled_entry(entries.last()) {
                Err(e) => Err(e),
                Ok(entry) => Ok(prefix.push(entry)),
            },
        }
    }
}

/// The method of the first route that no request can be routed by.
pub open spec fn first_unroutable(routes: Seq<RouteView>) -> Option<Seq<char>>
    decreases routes.len(),
{
    if routes.len() == 0 {
        None
    } else {
        match first_unroutable(routes.drop_last()) {
            Some(m) => Some(m),
            None => if is_routable(routes.last().method) {
                None
            } else {
                Some(routes.last().method)
            },
        }
    }
}

/// The table that a mock file compiles to: its entries compiled in order and
/// grouped by path and method. The first entry that cannot be compiled, or
/// else the first route with a method that cannot be routed by, is the error.
pub open spec fn compiled_table(file: ast::ImpostorFile) -> Result<Seq<RouteView>, ErrorView> {
    match compiled_entries(file.entries@) {
        Err(e) => Err(ErrorView::EntryCompilationError(e)),
        Ok(entries) => match first_unroutable(grouped(entries)) {
            Some(m) => Err(ErrorView::InvalidMethod(method_filter_error(m))),
            None => Ok(grouped(entries)),
        },
    }
}

/// The table that the entries of a mock file compile to, by what they say.
pub open spec fn table_from(sources: Seq<EntrySource>) -> Result<Seq<RouteView>, ErrorView> {
    match entries_from(sources) {
        Err(e) => Err(ErrorView::EntryCompilationError(e)),
        Ok(entries) => match first_unroutable(grouped(entries)) {
            Some(m) => Err(ErrorView::InvalidMethod(method_filter_error(m))),
            None => Ok(grouped(entries)),
        },
    }
}

/// What entries compile to is decided by what they say.
pub proof fn lemma_entries_from(entries: Seq<ast::Entry>)
    ensures
        compiled_entries(entries) == entries_from(entry_sources(entries)),
    decreases entries.len(),
{
    if entries.len() > 0 {
        assert(entry_sources(entries).drop_last() =~= entry_sources(entries.drop_last()));
        assert(entry_sources(entries).last() == entry_source(entries.last()));
        lemma_entry_from(entries.last());
        lemma_entries_from(entries.drop_last());
    }
}

/// Once a prefix of the entries fails to compile, the whole fails with the
/// same error.
pub proof fn lemma_entries_error_stays(entries: Seq<ast::Entry>, n: int)
    requires
        0 <= n <= entries.len(),
        compiled_entries(entries.take(n)) is Err,
    ensures
        compiled_entries(entries) == compiled_entries(entries.take(n)),
    decreases entries.len() - n,
{
    if n < entries.len() {
        assert(entries.take(n + 1).drop_last() == entries.take(n));
        lemma_entries_error_stays(entries, n + 1);
    } else {
        assert(entries.take(n) == entries);
    }
}

/// Once a prefix of the routes holds a method that cannot be routed by, the
/// first such method of the whole is that of the prefix.
pub proof fn lemma_unroutable_stays(routes: Seq<RouteView>, n: int)
    requires
        0 <= n <= routes.len(),
        first_unroutable(routes.take(n)) is Some,
    ensures
        first_unroutable(routes) == first_unroutable(routes.take(n)),
    decreases routes.len() - n,
{
    if n < routes.len() {
        assert(routes.take(n + 1).drop_last() == routes.take(n));
        lemma_unroutable_stays(routes, n + 1);
    } else {
        assert(routes.take(n) == routes);
    }
}

/// Compiles the entries of a mock file, in order.
fn compile_entries(source: Vec<ast::Entry>) -> (r: Result<Vec<Entry>, Error>)
    ensures
        match r {
            Ok(entries) => {
                &&& compiled_entries(source@) == Ok::<_, EntryErrorView>(
                    crate::dispatch::entries_view(entries@),
                )
                &&& forall|k: int| 0 <= k < entries@.len() ==> (#[trigger] entries@[k]).wf()
            },
            Err(Error::EntryCompilationError(e)) => compiled_entries(source@) == Err::<
                Seq<EntryView>,
                _,
            >(e@),
            Err(_) => false,
        },
{
    let mut entries: Vec<Entry> = Vec::new();
    assert(crate::dispatch::entries_view(entries@) =~= Seq::empty());
    for entry in it: source
        invariant
            it.seq() == source@,
            compiled_entries(source@.take(it.index())) == Ok::<_, EntryErrorView>(
                crate::dispatch::entries_view(entries@),
            ),
            forall|k: int| 0 <= k < entries@.len() ==> (#[trigger] entries@[k]).wf(),
    {
        assert(source@.take(it.index() + 1).drop_last() == source@.take(it.index()));
        let compiled = match Entry::try_from(entry) {
            Ok(compiled) => compiled,
            Err(e) => {
                proof {
                    lemma_entries_error_stays(source@, it.index() + 1);
                }
                return Err(Error::EntryCompilationError(e));
            },
        };
        let ghost before = crate::dispatch::entries_view(entries@);
        entries.push(compiled);
        assert(crate::dispatch::entries_view(entries@) =~= before.push(compiled@));
    }
    assert(source@.take(source@.len() as int) == source@);
    Ok(entries)
}

/// Compiles the syntax tree of a mock file into a dispatch table.
pub fn compile_ast(ast: ast::ImpostorFile) -> (r: Result<DispatchTable, Error>)
    ensures
        match r {
            Ok(table) => compiled_table(ast) == Ok::<_, ErrorView>(table@) && table.wf(),
            Err(e) => compiled_table(ast) == Err::<Seq<RouteView>, _>(e@),
        },
{
    let entries = match compile_entries(ast.entries) {
        Ok(entries) => entries,
        Err(e) => {
            return Err(e);
        },
    };
    let ghost all = crate::dispatch::entries_view(entries@);
    let mut table = DispatchTable { routes: Vec::new() };
    assert(table@ =~= grouped(all.take(0)));
    for entry in it: entries
        invariant
            it.seq() == entries@,
            all == crate::dispatch::entries_view(entries@),
            forall|k: int| 0 <= k < entries@.len() ==> (#[trigger] entries@[k]).wf(),
            table@ == grouped(all.take(it.index())),
            table.wf(),
    {
        assert(all.take(it.index() + 1).drop_last() == all.take(it.index()));
        assert(all.take(it.index() + 1).last() == entry@);
        assert(entry.wf());
        table.insert(entry);
    }
    assert(all.take(all.len() as int) == all);

    let mut i: usize = 0;
    while i < table.routes.len()
        invariant
            i <= table.routes.len(),
            table@ == grouped(all),
            table.wf(),
            compiled_entries(ast.entries@) == Ok::<_, EntryErrorView>(all),
            first_unroutable(table@.take(i as int)) is None,
        decreases table.routes.len() - i,
    {
        assert(table@.take(i + 1).drop_last() == table@.take(i as int));
        assert(table@.take(i + 1).last() == table.routes@[i as int]@);
        if let Some(message) = method_filter_refusal(table.routes[i].method.as_str()) {
            proof {
                lemma_unroutable_stays(table@, i + 1);
            }
            return Err(Error::InvalidMethod(message));
        }
        i += 1;
    }
    assert(table@.take(i as int) == table@);
    Ok(table)
}

/// Whether the entry is declared for the path and method of the request.
pub open spec fn is_for(entry: EntryView, request: &Request) -> bool {
    entry.path == request.path@ && entry.method == request.method@
}

/// Compiling, then dispatching: a request that meets every condition of the
/// only entry declared for its path and method gets the status, the headers
/// and the body of that entry, rendered.
pub proof fn law_round_trip(file: ast::ImpostorFile, request: &Request, k: int)
    requires
        compiled_table(file) is Ok,
        0 <= k < compiled_entries(file.entries@)->Ok_0.len(),
        forall|j: int|
            0 <= j < compiled_entries(file.entries@)->Ok_0.len() ==> (is_for(
                #[trigger] compiled_entries(file.entries@)->Ok_0[j],
                request,
            ) <==> j == k),
        compiled_entries(file.entries@)->Ok_0[k].matches(request),
    ensures
        served(compiled_table(file)->Ok_0, request) == compiled_entries(
            file.entries@,
        )->Ok_0[k].response(),
{
    law_first_declared_match_serves(compiled_entries(file.entries@)->Ok_0, request, k);
}

/// Of the two entries declared for a path and method, the one whose
/// conditions a request meets answers it when the request does not meet the
/// conditions of the other, whichever of the two is declared first.
pub proof fn law_ordering(file: ast::ImpostorFile, request: &Request, failing: int, passing: int)
    requires
        compiled_table(file) is Ok,
        0 <= failing < compiled_entries(file.entries@)->Ok_0.len(),
        0 <= passing < compiled_entries(file.entries@)->Ok_0.len(),
        failing != passing,
        forall|j: int|
            0 <= j < compiled_entries(file.entries@)->Ok_0.len() ==> (is_for(
                #[trigger] compiled_entries(file.entries@)->Ok_0[j],
                request,
            ) <==> j == failing || j == passing),
        !compiled_entries(file.entries@)->Ok_0[failing].matches(request),
        compiled_entries(file.entries@)->Ok_0[passing].matches(request),
    ensures
        served(compiled_table(file)->Ok_0, request) == compiled_entries(
            file.entries@,
        )->Ok_0[passing].response(),
{
    law_first_declared_match_serves(compiled_entries(file.entries@)->Ok_0, request, passing);
}

/// A request gets status 404 with no header and no body when no entry is
/// declared for its path and method, and when it fails the conditions of
/// every entry that is.
pub proof fn law_not_found(file: ast::ImpostorFile, request: &Request)
    requires
        compiled_table(file) is Ok,
        forall|j: int|
            0 <= j < compiled_entries(file.entries@)->Ok_0.len() && is_for(
                #[trigger] compiled_entries(file.entries@)->Ok_0[j],
                request,
            ) ==> !compiled_entries(file.entries@)->Ok_0[j].matches(request),
    ensures
        served(compiled_table(file)->Ok_0, request) == not_found(),
        not_found().status == 404,
        not_found().headers.len() == 0,
        not_found().body.len() == 0,
{
    law_no_match_is_not_found(compiled_entries(file.entries@)->Ok_0, request);
}

/// What a text compiles to: the failure of the grammar where it refuses the
/// text, else the table that the entries compile to by what they say, or the
/// first error of that.
pub open spec fn compiled_text(text: Seq<char>) -> Result<Seq<RouteView>, ErrorView> {
    match parser::file_rule(text) {
        parser::primitives::Outcome::Failed(e) => Err(ErrorView::ParseError(e)),
        parser::primitives::Outcome::Done(_) => table_from(parser::file_sources(text)),
    }
}

/// The entries that a text declares, compiled in order.
pub open spec fn declared(text: Seq<char>) -> Seq<EntryView> {
    entries_from(parser::file_sources(text))->Ok_0
}

/// Compiling a text, then dispatching: a request that meets every condition
/// of the only entry declared for its path and method gets the status, the
/// headers and the body of that entry, rendered.
pub proof fn law_text_round_trip(text: Seq<char>, request: &Request, k: int)
    requires
        compiled_text(text) is Ok,
        0 <= k < declared(text).len(),
        forall|j: int|
            0 <= j < declared(text).len() ==> (is_for(#[trigger] declared(text)[j], request) <==> j
                == k),
        declared(text)[k].matches(request),
    ensures
        served(compiled_text(text)->Ok_0, request) == declared(text)[k].response(),
{
    law_first_declared_match_serves(declared(text), request, k);
}

/// Of the two entries that a text declares for a path and method, the one
/// whose conditions a request meets answers it when the request does not
/// meet the conditions of the other, whichever of the two is declared first.
pub proof fn law_text_ordering(text: Seq<char>, request: &Request, failing: int, passing: int)
    requires
        compiled_text(text) is Ok,
        0 <= failing < declared(text).len(),
        0 <= passing < declared(text).len(),
        failing != passing,
        forall|j: int|
            0 <= j < declared(text).len() ==> (is_for(#[trigger] declared(text)[j], request) <==> j
                == failing || j == passing),
        !declared(text)[failing].matches(request),
        declared(text)[passing].matches(request),
    ensures
        served(compiled_text(text)->Ok_0, request) == declared(text)[passing].response(),
{
    law_first_declared_match_serves(declared(text), request, passing);
}

/// A request gets status 404 with no header and no body when the text
/// declares no entry for its path and method, and when it fails the
/// conditions of every entry that the text declares for them.
pub proof fn law_text_not_found(text: Seq<char>, request: &Request)
    requires
        compiled_text(text) is Ok,
        forall|j: int|
            0 <= j < declared(text).len() && is_for(#[trigger] declared(text)[j], request)
                ==> !declared(text)[j].matches(request),
    ensures
        served(compiled_text(text)->Ok_0, request) == not_found(),
{
    law_no_match_is_not_found(declared(text), request);
}

/// The table that a syntax tree compiles to is decided by what its entries
/// say.
pub proof fn lemma_table_from(file: ast::ImpostorFile)
    ensures
        compiled_table(file) == table_from(entry_sources(file.entries@)),
{
    lemma_entries_from(file.entries@);
}

/// Compiles the text of a mock file into a dispatch table: parses it, then
/// compiles the syntax tree. The first failure of either step is the error:
/// a text that the grammar refuses gives the failure of the grammar, and no
/// other text gives a parse error.
pub fn compile(contents: &str) -> (r: Result<DispatchTable, Error>)
    ensures
        match r {
            Ok(table) => compiled_text(contents@) == Ok::<_, ErrorView>(table@) && table.wf(),
            Err(e) => compiled_text(contents@) == Err::<Seq<RouteView>, _>(e@),
        },
        !(r matches Err(Error::Unknown)),
{
    let parse_result = parser::parse_impostor_file(contents);
    let ast = match parse_result {
        Ok(ast) => ast,
        Err(e) => {
            return Err(Error::ParseError(e));
        },
    };
    proof {
        lemma_table_from(ast);
        if compiled_entries(ast.entries@) is Ok {
            lemma_unroutable_is_not_routable(grouped(compiled_entries(ast.entries@)->Ok_0));
        }
    }
    compile_ast(ast)
}

/// The method that `first_unroutable` finds cannot be routed by.
pub proof fn lemma_unroutable_is_not_routable(routes: Seq<RouteView>)
    ensures
        first_unroutable(routes) matches Some(m) ==> !is_routable(m),
    decreases routes.len(),
{
    if routes.len() > 0 {
        lemma_unroutable_is_not_routable(routes.drop_last());
    }
}

} // verus!
