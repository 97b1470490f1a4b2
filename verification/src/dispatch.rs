//! The dispatch table: compiled entries grouped by path and method, and the
//! choice of the entry that answers a request.

use vstd::prelude::*;

use crate::entry::{Entry, EntryView};
use crate::request::{Request, Response, ResponseView};

verus! {

/// The entries declared for one path and method, in declaration order.
#[derive(Debug, PartialEq, Eq)]
pub struct Route {
    pub path: String,
    pub method: String,
    pub entries: Vec<Entry>,
}

/// What a [`Route`] holds, as plain sequences.
pub struct RouteView {
    pub path: Seq<char>,
    pub method: Seq<char>,
    pub entries: Seq<EntryView>,
}

/// The views of a list of entries.
pub open spec fn entries_view(entries: Seq<Entry>) -> Seq<EntryView> {
    Seq::new(entries.len(), |i: int| entries[i]@)
}

impl View for Route {
    type V = RouteView;

    open spec fn view(&self) -> RouteView {
        RouteView { path: self.path@, method: self.method@, entries: entries_view(self.entries@) }
    }
}

impl RouteView {
    /// Whether the route is the one of this path and method.
    pub open spec fn is_for(self, path: Seq<char>, method: Seq<char>) -> bool {
        self.path == path && self.method == method
    }

    /// The route with one more entry at its end.
    pub open spec fn with(self, entry: EntryView) -> RouteView {
        RouteView { path: self.path, method: self.method, entries: self.entries.push(entry) }
    }
}

/// The compiled form of a mock file: its routes in the order in which their
/// first entries were declared.
#[derive(Debug, PartialEq, Eq)]
pub struct DispatchTable {
    pub routes: Vec<Route>,
}

/// The views of a list of routes.
pub open spec fn routes_view(routes: Seq<Route>) -> Seq<RouteView> {
    Seq::new(routes.len(), |i: int| routes[i]@)
}

impl View for DispatchTable {
    type V = Seq<RouteView>;

    open spec fn view(&self) -> Seq<RouteView> {
        routes_view(self.routes@)
    }
}

/// The index of the route of this path and method, if the table has one.
pub open spec fn route_index(routes: Seq<RouteView>, path: Seq<char>, method: Seq<char>) -> Option<
    int,
>
    decreases routes.len(),
{
    if routes.len() == 0 {
        None
    } else if routes.last().is_for(path, method) {
        Some(routes.len() - 1)
    } else {
        route_index(routes.drop_last(), path, method)
    }
}

/// The entries declared for this path and method; none when the table has no
/// such route.
pub open spec fn entries_of(routes: Seq<RouteView>, path: Seq<char>, method: Seq<char>) -> Seq<
    EntryView,
> {
    match route_index(routes, path, method) {
        Some(k) => routes[k].entries,
        None => Seq::empty(),
    }
}

/// The table with one more entry: at the end of the route of its path and
/// method, or in a new route at the end of the table.
pub open spec fn inserted(routes: Seq<RouteView>, entry: EntryView) -> Seq<RouteView> {
    match route_index(routes, entry.path, entry.method) {
        Some(k) => routes.update(k, routes[k].with(entry)),
        None => routes.push(
            RouteView { path: entry.path, method: entry.method, entries: seq![entry] },
        ),
    }
}

/// The table that a list of entries makes: routes in the order in which
/// their first entries come, and in each route its entries in order.
pub open spec fn grouped(entries: Seq<EntryView>) -> Seq<RouteView>
    decreases entries.len(),
{
    if entries.len() == 0 {
        Seq::empty()
    } else {
        inserted(grouped(entries.drop_last()), entries.last())
    }
}

/// The entries of this path and method, in order.
pub open spec fn selected(entries: Seq<EntryView>, path: Seq<char>, method: Seq<char>) -> Seq<
    EntryView,
>
    decreases entries.len(),
{
    if entries.len() == 0 {
        Seq::empty()
    } else if entries.last().path == path && entries.last().method == method {
        selected(entries.drop_last(), path, method).push(entries.last())
    } else {
        selected(entries.drop_last(), path, method)
    }
}

/// The status of the answer to a request that no entry matches.
pub const NOT_FOUND: u16 = 404;

/// The answer to a request that no entry matches: status 404, no header,
/// no body.
pub open spec fn not_found() -> ResponseView {
    ResponseView { status: NOT_FOUND, headers: Seq::empty(), body: Seq::empty() }
}

/// The response of the first entry that the request matches, or the
/// not-found answer when it matches none.
pub open spec fn first_match(entries: Seq<EntryView>, request: &Request) -> ResponseView
    decreases entries.len(),
{
    if entries.len() == 0 {
        not_found()
    } else if entries[0].matches(request) {
        entries[0].response()
    } else {
        first_match(entries.skip(1), request)
    }
}

/// The answer of a table to a request: that of the first entry of the
/// request's path and method that the request matches.
pub open spec fn served(routes: Seq<RouteView>, request: &Request) -> ResponseView {
    first_match(entries_of(routes, request.path@, request.method@), request)
}

/// What `route_index` finds: the last route of this path and method.
pub proof fn lemma_route_index(routes: Seq<RouteView>, path: Seq<char>, method: Seq<char>)
    ensures
        match route_index(routes, path, method) {
            Some(k) => {
                &&& 0 <= k < routes.len()
                &&& routes[k].is_for(path, method)
                &&& forall|j: int| k < j < routes.len() ==> !(#[trigger] routes[j]).is_for(path, method)
            },
            None => forall|j: int| 0 <= j < routes.len() ==> !(#[trigger] routes[j]).is_for(
                path,
                method,
            ),
        },
    decreases routes.len(),
{
    if routes.len() > 0 && !routes.last().is_for(path, method) {
        lemma_route_index(routes.drop_last(), path, method);
        assert forall|j: int| 0 <= j < routes.len() - 1 implies routes.drop_last()[j]
            == routes[j] by {}
    }
}

/// `route_index` is decided by which routes are of the path and method.
pub proof fn lemma_route_index_is(
    routes: Seq<RouteView>,
    path: Seq<char>,
    method: Seq<char>,
    k: int,
)
    requires
        0 <= k < routes.len(),
        routes[k].is_for(path, method),
        forall|j: int| k < j < routes.len() ==> !(#[trigger] routes[j]).is_for(path, method),
    ensures
        route_index(routes, path, method) == Some(k),
    decreases routes.len(),
{
    if !routes.last().is_for(path, method) {
        assert forall|j: int| 0 <= j < routes.len() - 1 implies routes.drop_last()[j]
            == routes[j] by {}
        lemma_route_index_is(routes.drop_last(), path, method, k);
    }
}

/// A table without a route of the path and method has no index for them.
pub proof fn lemma_route_index_none(routes: Seq<RouteView>, path: Seq<char>, method: Seq<char>)
    requires
        forall|j: int| 0 <= j < routes.len() ==> !(#[trigger] routes[j]).is_for(path, method),
    ensures
        route_index(routes, path, method) is None,
    decreases routes.len(),
{
    if routes.len() > 0 {
        assert forall|j: int| 0 <= j < routes.len() - 1 implies routes.drop_last()[j]
            == routes[j] by {}
        lemma_route_index_none(routes.drop_last(), path, method);
    }
}

/// Inserting an entry adds it at the end of the entries of its own path and
/// method, and leaves those of any other path or method as they are.
pub proof fn lemma_inserted(
    routes: Seq<RouteView>,
    entry: EntryView,
    path: Seq<char>,
    method: Seq<char>,
)
    ensures
        entries_of(inserted(routes, entry), path, method) == if entry.path == path && entry.method
            == method {
            entries_of(routes, path, method).push(entry)
        } else {
            entries_of(routes, path, method)
        },
{
    let after = inserted(routes, entry);
    lemma_route_index(routes, entry.path, entry.method);
    lemma_route_index(routes, path, method);
    match route_index(routes, entry.path, entry.method) {
        Some(k) => {
            match route_index(routes, path, method) {
                Some(i) => {
                    assert forall|j: int| i < j < after.len() implies !(#[trigger] after[j]).is_for(
                        path,
                        method,
                    ) by {
                        assert(routes[j].is_for(path, method) == after[j].is_for(path, method));
                    }
                    lemma_route_index_is(after, path, method, i);
                },
                None => {
                    assert forall|j: int| 0 <= j < after.len() implies !(#[trigger] after[j]).is_for(
                        path,
                        method,
                    ) by {
                        assert(routes[j].is_for(path, method) == after[j].is_for(path, method));
                    }
                    lemma_route_index_none(after, path, method);
                },
            }
        },
        None => {
            if entry.path == path && entry.method == method {
                lemma_route_index_is(after, path, method, routes.len() as int);
                assert(after[routes.len() as int].entries =~= Seq::<EntryView>::empty().push(entry));
            } else {
                match route_index(routes, path, method) {
                    Some(i) => {
                        assert forall|j: int| i < j < after.len() implies !(
                        #[trigger] after[j]).is_for(path, method) by {
                            if j < routes.len() {
                                assert(routes[j] == after[j]);
                            }
                        }
                        lemma_route_index_is(after, path, method, i);
                    },
                    None => {
                        assert forall|j: int| 0 <= j < after.len() implies !(
                        #[trigger] after[j]).is_for(path, method) by {
                            if j < routes.len() {
                                assert(routes[j] == after[j]);
                            }
                        }
                        lemma_route_index_none(after, path, method);
                    },
                }
            }
        },
    }
}

/// The route of a path and method holds the entries declared for them, in
/// declaration order.
pub proof fn lemma_grouped_selects(entries: Seq<EntryView>, path: Seq<char>, method: Seq<char>)
    ensures
        entries_of(grouped(entries), path, method) == selected(entries, path, method),
    decreases entries.len(),
{
    if entries.len() > 0 {
        lemma_grouped_selects(entries.drop_last(), path, method);
        lemma_inserted(grouped(entries.drop_last()), entries.last(), path, method);
    }
}

/// The first entry that a request matches answers it: entries before it that
/// the request does not match are passed over, and entries after it are not
/// looked at.
pub proof fn law_first_match_wins(entries: Seq<EntryView>, request: &Request, k: int)
    requires
        0 <= k < entries.len(),
        entries[k].matches(request),
        forall|j: int| 0 <= j < k ==> !(#[trigger] entries[j]).matches(request),
    ensures
        first_match(entries, request) == entries[k].response(),
    decreases k,
{
    if k > 0 {
        assert(!entries[0].matches(request));
        assert forall|j: int| 0 <= j < k - 1 implies !(#[trigger] entries.skip(1)[j]).matches(
            request,
        ) by {
            assert(entries.skip(1)[j] == entries[j + 1]);
        }
        law_first_match_wins(entries.skip(1), request, k - 1);
    }
}

/// A request that matches none of the entries gets the not-found answer.
pub proof fn lemma_no_match(entries: Seq<EntryView>, request: &Request)
    requires
        forall|j: int| 0 <= j < entries.len() ==> !(#[trigger] entries[j]).matches(request),
    ensures
        first_match(entries, request) == not_found(),
    decreases entries.len(),
{
    if entries.len() > 0 {
        assert(!entries[0].matches(request));
        assert forall|j: int| 0 <= j < entries.len() - 1 implies !(
        #[trigger] entries.skip(1)[j]).matches(request) by {
            assert(entries.skip(1)[j] == entries[j + 1]);
        }
        lemma_no_match(entries.skip(1), request);
    }
}

/// Whether the request matches one of the entries.
pub open spec fn has_match(entries: Seq<EntryView>, request: &Request) -> bool {
    exists|i: int| 0 <= i < entries.len() && (#[trigger] entries[i]).matches(request)
}

/// An entry added at the end answers only the requests that no earlier
/// entry matches.
pub proof fn lemma_first_match_push(entries: Seq<EntryView>, entry: EntryView, request: &Request)
    ensures
        first_match(entries.push(entry), request) == if has_match(entries, request) {
            first_match(entries, request)
        } else if entry.matches(request) {
            entry.response()
        } else {
            not_found()
        },
    decreases entries.len(),
{
    let longer = entries.push(entry);
    if entries.len() == 0 {
        assert(longer[0] == entry);
        assert(longer.skip(1).len() == 0);
        assert(first_match(longer.skip(1), request) == not_found());
        assert(!has_match(entries, request));
    } else {
        assert(longer[0] == entries[0]);
        assert(longer.skip(1) == entries.skip(1).push(entry));
        if entries[0].matches(request) {
            assert(has_match(entries, request));
        } else {
            lemma_first_match_push(entries.skip(1), entry, request);
            if has_match(entries, request) {
                let i = choose|i: int| 0 <= i < entries.len() && (#[trigger] entries[i]).matches(
                    request,
                );
                assert(i >= 1);
                assert(entries.skip(1)[i - 1] == entries[i]);
                assert(entries.skip(1)[i - 1].matches(request));
                assert(has_match(entries.skip(1), request));
            }
            if has_match(entries.skip(1), request) {
                let i = choose|i: int|
                    0 <= i < entries.skip(1).len() && (#[trigger] entries.skip(1)[i]).matches(
                        request,
                    );
                assert(entries.skip(1)[i] == entries[i + 1]);
                assert(entries[i + 1].matches(request));
                assert(has_match(entries, request));
            }
            assert(first_match(longer, request) == first_match(longer.skip(1), request));
            assert(first_match(entries, request) == first_match(entries.skip(1), request));
        }
    }
}

/// Every entry selected for a path and method is one of the entries, and is
/// of that path and method.
pub proof fn lemma_selected_members(entries: Seq<EntryView>, path: Seq<char>, method: Seq<char>)
    ensures
        forall|i: int|
            0 <= i < selected(entries, path, method).len() ==> exists|j: int|
                0 <= j < entries.len() && entries[j] == #[trigger] selected(
                    entries,
                    path,
                    method,
                )[i] && entries[j].path == path && entries[j].method == method,
    decreases entries.len(),
{
    if entries.len() > 0 {
        let shorter = entries.drop_last();
        lemma_selected_members(shorter, path, method);
        let sel = selected(entries, path, method);
        assert forall|i: int| 0 <= i < sel.len() implies exists|j: int|
            0 <= j < entries.len() && entries[j] == #[trigger] sel[i] && entries[j].path == path
                && entries[j].method == method by {
            if i < selected(shorter, path, method).len() {
                assert(sel[i] == selected(shorter, path, method)[i]);
                let j = choose|j: int|
                    0 <= j < shorter.len() && shorter[j] == selected(shorter, path, method)[i]
                        && shorter[j].path == path && shorter[j].method == method;
                assert(entries[j] == shorter[j]);
            } else {
                assert(sel[i] == entries[entries.len() - 1]);
            }
        }
    }
}

/// A request is answered by the first declared entry of its path and method
/// that it matches: entries of the same path and method declared before it,
/// which the request does not match, are passed over, and no entry declared
/// after it is looked at.
pub proof fn law_first_declared_match_serves(entries: Seq<EntryView>, request: &Request, k: int)
    requires
        0 <= k < entries.len(),
        entries[k].path == request.path@,
        entries[k].method == request.method@,
        entries[k].matches(request),
        forall|j: int|
            0 <= j < k && (#[trigger] entries[j]).path == request.path@ && entries[j].method
                == request.method@ ==> !entries[j].matches(request),
    ensures
        served(grouped(entries), request) == entries[k].response(),
{
    let path = request.path@;
    let method = request.method@;
    lemma_grouped_selects(entries, path, method);
    lemma_serves_from(entries, request, k, entries.len() as int);
    assert(entries.take(entries.len() as int) == entries);
}

/// After the entry `k` of the law above has been declared, it stays the
/// answer however many entries follow.
proof fn lemma_serves_from(entries: Seq<EntryView>, request: &Request, k: int, n: int)
    requires
        0 <= k < n <= entries.len(),
        entries[k].path == request.path@,
        entries[k].method == request.method@,
        entries[k].matches(request),
        forall|j: int|
            0 <= j < k && (#[trigger] entries[j]).path == request.path@ && entries[j].method
                == request.method@ ==> !entries[j].matches(request),
    ensures
        has_match(selected(entries.take(n), request.path@, request.method@), request),
        first_match(selected(entries.take(n), request.path@, request.method@), request)
            == entries[k].response(),
    decreases n,
{
    let path = request.path@;
    let method = request.method@;
    let now = entries.take(n);
    let before = entries.take(n - 1);
    assert(now.drop_last() == before);
    assert(now.last() == entries[n - 1]);
    let earlier = selected(before, path, method);
    if n == k + 1 {
        lemma_selected_members(before, path, method);
        assert forall|i: int| 0 <= i < earlier.len() implies !(#[trigger] earlier[i]).matches(
            request,
        ) by {
            let j = choose|j: int|
                0 <= j < before.len() && before[j] == earlier[i] && before[j].path == path
                    && before[j].method == method;
            assert(before[j] == entries[j]);
        }
        lemma_first_match_push(earlier, entries[k], request);
        assert(earlier.push(entries[k])[earlier.len() as int].matches(request));
    } else {
        lemma_serves_from(entries, request, k, n - 1);
        if entries[n - 1].path == path && entries[n - 1].method == method {
            lemma_first_match_push(earlier, entries[n - 1], request);
            let i = choose|i: int| 0 <= i < earlier.len() && (#[trigger] earlier[i]).matches(request);
            assert(earlier.push(entries[n - 1])[i].matches(request));
        }
    }
}

/// A request gets the not-found answer when the table has no entry of its
/// path and method, and when it meets the conditions of none of them.
pub proof fn law_no_match_is_not_found(entries: Seq<EntryView>, request: &Request)
    requires
        forall|j: int|
            0 <= j < entries.len() && (#[trigger] entries[j]).path == request.path@
                && entries[j].method == request.method@ ==> !entries[j].matches(request),
    ensures
        served(grouped(entries), request) == not_found(),
{
    let path = request.path@;
    let method = request.method@;
    lemma_grouped_selects(entries, path, method);
    lemma_selected_members(entries, path, method);
    let sel = selected(entries, path, method);
    assert forall|i: int| 0 <= i < sel.len() implies !(#[trigger] sel[i]).matches(request) by {
        let j = choose|j: int|
            0 <= j < entries.len() && entries[j] == sel[i] && entries[j].path == path
                && entries[j].method == method;
    }
    lemma_no_match(sel, request);
}

/// The index of the route of this path and method.
fn find_route(routes: &Vec<Route>, path: &String, method: &String) -> (r: Option<usize>)
    ensures
        match r {
            Some(k) => k < routes.len() && route_index(routes_view(routes@), path@, method@)
                == Some(k as int),
            None => route_index(routes_view(routes@), path@, method@) is None,
        },
{
    let ghost all = routes_view(routes@);
    let mut i: usize = routes.len();
    assert(all.take(i as int) == all);
    while i > 0
        invariant
            i <= routes.len(),
            all == routes_view(routes@),
            route_index(all, path@, method@) == route_index(all.take(i as int), path@, method@),
        decreases i,
    {
        i -= 1;
        assert(all.take(i + 1).last() == routes@[i as int]@);
        assert(all.take(i + 1).drop_last() == all.take(i as int));
        if routes[i].path == *path && routes[i].method == *method {
            return Some(i);
        }
    }
    None
}

/// Answers a request from the entries of its route: the first entry that
/// the request matches builds the response.
pub fn respond(entries: &Vec<Entry>, request: &Request) -> (r: Response)
    requires
        forall|j: int| 0 <= j < entries@.len() ==> (#[trigger] entries@[j])@.is_supported(),
    ensures
        r@ == first_match(entries_view(entries@), request),
{
    let ghost all = entries_view(entries@);
    let mut i: usize = 0;
    assert(all.skip(0) == all);
    while i < entries.len()
        invariant
            i <= entries.len(),
            all == entries_view(entries@),
            forall|j: int| 0 <= j < entries@.len() ==> (#[trigger] entries@[j])@.is_supported(),
            first_match(all, request) == first_match(all.skip(i as int), request),
        decreases entries.len() - i,
    {
        assert(all.skip(i as int)[0] == entries@[i as int]@);
        let asserts_passed = entries[i].matches(request);
        if asserts_passed {
            return entries[i].handler(request);
        }
        assert(all.skip(i as int).skip(1) == all.skip(i + 1));
        i += 1;
    }
    let r = Response { status: NOT_FOUND, headers: Vec::new(), body: Vec::new() };
    assert(r@.headers =~= Seq::empty());
    r
}

impl DispatchTable {
    /// Whether every entry of the table can be evaluated.
    pub open spec fn wf(&self) -> bool {
        forall|i: int, j: int|
            0 <= i < self.routes@.len() && 0 <= j < self.routes@[i].entries@.len() ==> (
            #[trigger] self.routes@[i].entries@[j])@.is_supported()
    }

    /// Whether every entry of the table can be evaluated.
    pub fn is_servable(&self) -> (r: bool)
        ensures
            r == self.wf(),
    {
        let mut i: usize = 0;
        while i < self.routes.len()
            invariant
                i <= self.routes.len(),
                forall|a: int, b: int|
                    0 <= a < i && 0 <= b < self.routes@[a].entries@.len() ==> (
                    #[trigger] self.routes@[a].entries@[b])@.is_supported(),
            decreases self.routes.len() - i,
        {
            let entries = &self.routes[i].entries;
            let mut j: usize = 0;
            while j < entries.len()
                invariant
                    j <= entries.len(),
                    i < self.routes.len(),
                    *entries == self.routes@[i as int].entries,
                    forall|b: int| 0 <= b < j ==> (#[trigger] entries@[b])@.is_supported(),
                decreases entries.len() - j,
            {
                if !entries[j].is_supported() {
                    return false;
                }
                j += 1;
            }
            i += 1;
        }
        true
    }

    /// Answers a request: looks up the route of its path and method, and
    /// lets the first entry that the request matches build the response. A
    /// request without a route, or that no entry matches, gets status 404
    /// with no header and no body.
    pub fn dispatch(&self, request: &Request) -> (r: Response)
        requires
            self.wf(),
        ensures
            r@ == served(self@, request),
    {
        match find_route(&self.routes, &request.path, &request.method) {
            Some(k) => {
                assert(self@[k as int] == self.routes@[k as int]@);
                respond(&self.routes[k].entries, request)
            },
            None => {
                let r = Response { status: NOT_FOUND, headers: Vec::new(), body: Vec::new() };
                assert(r@.headers =~= Seq::empty());
                r
            },
        }
    }

    /// Adds an entry: at the end of the route of its path and method, or in
    /// a new route at the end of the table.
    pub fn insert(&mut self, entry: Entry)
        ensures
            final(self)@ == inserted(old(self)@, entry@),
            old(self).wf() && entry@.is_supported() ==> final(self).wf(),
    {
        let ghost before = self@;
        match find_route(&self.routes, &entry.path, &entry.method) {
            Some(k) => {
                let mut route = self.routes.remove(k);
                let ghost old_entries = entries_view(route.entries@);
                route.entries.push(entry);
                assert(entries_view(route.entries@) =~= old_entries.push(entry@));
                self.routes.insert(k, route);
                assert(self@ =~= before.update(k as int, before[k as int].with(entry@)));
            },
            None => {
                let mut entries: Vec<Entry> = Vec::new();
                let path = entry.path.clone();
                let method = entry.method.clone();
                entries.push(entry);
                assert(entries_view(entries@) =~= seq![entry@]);
                self.routes.push(Route { path, method, entries });
                assert(self@ =~= before.push(
                    RouteView { path: entry.path@, method: entry.method@, entries: seq![entry@] },
                ));
            },
        }
    }
}

} // verus!
