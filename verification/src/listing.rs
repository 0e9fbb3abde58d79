//! The rows that the sidebar lists: those that match the search.

use crate::app::{App, SidebarMode};
use crate::app;
use crate::text;
use vstd::prelude::*;
use vstd::string::*;

verus! {

/// The texts of `v` in lower case.
pub open spec fn lowered(v: Seq<Seq<char>>) -> Seq<Seq<char>> {
    v.map_values(|s: Seq<char>| text::lowercase(s))
}

/// Row `i` matches: the query occurs in its label or in its info.
pub open spec fn row_matches(
    items: Seq<Seq<char>>,
    infos: Option<Seq<Seq<char>>>,
    query: Seq<char>,
    i: int,
) -> bool {
    text::contains(items[i], query) || (infos is Some && text::contains(infos->0[i], query))
}

/// The first `n` rows that match, in order.
pub open spec fn matching_upto(
    items: Seq<Seq<char>>,
    infos: Option<Seq<Seq<char>>>,
    query: Seq<char>,
    n: nat,
) -> Seq<usize>
    decreases n,
{
    if n == 0 {
        Seq::empty()
    } else {
        let before = matching_upto(items, infos, query, (n - 1) as nat);
        if row_matches(items, infos, query, n - 1) {
            before.push((n - 1) as usize)
        } else {
            before
        }
    }
}

/// The rows that match, in order.
pub open spec fn matching(
    items: Seq<Seq<char>>,
    infos: Option<Seq<Seq<char>>>,
    query: Seq<char>,
) -> Seq<usize> {
    matching_upto(items, infos, query, items.len())
}

/// The rows whose label or info holds the query. All texts are in lower case.
pub fn select_matching(items: &Vec<String>, infos: Option<&Vec<String>>, query: &str) -> (r: Vec<
    usize,
>)
    requires
        infos matches Some(v) ==> v@.len() == items@.len(),
    ensures
        r@ == matching(
            text::texts(items@),
            match infos {
                Some(v) => Some(text::texts(v@)),
                None => None,
            },
            query@,
        ),
{
    let q = text::to_chars(query);
    let mut out: Vec<usize> = Vec::new();
    let ghost iv = match infos {
        Some(v) => Some(text::texts(v@)),
        None => None,
    };
    let mut i: usize = 0;
    while i < items.len()
        invariant
            i <= items@.len(),
            q@ == query@,
            infos matches Some(v) ==> v@.len() == items@.len(),
            iv == (match infos {
                Some(v) => Some(text::texts(v@)),
                None => None,
            }),
            out@ == matching_upto(text::texts(items@), iv, query@, i as nat),
        decreases items@.len() - i,
    {
        assert(text::texts(items@)[i as int] == items@[i as int]@);
        let label = text::to_chars(items[i].as_str());
        let mut hit: bool = text::has_part(label.as_slice(), q.as_slice());
        if !hit {
            if let Some(v) = infos {
                assert(text::texts(v@)[i as int] == v@[i as int]@);
                let info = text::to_chars(v[i].as_str());
                hit = text::has_part(info.as_slice(), q.as_slice());
            }
        }
        if hit {
            out.push(i);
        }
        i = i + 1;
    }
    out
}

/// The texts in lower case.
fn lower_all(v: &Vec<String>) -> (r: Vec<String>)
    ensures
        text::texts(r@) == lowered(text::texts(v@)),
{
    let mut out: Vec<String> = Vec::new();
    let mut i: usize = 0;
    while i < v.len()
        invariant
            i <= v@.len(),
            text::texts(out@) == lowered(text::texts(v@)).take(i as int),
        decreases v@.len() - i,
    {
        let t = text::to_lower(v[i].as_str());
        let ghost before = out@;
        out.push(t);
        proof {
            assert(text::texts(v@)[i as int] == v@[i as int]@);
            assert(text::texts(out@) =~= text::texts(before).push(t@));
            assert(lowered(text::texts(v@)).take(i as int + 1) =~= lowered(text::texts(v@)).take(
                i as int,
            ).push(lowered(text::texts(v@))[i as int]));
        }
        i = i + 1;
    }
    assert(lowered(text::texts(v@)).take(v@.len() as int) =~= lowered(text::texts(v@)));
    out
}

/// The labels of the sidebar's current list.
pub open spec fn items_of(m: app::AppView) -> Seq<Seq<char>> {
    match m.sidebar.mode {
        SidebarMode::Commands => m.commands.items,
        SidebarMode::History => m.history.items,
        SidebarMode::Gists => m.gists.items,
    }
}

/// The infos of the sidebar's current list; the history has none.
pub open spec fn infos_of(m: app::AppView) -> Option<Seq<Seq<char>>> {
    match m.sidebar.mode {
        SidebarMode::Commands => Some(m.commands.infos),
        SidebarMode::History => None,
        SidebarMode::Gists => Some(m.gists.infos),
    }
}

/// The commands of the sidebar's current list.
pub open spec fn commands_of(m: app::AppView) -> Seq<Seq<char>> {
    match m.sidebar.mode {
        SidebarMode::Commands => m.commands.commands,
        SidebarMode::History => m.history.commands,
        SidebarMode::Gists => m.gists.commands,
    }
}

/// The rows of the current list that match the search, in order.
pub open spec fn rows_of(m: app::AppView) -> Seq<usize> {
    matching(
        lowered(items_of(m)),
        match infos_of(m) {
            Some(infos) => Some(lowered(infos)),
            None => None,
        },
        text::lowercase(m.sidebar.search_query),
    )
}

impl App {
    /// The labels of the current list.
    pub fn listed_items(&self) -> (r: &Vec<String>)
        ensures
            text::texts(r@) == items_of(self@),
    {
        match self.sidebar.mode {
            SidebarMode::Commands => &self.commands.items,
            SidebarMode::History => &self.history.items,
            SidebarMode::Gists => &self.gists.items,
        }
    }

    /// The infos of the current list.
    pub fn listed_infos(&self) -> (r: Option<&Vec<String>>)
        ensures
            match r {
                Some(v) => infos_of(self@) == Some(text::texts(v@)),
                None => infos_of(self@) is None,
            },
    {
        match self.sidebar.mode {
            SidebarMode::Commands => Some(&self.commands.infos),
            SidebarMode::History => None,
            SidebarMode::Gists => Some(&self.gists.infos),
        }
    }

    /// The commands of the current list.
    pub fn listed_commands(&self) -> (r: &Vec<String>)
        ensures
            text::texts(r@) == commands_of(self@),
    {
        match self.sidebar.mode {
            SidebarMode::Commands => &self.commands.commands,
            SidebarMode::History => &self.history.commands,
            SidebarMode::Gists => &self.gists.commands,
        }
    }

    /// The rows of the current list that match the search.
    pub fn matching_rows(&self) -> (r: Vec<usize>)
        requires
            self@.wf(),
        ensures
            r@ == rows_of(self@),
            forall|k: int| 0 <= k < r@.len() ==> (#[trigger] r@[k]) < items_of(self@).len(),
    {
        let n: usize = self.listed_items().len();
        let items = lower_all(self.listed_items());
        let query = text::to_lower(self.sidebar.search_query.as_str());
        let rows = match self.listed_infos() {
            Some(v) => {
                let infos = lower_all(v);
                assert(text::texts(infos@).len() == text::texts(v@).len());
                assert(text::texts(items@).len() == items_of(self@).len());
                select_matching(&items, Some(&infos), query.as_str())
            },
            None => select_matching(&items, None, query.as_str()),
        };
        proof {
            law_matching_rows(
                lowered(items_of(self@)),
                match infos_of(self@) {
                    Some(infos) => Some(lowered(infos)),
                    None => None,
                },
                text::lowercase(self@.sidebar.search_query),
                n as nat,
            );
        }
        rows
    }
}

/// The matching rows come in the order of the list, none twice, and are
/// exactly those that match.
pub proof fn law_matching_rows(
    items: Seq<Seq<char>>,
    infos: Option<Seq<Seq<char>>>,
    query: Seq<char>,
    n: nat,
)
    requires
        n <= usize::MAX + 1,
    ensures
        forall|i: int, j: int|
            0 <= i < j < matching_upto(items, infos, query, n).len() ==> matching_upto(
                items,
                infos,
                query,
                n,
            )[i] < matching_upto(items, infos, query, n)[j],
        forall|k: int|
            0 <= k < matching_upto(items, infos, query, n).len() ==> (#[trigger] matching_upto(
                items,
                infos,
                query,
                n,
            )[k]) < n,
        forall|i: int|
            0 <= i < n ==> (matching_upto(items, infos, query, n).contains(i as usize)
                <==> #[trigger] row_matches(items, infos, query, i)),
    decreases n,
{
    if n > 0 {
        let p = (n - 1) as nat;
        law_matching_rows(items, infos, query, p);
        let before = matching_upto(items, infos, query, p);
        let after = matching_upto(items, infos, query, n);
        assert forall|i: int| 0 <= i < n implies (after.contains(i as usize)
            <==> #[trigger] row_matches(items, infos, query, i)) by {
            if i < p {
                if before.contains(i as usize) {
                    let k = choose|k: int| 0 <= k < before.len() && before[k] == i as usize;
                    assert(after[k] == i as usize);
                }
                if after.contains(i as usize) {
                    let k = choose|k: int| 0 <= k < after.len() && after[k] == i as usize;
                    if k < before.len() {
                        assert(before[k] == i as usize);
                    }
                }
            } else {
                if row_matches(items, infos, query, i) {
                    assert(after[before.len() as int] == i as usize);
                } else if after.contains(i as usize) {
                    let k = choose|k: int| 0 <= k < before.len() && before[k] == i as usize;
                    assert(before[k] < p);
                }
            }
        }
    }
}

/// An empty query matches every row.
pub proof fn law_empty_query_matches_all(
    items: Seq<Seq<char>>,
    infos: Option<Seq<Seq<char>>>,
    n: nat,
)
    requires
        n <= items.len(),
    ensures
        matching_upto(items, infos, Seq::empty(), n) == Seq::new(n, |i: int| i as usize),
    decreases n,
{
    if n > 0 {
        law_empty_query_matches_all(items, infos, (n - 1) as nat);
        let s = items[n - 1];
        assert(s.subrange(0, 0) =~= Seq::empty());
        assert(text::occurs_at(s, Seq::empty(), 0));
        assert(row_matches(items, infos, Seq::empty(), n - 1));
        assert(matching_upto(items, infos, Seq::empty(), n) =~= Seq::new(n, |i: int| i as usize));
    } else {
        assert(matching_upto(items, infos, Seq::empty(), n) =~= Seq::new(n, |i: int| i as usize));
    }
}

/// A longer query matches no row that a shorter one does not.
pub proof fn law_longer_query_matches_fewer(
    items: Seq<Seq<char>>,
    infos: Option<Seq<Seq<char>>>,
    query: Seq<char>,
    more: Seq<char>,
    i: int,
)
    requires
        row_matches(items, infos, query + more, i),
    ensures
        row_matches(items, infos, query, i),
{
    if text::contains(items[i], query + more) {
        lemma_contains_less(items[i], query, more);
    } else {
        lemma_contains_less(infos->0[i], query, more);
    }
}

proof fn lemma_contains_less(s: Seq<char>, query: Seq<char>, more: Seq<char>)
    requires
        text::contains(s, query + more),
    ensures
        text::contains(s, query),
{
    let whole = query + more;
    let k = choose|k: int| text::occurs_at(s, whole, k);
    assert(s.subrange(k, k + query.len()) =~= query) by {
        assert forall|j: int| 0 <= j < query.len() implies s[k + j] == query[j] by {
            assert(s.subrange(k, k + whole.len())[j] == whole[j]);
        }
    }
    assert(text::occurs_at(s, query, k));
}

/// Row `row` of the current list is to be shown: the query occurs in its label or
/// in its info, in upper or lower case.
pub open spec fn is_shown(m: app::AppView, row: int) -> bool {
    let query = text::lowercase(m.sidebar.search_query);
    let label = text::lowercase(
        match m.sidebar.mode {
            SidebarMode::Commands => m.commands.items[row],
            SidebarMode::History => m.history.items[row],
            SidebarMode::Gists => m.gists.items[row],
        },
    );
    let info = match m.sidebar.mode {
        SidebarMode::Commands => Some(text::lowercase(m.commands.infos[row])),
        SidebarMode::History => None,
        SidebarMode::Gists => Some(text::lowercase(m.gists.infos[row])),
    };
    ||| exists|before: Seq<char>, after: Seq<char>| label == #[trigger] (before + query + after)
    ||| info matches Some(i) && exists|before: Seq<char>, after: Seq<char>|
        i == #[trigger] (before + query + after)
}

/// How many rows of the current list the sidebar has in all.
pub open spec fn row_count(m: app::AppView) -> int {
    match m.sidebar.mode {
        SidebarMode::Commands => m.commands.items.len() as int,
        SidebarMode::History => m.history.items.len() as int,
        SidebarMode::Gists => m.gists.items.len() as int,
    }
}

/// How many of the first `n` rows are to be shown.
pub open spec fn shown_before(m: app::AppView, n: int) -> int
    decreases n,
{
    if n <= 0 {
        0
    } else {
        shown_before(m, n - 1) + (if is_shown(m, n - 1) {
            1int
        } else {
            0
        })
    }
}

proof fn lemma_contains_parts(s: Seq<char>, p: Seq<char>)
    ensures
        text::contains(s, p) <==> exists|before: Seq<char>, after: Seq<char>|
            s == #[trigger] (before + p + after),
{
    if text::contains(s, p) {
        let i = choose|i: int| text::occurs_at(s, p, i);
        let (before, after) = (s.take(i), s.skip(i + p.len()));
        assert(s =~= before + p + after) by {
            assert forall|k: int| 0 <= k < s.len() implies s[k] == (before + p + after)[k] by {
                if i <= k < i + p.len() {
                    assert(s.subrange(i, i + p.len())[k - i] == s[k]);
                }
            }
        }
    }
    if exists|before: Seq<char>, after: Seq<char>| s == #[trigger] (before + p + after) {
        let (before, after) = choose|before: Seq<char>, after: Seq<char>|
            s == #[trigger] (before + p + after);
        let i = before.len() as int;
        assert(s.subrange(i, i + p.len()) =~= p);
        assert(text::occurs_at(s, p, i));
    }
}

proof fn lemma_shown_matches(m: app::AppView, row: int)
    requires
        m.wf(),
        0 <= row < row_count(m),
    ensures
        is_shown(m, row) == row_matches(
            lowered(items_of(m)),
            match infos_of(m) {
                Some(infos) => Some(lowered(infos)),
                None => None,
            },
            text::lowercase(m.sidebar.search_query),
            row,
        ),
{
    let query = text::lowercase(m.sidebar.search_query);
    lemma_contains_parts(lowered(items_of(m))[row], query);
    if let Some(infos) = infos_of(m) {
        lemma_contains_parts(lowered(infos)[row], query);
    }
}

/// The first `n` rows that match the search of a state.
spec fn found_upto(m: app::AppView, n: int) -> Seq<usize> {
    matching_upto(
        lowered(items_of(m)),
        match infos_of(m) {
            Some(infos) => Some(lowered(infos)),
            None => None,
        },
        text::lowercase(m.sidebar.search_query),
        n as nat,
    )
}

proof fn lemma_shown_upto(m: app::AppView, n: int)
    requires
        m.wf(),
        0 <= n <= row_count(m),
        row_count(m) <= usize::MAX,
    ensures
        found_upto(m, n).len() == shown_before(m, n),
        forall|k: int|
            0 <= k < found_upto(m, n).len() ==> (#[trigger] found_upto(m, n)[k]) < n && is_shown(
                m,
                found_upto(m, n)[k] as int,
            ) && shown_before(m, found_upto(m, n)[k] as int) == k,
        forall|row: int|
            0 <= row < n && #[trigger] is_shown(m, row) ==> 0 <= shown_before(m, row) < found_upto(
                m,
                n,
            ).len() && found_upto(m, n)[shown_before(m, row)] == row,
    decreases n,
{
    if n > 0 {
        lemma_shown_upto(m, n - 1);
        lemma_shown_matches(m, n - 1);
        let before = found_upto(m, n - 1);
        let after = found_upto(m, n);
        assert(after == if is_shown(m, n - 1) {
            before.push((n - 1) as usize)
        } else {
            before
        });
        assert forall|k: int| 0 <= k < after.len() implies (#[trigger] after[k]) < n && is_shown(
            m,
            after[k] as int,
        ) && shown_before(m, after[k] as int) == k by {
            if k < before.len() {
                assert(after[k] == before[k]);
            }
        }
        assert forall|row: int| 0 <= row < n && #[trigger] is_shown(m, row) implies 0
            <= shown_before(m, row) < after.len() && after[shown_before(m, row)] == row by {
            if row < n - 1 {
                assert(before[shown_before(m, row)] == row);
            }
        }
    }
}

/// What the sidebar lists are the rows that are to be shown, in their order: the
/// number of such rows before a row is its place in the list.
pub proof fn law_rows_are_those_shown(m: app::AppView)
    requires
        m.wf(),
        row_count(m) <= usize::MAX,
    ensures
        rows_of(m).len() == shown_before(m, row_count(m)),
        rows_of(m).len() <= row_count(m),
        forall|k: int|
            0 <= k < rows_of(m).len() ==> (#[trigger] rows_of(m)[k]) < row_count(m) && is_shown(
                m,
                rows_of(m)[k] as int,
            ) && shown_before(m, rows_of(m)[k] as int) == k,
        forall|row: int|
            0 <= row < row_count(m) && #[trigger] is_shown(m, row) ==> 0 <= shown_before(m, row)
                < rows_of(m).len() && rows_of(m)[shown_before(m, row)] == row,
{
    lemma_shown_upto(m, row_count(m));
    lemma_shown_fit(m, row_count(m));
    assert(rows_of(m) == found_upto(m, row_count(m)));
}

proof fn lemma_shown_fit(m: app::AppView, n: int)
    requires
        0 <= n,
    ensures
        0 <= shown_before(m, n) <= n,
    decreases n,
{
    if n > 0 {
        lemma_shown_fit(m, n - 1);
    }
}

} // verus!
