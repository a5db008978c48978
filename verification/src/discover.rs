//! Dashboard discovery: filtering the names of a paged dashboard
//! listing and accumulating the qualifying names across pages.
//!
//! The backend hands back one page of entries at a time, together with a
//! continuation token; the listing goes on while the token is present
//! and non-empty.  The surrounding application performs the calls and
//! feeds each page to the accumulator here.

use crate::text::{
    has_prefix, has_suffix, lemma_strs_view_push, str_ends_with, str_starts_with, strs_view,
};
use vstd::prelude::*;
use vstd::string::StrSliceExecFns;

verus! {

broadcast use vstd::seq::group_seq_axioms, vstd::std_specs::vec::group_vec_axioms;

/// The view of a name filter.
pub enum NameFilterV {
    Prefix(Seq<char>),
    Suffix(Seq<char>),
}

/// How dashboard names qualify in the many-dashboards mode: by a prefix
/// or by a suffix of the name.
#[derive(Debug, Clone)]
pub enum NameFilter {
    Prefix(String),
    Suffix(String),
}

impl View for NameFilter {
    type V = NameFilterV;

    open spec fn view(&self) -> NameFilterV {
        match self {
            NameFilter::Prefix(p) => NameFilterV::Prefix(p@),
            NameFilter::Suffix(s) => NameFilterV::Suffix(s@),
        }
    }
}

/// A name qualifies iff it starts with the filter's prefix, or ends
/// with its suffix.
pub open spec fn name_selected(filter: NameFilterV, name: Seq<char>) -> bool {
    match filter {
        NameFilterV::Prefix(p) => has_prefix(name, p),
        NameFilterV::Suffix(s) => has_suffix(name, s),
    }
}

/// The qualifying names of one page of listing entries, in page order.
/// An entry without a name never qualifies.
pub open spec fn qualifying(entries: Seq<Option<String>>, filter: NameFilterV) -> Seq<Seq<char>>
    decreases entries,
{
    if entries.len() == 0 {
        Seq::empty()
    } else {
        qualifying(entries.drop_last(), filter) + match entries.last() {
            Some(n) => if name_selected(filter, n@) {
                seq![n@]
            } else {
                Seq::empty()
            },
            None => Seq::empty(),
        }
    }
}

/// True iff the name qualifies under the filter.
pub fn name_matches(name: &str, filter: &NameFilter) -> (r: bool)
    ensures
        r == name_selected(filter@, name@),
{
    match filter {
        NameFilter::Prefix(p) => str_starts_with(name, p.as_str()),
        NameFilter::Suffix(s) => str_ends_with(name, s.as_str()),
    }
}

/// Appends the qualifying names of one page to the accumulator, in page
/// order.
#[verifier::loop_isolation(false)]
pub fn append_qualifying(acc: &mut Vec<String>, entries: &Vec<Option<String>>, filter: &NameFilter)
    ensures
        strs_view(final(acc)@) == strs_view(old(acc)@) + qualifying(entries@, filter@),
{
    let mut i: usize = 0;
    while i < entries.len()
        invariant
            i <= entries@.len(),
            strs_view(acc@) == strs_view(old(acc)@) + qualifying(
                entries@.subrange(0, i as int),
                filter@,
            ),
        decreases entries@.len() - i,
    {
        let ghost prefix = entries@.subrange(0, i as int);
        match &entries[i] {
            Some(name) => {
                if name_matches(name.as_str(), filter) {
                    let ghost acc_pre = acc@;
                    let owned = name.clone();
                    acc.push(owned);
                    proof {
                        lemma_strs_view_push(acc_pre, owned);
                    }
                }
            },
            None => {},
        }
        proof {
            assert(entries@.subrange(0, i + 1).drop_last() =~= prefix);
            assert(entries@.subrange(0, i + 1).last() == entries@[i as int]);
            assert(strs_view(acc@) =~= strs_view(old(acc)@) + qualifying(
                entries@.subrange(0, i + 1),
                filter@,
            ));
        }
        i += 1;
    }
    proof {
        assert(entries@.subrange(0, entries@.len() as int) =~= entries@);
    }
}

/// The qualifying names of one page, in page order.
pub fn qualifying_names(entries: &Vec<Option<String>>, filter: &NameFilter) -> (r: Vec<String>)
    ensures
        strs_view(r@) == qualifying(entries@, filter@),
{
    let mut acc: Vec<String> = Vec::new();
    append_qualifying(&mut acc, entries, filter);
    proof {
        assert(strs_view(Seq::<String>::empty()) + qualifying(entries@, filter@) =~= qualifying(
            entries@,
            filter@,
        ));
    }
    acc
}

/// One page of the backend's dashboard listing: the entries, each with
/// its name when the backend gave one, and the continuation token.
pub struct DashboardPage {
    pub entries: Vec<Option<String>>,
    pub next_token: Option<String>,
}

/// The listing goes on iff the token is present and non-empty.
pub open spec fn token_continues(token: Option<String>) -> bool {
    match token {
        Some(t) => t@.len() > 0,
        None => false,
    }
}

/// True iff the listing should request another page after this token.
pub fn should_request_next(token: &Option<String>) -> (r: bool)
    ensures
        r == token_continues(*token),
{
    match token {
        Some(t) => t.as_str().unicode_len() > 0,
        None => false,
    }
}

/// What a full paged listing accumulates: the qualifying names of each
/// page in order, stopping after the first page whose token is absent
/// or empty.
pub open spec fn collect_pages(pages: Seq<DashboardPage>, filter: NameFilterV) -> Seq<Seq<char>>
    decreases pages,
{
    if pages.len() == 0 {
        Seq::empty()
    } else {
        let head = qualifying(pages.first().entries@, filter);
        if token_continues(pages.first().next_token) {
            head + collect_pages(pages.drop_first(), filter)
        } else {
            head
        }
    }
}

/// The qualifying names accumulated from a listing whose pages are
/// given in order: each page's qualifying names in page order, stopping
/// after the first page with an absent or empty token.
#[verifier::loop_isolation(false)]
pub fn collect_from_pages(pages: &Vec<DashboardPage>, filter: &NameFilter) -> (r: Vec<String>)
    ensures
        strs_view(r@) == collect_pages(pages@, filter@),
{
    let mut acc: Vec<String> = Vec::new();
    let mut i: usize = 0;
    proof {
        assert(pages@.skip(0) =~= pages@);
        assert(strs_view(acc@) =~= Seq::<Seq<char>>::empty());
        assert(Seq::<Seq<char>>::empty() + collect_pages(pages@, filter@) =~= collect_pages(
            pages@,
            filter@,
        ));
    }
    while i < pages.len()
        invariant
            i <= pages@.len(),
            collect_pages(pages@, filter@) == strs_view(acc@) + collect_pages(
                pages@.skip(i as int),
                filter@,
            ),
        decreases pages@.len() - i,
    {
        let page = &pages[i];
        append_qualifying(&mut acc, &page.entries, filter);
        proof {
            assert(pages@.skip(i as int).first() == pages@[i as int]);
            assert(pages@.skip(i as int).drop_first() =~= pages@.skip(i + 1));
        }
        if !should_request_next(&page.next_token) {
            proof {
                assert(collect_pages(pages@.skip(i as int), filter@) == qualifying(
                    pages@[i as int].entries@,
                    filter@,
                ));
            }
            return acc;
        }
        i += 1;
    }
    proof {
        assert(pages@.skip(pages@.len() as int) =~= Seq::<DashboardPage>::empty());
        assert(strs_view(acc@) + Seq::<Seq<char>>::empty() =~= strs_view(acc@));
    }
    acc
}

/// The qualifying names of every page, in page order, with no regard to
/// tokens.
pub open spec fn all_pages_qualifying(pages: Seq<DashboardPage>, filter: NameFilterV) -> Seq<
    Seq<char>,
>
    decreases pages,
{
    if pages.len() == 0 {
        Seq::empty()
    } else {
        qualifying(pages.first().entries@, filter) + all_pages_qualifying(
            pages.drop_first(),
            filter,
        )
    }
}

/// When every page but the last carries a continuing token, a paged
/// listing accumulates the qualifying entries of all pages, in page
/// order.
pub proof fn lemma_collect_pages_all_visited(pages: Seq<DashboardPage>, filter: NameFilterV)
    requires
        forall|i: int| 0 <= i < pages.len() - 1 ==> token_continues(pages[i].next_token),
    ensures
        collect_pages(pages, filter) == all_pages_qualifying(pages, filter),
    decreases pages,
{
    if pages.len() > 1 {
        assert(forall|i: int|
            0 <= i < pages.drop_first().len() - 1 ==> pages.drop_first()[i] == pages[i + 1]);
        lemma_collect_pages_all_visited(pages.drop_first(), filter);
        assert(token_continues(pages[0].next_token));
    } else if pages.len() == 1 {
        assert(pages.drop_first().len() == 0);
        assert(collect_pages(pages.drop_first(), filter) == Seq::<Seq<char>>::empty());
        assert(all_pages_qualifying(pages.drop_first(), filter) == Seq::<Seq<char>>::empty());
        assert(qualifying(pages.first().entries@, filter) + Seq::<Seq<char>>::empty()
            =~= qualifying(pages.first().entries@, filter));
    }
}

/// A paged listing never reads past the first page whose token stops:
/// the pages after it contribute nothing.
pub proof fn lemma_collect_pages_stops(
    pages: Seq<DashboardPage>,
    filter: NameFilterV,
    k: int,
    more: Seq<DashboardPage>,
)
    requires
        0 <= k < pages.len(),
        !token_continues(pages[k].next_token),
        forall|i: int| 0 <= i < k ==> token_continues(pages[i].next_token),
        more == pages.take(k + 1),
    ensures
        collect_pages(pages, filter) == collect_pages(more, filter),
    decreases pages,
{
    if k == 0 {
        assert(!token_continues(pages.first().next_token));
        assert(more.first() == pages.first());
        assert(!token_continues(more.first().next_token));
    } else {
        assert(token_continues(pages.first().next_token));
        assert(forall|i: int|
            0 <= i < pages.drop_first().len() ==> pages.drop_first()[i] == pages[i + 1]);
        lemma_collect_pages_stops(pages.drop_first(), filter, k - 1, pages.drop_first().take(k));
        assert(more.first() == pages.first());
        assert(more.drop_first() =~= pages.drop_first().take(k));
        assert(token_continues(more.first().next_token));
    }
}

} // verus!
