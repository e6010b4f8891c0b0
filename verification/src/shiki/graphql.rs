//! Franchise listings from the GraphQL endpoint and their chronological
//! ordering.

use std::collections::HashSet;

use vstd::prelude::*;
use vstd::seq_lib::{to_multiset_contains, to_multiset_insert, to_multiset_remove};
use vstd::set_lib::lemma_len_subset;

use crate::shiki::shared::{AnimeKind, AnimeStatus, UserRate};
use crate::text::{join_decimals, join_usizes};
use crate::utils::api_url;

verus! {

broadcast use {
    vstd::std_specs::hash::group_hash_axioms,
    vstd::seq_lib::group_seq_properties,
    vstd::multiset::group_multiset_axioms,
};

/// The page size asked of the franchise query.
pub const LIMIT: usize = 50;

/// A GraphQL request: the query text and its variables.
#[derive(Debug)]
pub struct GraphQLRequest<V> {
    pub query: &'static str,
    pub variables: V,
}

/// The variables of the franchise query.
#[derive(Debug)]
pub struct FetchAnimesVars<'a> {
    pub franchise: &'a str,
    pub page: usize,
    pub limit: usize,
    pub exclude_ids: &'a str,
}

impl<'a> FetchAnimesVars<'a> {
    /// Variables for the first page of `franchise`, leaving out `exclude_ids`.
    pub fn new(franchise: &'a str, exclude_ids: &'a str) -> (vars: Self)
        ensures
            vars.franchise == franchise,
            vars.page == 1,
            vars.limit == LIMIT,
            vars.exclude_ids == exclude_ids,
    {
        FetchAnimesVars { franchise, page: 1, limit: LIMIT, exclude_ids }
    }
}

/// The titles of a franchise.
#[derive(Debug)]
pub struct Related {
    pub animes: Vec<Anime>,
}

impl Default for Related {
    fn default() -> (r: Self)
        ensures
            r.animes@ == Seq::<Anime>::empty(),
    {
        Related { animes: Vec::new() }
    }
}

/// The franchise query: titles of a franchise that were announced, ordered by
/// air date, with their relations and the user's rate.
pub const ANIMES_BY_FRANCHISE_QUERY: &'static str = r#"
    query($franchise: String!, $page: PositiveInt!, $limit: PositiveInt!, $excludeIds: String!) {
      animes(franchise: $franchise, page: $page, limit: $limit, excludeIds: $excludeIds, order: aired_on, status: "!anons") {
        id
        name
        status
        episodes
        episodesAired
        kind

        related {
          relationKind
          anime {
            id
          }
        }

        userRate {
          episodes
          id
          rewatches
          status
        }
      }
    }
    "#;

/// The `excludeIds` variable: the ids in base ten, separated by commas.
pub fn exclude_ids(not_anime_ids: &[usize]) -> (s: String)
    ensures
        s@ == join_decimals(not_anime_ids@),
{
    join_usizes(not_anime_ids)
}

/// The GraphQL endpoint of `domain`.
pub fn graphql_url(domain: &str) -> (url: String)
    ensures
        url@ == "https://"@ + domain@ + "/api/graphql"@,
{
    api_url(domain, "/api/graphql")
}

/// The franchise request for the first page.
pub fn franchise_request<'a>(franchise: &'a str, exclude_ids: &'a str) -> (req: GraphQLRequest<
    FetchAnimesVars<'a>,
>)
    ensures
        req.query == ANIMES_BY_FRANCHISE_QUERY,
        req.variables.franchise == franchise,
        req.variables.page == 1,
        req.variables.limit == LIMIT,
        req.variables.exclude_ids == exclude_ids,
{
    GraphQLRequest { query: ANIMES_BY_FRANCHISE_QUERY, variables: FetchAnimesVars::new(franchise, exclude_ids) }
}

impl<'a> GraphQLRequest<FetchAnimesVars<'a>> {
    /// Moves the request on to the next page. Tells whether it could: the
    /// page number is at most `usize::MAX`, and a request for that page is
    /// left as it is.
    pub fn advance_page(&mut self) -> (advanced: bool)
        ensures
            advanced == (old(self).variables.page < usize::MAX),
            final(self).query == old(self).query,
            final(self).variables.franchise == old(self).variables.franchise,
            final(self).variables.limit == old(self).variables.limit,
            final(self).variables.exclude_ids == old(self).variables.exclude_ids,
            final(self).variables.page == (if advanced {
                old(self).variables.page + 1
            } else {
                old(self).variables.page as int
            }),
    {
        if self.variables.page < usize::MAX {
            self.variables.page = self.variables.page + 1;
            true
        } else {
            false
        }
    }
}

impl Related {
    /// Adds one page of titles at the end; tells whether a further page has
    /// to be asked for, which is when this page was full.
    pub fn append_page(&mut self, page: Vec<Anime>) -> (more: bool)
        ensures
            final(self).animes@ == old(self).animes@ + page@,
            more == (page@.len() >= LIMIT),
    {
        let len = page.len();
        let mut page = page;
        self.animes.append(&mut page);
        len >= LIMIT
    }
}

/// One title of a franchise with its relations to other titles.
#[derive(Debug)]
pub struct Anime {
    pub id: usize,
    pub name: String,
    pub status: AnimeStatus,
    pub kind: AnimeKind,
    pub episodes: usize,
    pub episodes_aired: usize,
    pub related: Vec<Relation>,
    pub user_rate: Option<UserRate>,
}

/// A relation from one title to another.
#[derive(Debug)]
pub struct Relation {
    pub relation_kind: RelationKind,
    pub anime: Option<RelationAnime>,
}

/// How one title relates to another.
#[derive(Debug, Clone, Copy, PartialEq, Eq, Structural)]
pub enum RelationKind {
    Adaptation,
    AlternativeSetting,
    AlternativeVersion,
    Character,
    FullStory,
    Other,
    ParentStory,
    Prequel,
    Sequel,
    SideStory,
    SpinOff,
    Summary,
    Fan,
    Orig,
}

/// The title a relation points at.
#[derive(Debug)]
pub struct RelationAnime {
    pub id: usize,
}

/// The relation kinds that a reordering pass acts on: titles that come
/// before (pulled forward) or the sequel relation (pushed back).
pub open spec fn is_reordering_kind(kind: RelationKind, pull_forward: bool) -> bool {
    if pull_forward {
        kind == RelationKind::Prequel || kind == RelationKind::ParentStory
            || kind == RelationKind::FullStory || kind == RelationKind::Orig
    } else {
        kind == RelationKind::Sequel
    }
}

/// The first position at or after `k` that holds the title `id`.
pub open spec fn position_from(animes: Seq<Anime>, id: usize, k: int) -> Option<int>
    decreases animes.len() - k,
{
    if k < 0 || k >= animes.len() {
        None
    } else if animes[k].id == id {
        Some(k)
    } else {
        position_from(animes, id, k + 1)
    }
}

/// The first position that holds the title `id`.
pub open spec fn position_of(animes: Seq<Anime>, id: usize) -> Option<int> {
    position_from(animes, id, 0)
}

/// Where relation `r` of the title at `current` asks a title to move from,
/// with that title's id: the relation has the pass's kind, names a title
/// that was not moved yet in this pass, and that title stands after
/// `current` (pulling forward) or before it (pushing back).
pub open spec fn relation_target(
    animes: Seq<Anime>,
    current: int,
    moved: Set<usize>,
    pull_forward: bool,
    r: Relation,
) -> Option<(int, usize)> {
    if !is_reordering_kind(r.relation_kind, pull_forward) {
        None
    } else {
        match r.anime {
            None => None,
            Some(ra) => if moved.contains(ra.id) {
                None
            } else {
                match position_of(animes, ra.id) {
                    None => None,
                    Some(pos) => if (pull_forward && pos > current) || (!pull_forward && pos
                        < current) {
                        Some((pos, ra.id))
                    } else {
                        None
                    },
                }
            },
        }
    }
}

/// The first relation target among the relations of the title at
/// `current`, from relation `j` on.
pub open spec fn related_target_from(
    animes: Seq<Anime>,
    current: int,
    moved: Set<usize>,
    pull_forward: bool,
    j: int,
) -> Option<(int, usize)>
    decreases animes[current].related@.len() - j,
{
    if j < 0 || j >= animes[current].related@.len() {
        None
    } else {
        match relation_target(animes, current, moved, pull_forward, animes[current].related@[j]) {
            Some(t) => Some(t),
            None => related_target_from(animes, current, moved, pull_forward, j + 1),
        }
    }
}

/// The first relation target of the title at `current`.
pub open spec fn related_target(
    animes: Seq<Anime>,
    current: int,
    moved: Set<usize>,
    pull_forward: bool,
) -> Option<(int, usize)> {
    related_target_from(animes, current, moved, pull_forward, 0)
}

/// The list after the title at `pos` was pulled forward to `index`
/// (`pull_forward`), or after the title at `index` was pushed back to `pos`.
pub open spec fn move_related(animes: Seq<Anime>, index: int, pos: int, pull_forward: bool) -> Seq<
    Anime,
> {
    if pull_forward {
        animes.remove(pos).insert(index, animes[pos])
    } else {
        animes.remove(index).insert(pos, animes[index])
    }
}

/// The list once the title at `index` has no relation target left, taking
/// at most `fuel` moves; `moved` holds the ids moved so far in this pass.
pub open spec fn settle(
    animes: Seq<Anime>,
    index: int,
    moved: Set<usize>,
    pull_forward: bool,
    fuel: nat,
) -> Seq<Anime>
    decreases fuel,
{
    if fuel == 0 {
        animes
    } else {
        match related_target(animes, index, moved, pull_forward) {
            None => animes,
            Some((pos, id)) => settle(
                move_related(animes, index, pos, pull_forward),
                index,
                moved.insert(id),
                pull_forward,
                (fuel - 1) as nat,
            ),
        }
    }
}

/// The list after one reordering pass has settled the first `count`
/// positions, each with a fresh set of moved ids.
pub open spec fn reorder_prefix(animes: Seq<Anime>, pull_forward: bool, count: nat) -> Seq<Anime>
    decreases count,
{
    if count == 0 {
        animes
    } else {
        let prev = reorder_prefix(animes, pull_forward, (count - 1) as nat);
        settle(prev, count - 1, Set::empty(), pull_forward, prev.len())
    }
}

/// The list after a full reordering pass.
pub open spec fn reordered(animes: Seq<Anime>, pull_forward: bool) -> Seq<Anime> {
    reorder_prefix(animes, pull_forward, animes.len())
}

/// Chronological order: the list reversed, then titles that come before a
/// title pulled in front of it, then titles pushed in front of their sequels.
pub open spec fn chrono_order(animes: Seq<Anime>) -> Seq<Anime> {
    reordered(reordered(animes.reverse(), true), false)
}

/// The ids of the titles in `animes`.
pub open spec fn id_set(animes: Seq<Anime>) -> Set<usize> {
    animes.map_values(|a: Anime| a.id).to_set()
}

proof fn lemma_position_from(animes: Seq<Anime>, id: usize, k: int)
    requires
        0 <= k,
    ensures
        match position_from(animes, id, k) {
            Some(p) => k <= p < animes.len() && animes[p].id == id,
            None => forall|i: int| k <= i < animes.len() ==> animes[i].id != id,
        },
    decreases animes.len() - k,
{
    if k < animes.len() && animes[k].id != id {
        lemma_position_from(animes, id, k + 1);
    }
}

proof fn lemma_related_target_from(
    animes: Seq<Anime>,
    current: int,
    moved: Set<usize>,
    pull_forward: bool,
    j: int,
)
    requires
        0 <= current < animes.len(),
        0 <= j,
    ensures
        related_target_from(animes, current, moved, pull_forward, j) matches Some((pos, id)) ==> {
            &&& 0 <= pos < animes.len()
            &&& animes[pos].id == id
            &&& !moved.contains(id)
            &&& pull_forward ==> pos > current
            &&& !pull_forward ==> pos < current
        },
    decreases animes[current].related@.len() - j,
{
    if j < animes[current].related@.len() {
        let r = animes[current].related@[j];
        match r.anime {
            Some(ra) => lemma_position_from(animes, ra.id, 0),
            None => {},
        }
        lemma_related_target_from(animes, current, moved, pull_forward, j + 1);
    }
}

proof fn lemma_move_related(animes: Seq<Anime>, index: int, pos: int, pull_forward: bool)
    requires
        0 <= index < animes.len(),
        0 <= pos < animes.len(),
    ensures
        move_related(animes, index, pos, pull_forward).len() == animes.len(),
        move_related(animes, index, pos, pull_forward).to_multiset() == animes.to_multiset(),
{
    let m = animes.to_multiset();
    if pull_forward {
        let a = animes[pos];
        to_multiset_remove(animes, pos);
        to_multiset_insert(animes.remove(pos), index, a);
        to_multiset_contains(animes, a);
        assert(animes.contains(a)) by { assert(animes[pos] == a); }
        assert(m.remove(a).insert(a) =~= m);
    } else {
        let a = animes[index];
        to_multiset_remove(animes, index);
        to_multiset_insert(animes.remove(index), pos, a);
        to_multiset_contains(animes, a);
        assert(animes.contains(a)) by { assert(animes[index] == a); }
        assert(m.remove(a).insert(a) =~= m);
    }
}

proof fn lemma_id_set_len(animes: Seq<Anime>)
    ensures
        id_set(animes).finite(),
        id_set(animes).len() <= animes.len(),
{
    animes.map_values(|a: Anime| a.id).lemma_cardinality_of_set();
}

proof fn lemma_id_set_contains(animes: Seq<Anime>, x: usize)
    ensures
        id_set(animes).contains(x) <==> exists|i: int| 0 <= i < animes.len() && animes[i].id == x,
{
    let ids = animes.map_values(|a: Anime| a.id);
    if id_set(animes).contains(x) {
        assert(ids.contains(x));
        let i = choose|i: int| 0 <= i < ids.len() && ids[i] == x;
        assert(animes[i].id == x);
    }
    if exists|i: int| 0 <= i < animes.len() && animes[i].id == x {
        let i = choose|i: int| 0 <= i < animes.len() && animes[i].id == x;
        assert(ids[i] == x);
        assert(ids.contains(x));
    }
}

proof fn lemma_same_id_set(s1: Seq<Anime>, s2: Seq<Anime>)
    requires
        s1.to_multiset() == s2.to_multiset(),
    ensures
        id_set(s1) == id_set(s2),
{
    assert forall|x: usize| id_set(s1).contains(x) implies id_set(s2).contains(x) by {
        lemma_id_set_contains(s1, x);
        lemma_id_set_contains(s2, x);
        let i = choose|i: int| 0 <= i < s1.len() && s1[i].id == x;
        let a = s1[i];
        to_multiset_contains(s1, a);
        to_multiset_contains(s2, a);
        assert(s1.contains(a));
        let k = choose|k: int| 0 <= k < s2.len() && s2[k] == a;
        assert(s2[k].id == x);
    }
    assert forall|x: usize| id_set(s2).contains(x) implies id_set(s1).contains(x) by {
        lemma_id_set_contains(s1, x);
        lemma_id_set_contains(s2, x);
        let i = choose|i: int| 0 <= i < s2.len() && s2[i].id == x;
        let a = s2[i];
        to_multiset_contains(s1, a);
        to_multiset_contains(s2, a);
        assert(s2.contains(a));
        let k = choose|k: int| 0 <= k < s1.len() && s1[k] == a;
        assert(s1[k].id == x);
    }
    assert(id_set(s1) =~= id_set(s2));
}

proof fn lemma_settle_permutes(
    animes: Seq<Anime>,
    index: int,
    moved: Set<usize>,
    pull_forward: bool,
    fuel: nat,
)
    requires
        0 <= index < animes.len(),
    ensures
        settle(animes, index, moved, pull_forward, fuel).len() == animes.len(),
        settle(animes, index, moved, pull_forward, fuel).to_multiset() == animes.to_multiset(),
    decreases fuel,
{
    if fuel > 0 {
        lemma_related_target_from(animes, index, moved, pull_forward, 0);
        match related_target(animes, index, moved, pull_forward) {
            None => {},
            Some((pos, id)) => {
                lemma_move_related(animes, index, pos, pull_forward);
                lemma_settle_permutes(
                    move_related(animes, index, pos, pull_forward),
                    index,
                    moved.insert(id),
                    pull_forward,
                    (fuel - 1) as nat,
                );
            },
        }
    }
}

proof fn lemma_reorder_prefix_permutes(animes: Seq<Anime>, pull_forward: bool, count: nat)
    requires
        count <= animes.len(),
    ensures
        reorder_prefix(animes, pull_forward, count).len() == animes.len(),
        reorder_prefix(animes, pull_forward, count).to_multiset() == animes.to_multiset(),
    decreases count,
{
    if count > 0 {
        lemma_reorder_prefix_permutes(animes, pull_forward, (count - 1) as nat);
        let prev = reorder_prefix(animes, pull_forward, (count - 1) as nat);
        lemma_settle_permutes(prev, count - 1, Set::empty(), pull_forward, prev.len());
    }
}

/// A reordering pass only moves titles around.
pub proof fn lemma_reordered_is_permutation(animes: Seq<Anime>, pull_forward: bool)
    ensures
        reordered(animes, pull_forward).len() == animes.len(),
        reordered(animes, pull_forward).to_multiset() == animes.to_multiset(),
{
    lemma_reorder_prefix_permutes(animes, pull_forward, animes.len());
}

/// Chronological sorting keeps every title exactly as often as it was
/// listed: the result is a permutation of the input.
pub proof fn lemma_chrono_order_is_permutation(animes: Seq<Anime>)
    ensures
        chrono_order(animes).len() == animes.len(),
        chrono_order(animes).to_multiset() == animes.to_multiset(),
{
    let rev = animes.reverse();
    animes.lemma_reverse_to_multiset();
    lemma_reordered_is_permutation(rev, true);
    lemma_reordered_is_permutation(reordered(rev, true), false);
}

/// No title of the list relates, by a kind that sorting acts on, to a title
/// of the list.
pub open spec fn no_reordering_links(animes: Seq<Anime>) -> bool {
    forall|i: int, j: int|
        #![trigger animes[i].related@[j]]
        0 <= i < animes.len() && 0 <= j < animes[i].related@.len() ==> {
            let r = animes[i].related@[j];
            (is_reordering_kind(r.relation_kind, true) || is_reordering_kind(
                r.relation_kind,
                false,
            )) ==> match r.anime {
                Some(ra) => !id_set(animes).contains(ra.id),
                None => true,
            }
        }
}

proof fn lemma_no_links_no_target_from(
    animes: Seq<Anime>,
    current: int,
    moved: Set<usize>,
    pull_forward: bool,
    j: int,
)
    requires
        no_reordering_links(animes),
        0 <= current < animes.len(),
        0 <= j,
    ensures
        related_target_from(animes, current, moved, pull_forward, j) is None,
    decreases animes[current].related@.len() - j,
{
    if j < animes[current].related@.len() {
        let r = animes[current].related@[j];
        match r.anime {
            Some(ra) => {
                lemma_position_from(animes, ra.id, 0);
                lemma_id_set_contains(animes, ra.id);
                if is_reordering_kind(r.relation_kind, pull_forward) {
                    assert(!id_set(animes).contains(ra.id));
                    if position_of(animes, ra.id) is Some {
                        let p = position_of(animes, ra.id)->0;
                        assert(animes[p].id == ra.id);
                    }
                }
            },
            None => {},
        }
        lemma_no_links_no_target_from(animes, current, moved, pull_forward, j + 1);
    }
}

proof fn lemma_no_links_permutation(s1: Seq<Anime>, s2: Seq<Anime>)
    requires
        no_reordering_links(s1),
        s1.to_multiset() == s2.to_multiset(),
    ensures
        no_reordering_links(s2),
{
    lemma_same_id_set(s1, s2);
    assert forall|i: int, j: int|
        0 <= i < s2.len() && 0 <= j < s2[i].related@.len() implies {
            let r = #[trigger] s2[i].related@[j];
            (is_reordering_kind(r.relation_kind, true) || is_reordering_kind(
                r.relation_kind,
                false,
            )) ==> match r.anime {
                Some(ra) => !id_set(s2).contains(ra.id),
                None => true,
            }
        } by {
        let a = s2[i];
        to_multiset_contains(s1, a);
        to_multiset_contains(s2, a);
        assert(s2.contains(a));
        let k = choose|k: int| 0 <= k < s1.len() && s1[k] == a;
        assert(s1[k].related@[j] == s2[i].related@[j]);
    }
}

proof fn lemma_no_links_reorder_prefix(animes: Seq<Anime>, pull_forward: bool, count: nat)
    requires
        no_reordering_links(animes),
        count <= animes.len(),
    ensures
        reorder_prefix(animes, pull_forward, count) == animes,
    decreases count,
{
    if count > 0 {
        lemma_no_links_reorder_prefix(animes, pull_forward, (count - 1) as nat);
        lemma_no_links_no_target_from(animes, count - 1, Set::empty(), pull_forward, 0);
    }
}

/// When no title relates to another title of the list by a kind that
/// sorting acts on, chronological order is the reversed list.
pub proof fn lemma_chrono_order_without_links(animes: Seq<Anime>)
    requires
        no_reordering_links(animes),
    ensures
        chrono_order(animes) == animes.reverse(),
{
    let rev = animes.reverse();
    animes.lemma_reverse_to_multiset();
    lemma_no_links_permutation(animes, rev);
    lemma_no_links_reorder_prefix(rev, true, rev.len());
    lemma_no_links_reorder_prefix(rev, false, rev.len());
}

/// The title `a` in a chain of `n` titles numbered 1 to `n`: a relation of a
/// kind that pulls titles forward (prequel, parent story, full story,
/// original) that names a title of the chain names the title numbered just
/// before `a`, a sequel relation into the chain names a later title, and
/// every title after the first names the one before it in such a relation.
pub open spec fn chain_title(a: Anime, n: int) -> bool {
    &&& 1 <= a.id <= n
    &&& forall|j: int|
        #![trigger a.related@[j]]
        0 <= j < a.related@.len() ==> match a.related@[j].anime {
            Some(ra) => 1 <= ra.id <= n ==> {
                &&& is_reordering_kind(a.related@[j].relation_kind, true) ==> ra.id == a.id - 1
                &&& is_reordering_kind(a.related@[j].relation_kind, false) ==> ra.id > a.id
            },
            None => true,
        }
    &&& a.id > 1 ==> exists|j: int|
        #![trigger a.related@[j]]
        0 <= j < a.related@.len() && is_reordering_kind(a.related@[j].relation_kind, true)
            && (a.related@[j].anime matches Some(ra) && ra.id == a.id - 1)
}

/// Some title of `animes` has the id `m`.
pub open spec fn lists_id(animes: Seq<Anime>, m: int) -> bool {
    exists|k: int| #![trigger animes[k]] 0 <= k < animes.len() && animes[k].id == m
}

/// `animes` is a chain of titles numbered 1 to its length, each once, in any
/// order.
pub open spec fn is_title_chain(animes: Seq<Anime>) -> bool {
    &&& forall|k: int| 0 <= k < animes.len() ==> chain_title(#[trigger] animes[k], animes.len() as int)
    &&& forall|k: int, l: int| 0 <= k < l < animes.len() ==> animes[k].id != animes[l].id
    &&& forall|m: int| 1 <= m <= animes.len() ==> #[trigger] lists_id(animes, m)
}

proof fn lemma_chain_position(s: Seq<Anime>, id: usize)
    requires
        is_title_chain(s),
    ensures
        1 <= id <= s.len() ==> position_of(s, id) is Some,
        position_of(s, id) matches Some(p) ==> 0 <= p < s.len() && s[p].id == id && 1 <= id <= s.len()
            && forall|q: int| 0 <= q < s.len() && q != p ==> s[q].id != id,
{
    lemma_position_from(s, id, 0);
    if 1 <= id <= s.len() {
        assert(lists_id(s, id as int));
        let k = choose|k: int| #![trigger s[k]] 0 <= k < s.len() && s[k].id == id as int;
        assert(s[k].id == id);
    }
    if position_of(s, id) is Some {
        let p = position_of(s, id)->0;
        assert(chain_title(s[p], s.len() as int));
        assert forall|q: int| 0 <= q < s.len() && q != p implies s[q].id != id by {
            if q < p {
                assert(s[q].id != s[p].id);
            } else {
                assert(s[p].id != s[q].id);
            }
        }
    }
}

proof fn lemma_pull_keeps_chain(s: Seq<Anime>, lo: int, hi: int)
    requires
        is_title_chain(s),
        0 <= lo < hi < s.len(),
    ensures
        move_related(s, lo, hi, true).len() == s.len(),
        is_title_chain(move_related(s, lo, hi, true)),
        move_related(s, lo, hi, true)[lo] == s[hi],
        forall|t: int| 0 <= t < lo ==> move_related(s, lo, hi, true)[t] == s[t],
{
    let r = move_related(s, lo, hi, true);
    let n = s.len();
    assert(r.len() == n);
    assert forall|t: int| 0 <= t < n implies r[t] == s[if t < lo { t } else if t == lo { hi } else if t <= hi { t - 1 } else { t }] by {}
    assert forall|k: int| 0 <= k < n implies chain_title(#[trigger] r[k], n as int) by {
        let i = if k < lo { k } else if k == lo { hi } else if k <= hi { k - 1 } else { k };
        assert(r[k] == s[i]);
    }
    assert forall|k: int, l: int| 0 <= k < l < n implies r[k].id != r[l].id by {
        let i = if k < lo { k } else if k == lo { hi } else if k <= hi { k - 1 } else { k };
        let j = if l < lo { l } else if l == lo { hi } else if l <= hi { l - 1 } else { l };
        assert(r[k] == s[i]);
        assert(r[l] == s[j]);
        assert(i != j);
        if i < j {
            assert(s[i].id != s[j].id);
        } else {
            assert(s[j].id != s[i].id);
        }
    }
    assert forall|m: int| 1 <= m <= n implies #[trigger] lists_id(r, m) by {
        assert(lists_id(s, m));
        let i = choose|i: int| #![trigger s[i]] 0 <= i < n && s[i].id == m;
        let k = if i < lo { i } else if i == hi { lo } else if i < hi { i + 1 } else { i };
        assert(r[k] == s[i]);
        assert(r[k].id == m);
    }
}

/// What the pull-forward pass finds for the title at `k` of a chain: the
/// title numbered just before it, when that title stands after `k` and was
/// not moved yet.
spec fn chain_pull_target(s: Seq<Anime>, k: int, moved: Set<usize>) -> Option<(int, usize)> {
    if s[k].id > 1 {
        let prev = (s[k].id - 1) as usize;
        match position_of(s, prev) {
            Some(p) => if !moved.contains(prev) && p > k {
                Some((p, prev))
            } else {
                None
            },
            None => None,
        }
    } else {
        None
    }
}

proof fn lemma_chain_pull_target_from(s: Seq<Anime>, k: int, moved: Set<usize>, j: int, j0: int)
    requires
        is_title_chain(s),
        0 <= k < s.len(),
        0 <= j,
    ensures
        related_target_from(s, k, moved, true, j) is None || related_target_from(s, k, moved, true, j)
            == chain_pull_target(s, k, moved),
        (j <= j0 < s[k].related@.len() && is_reordering_kind(s[k].related@[j0].relation_kind, true)
            && (s[k].related@[j0].anime matches Some(ra) && ra.id == s[k].id - 1))
            ==> related_target_from(s, k, moved, true, j) == chain_pull_target(s, k, moved),
    decreases s[k].related@.len() - j,
{
    if j < s[k].related@.len() {
        let r = s[k].related@[j];
        assert(chain_title(s[k], s.len() as int));
        match r.anime {
            Some(ra) => {
                lemma_chain_position(s, ra.id);
            },
            None => {},
        }
        lemma_chain_pull_target_from(s, k, moved, j + 1, j0);
    }
}

proof fn lemma_chain_pull_target(s: Seq<Anime>, k: int, moved: Set<usize>)
    requires
        is_title_chain(s),
        0 <= k < s.len(),
    ensures
        related_target(s, k, moved, true) == chain_pull_target(s, k, moved),
{
    assert(chain_title(s[k], s.len() as int));
    if s[k].id > 1 {
        let j0 = choose|j: int|
            #![trigger s[k].related@[j]]
            0 <= j < s[k].related@.len() && is_reordering_kind(s[k].related@[j].relation_kind, true)
                && (s[k].related@[j].anime matches Some(ra) && ra.id == s[k].id - 1);
        lemma_chain_pull_target_from(s, k, moved, 0, j0);
    } else {
        lemma_chain_pull_target_from(s, k, moved, 0, -1);
    }
}

proof fn lemma_chain_settle(s: Seq<Anime>, k: int, moved: Set<usize>, fuel: nat)
    requires
        is_title_chain(s),
        0 <= k < s.len(),
        forall|t: int| 0 <= t < k ==> #[trigger] s[t].id == t + 1,
        s[k].id >= k + 1,
        forall|x: usize| moved.contains(x) ==> x >= s[k].id,
        fuel >= s[k].id - k - 1,
    ensures
        settle(s, k, moved, true, fuel).len() == s.len(),
        is_title_chain(settle(s, k, moved, true, fuel)),
        forall|t: int| 0 <= t <= k ==> #[trigger] settle(s, k, moved, true, fuel)[t].id == t + 1,
    decreases fuel,
{
    lemma_chain_pull_target(s, k, moved);
    let z = s[k].id;
    if z == k + 1 {
        if z > 1 {
            let prev = (z - 1) as usize;
            lemma_chain_position(s, prev);
            assert(s[k - 1].id == prev);
        }
        assert(chain_pull_target(s, k, moved) is None);
    } else {
        let prev = (z - 1) as usize;
        lemma_chain_position(s, prev);
        let p = position_of(s, prev)->0;
        assert(p > k) by {
            if p < k {
                assert(s[p].id == p + 1);
            }
        }
        assert(chain_pull_target(s, k, moved) == Some((p, prev)));
        let s2 = move_related(s, k, p, true);
        lemma_pull_keeps_chain(s, k, p);
        assert(s2[k].id == prev);
        assert forall|t: int| 0 <= t < k implies #[trigger] s2[t].id == t + 1 by {
            assert(s2[t] == s[t]);
        }
        lemma_chain_settle(s2, k, moved.insert(prev), (fuel - 1) as nat);
    }
}

proof fn lemma_chain_pull_prefix(s: Seq<Anime>, count: nat)
    requires
        is_title_chain(s),
        count <= s.len(),
    ensures
        reorder_prefix(s, true, count).len() == s.len(),
        is_title_chain(reorder_prefix(s, true, count)),
        forall|t: int| 0 <= t < count ==> #[trigger] reorder_prefix(s, true, count)[t].id == t + 1,
    decreases count,
{
    if count > 0 {
        lemma_chain_pull_prefix(s, (count - 1) as nat);
        let prev = reorder_prefix(s, true, (count - 1) as nat);
        let k = count - 1;
        assert(chain_title(prev[k], prev.len() as int));
        assert(prev[k].id >= k + 1) by {
            if prev[k].id <= k {
                let t = prev[k].id - 1;
                assert(prev[t].id == t + 1);
                assert(prev[t].id != prev[k].id);
            }
        }
        lemma_chain_settle(prev, k, Set::empty(), prev.len());
    }
}

proof fn lemma_sorted_chain_push_target_from(s: Seq<Anime>, i: int, moved: Set<usize>, j: int)
    requires
        is_title_chain(s),
        forall|t: int| 0 <= t < s.len() ==> #[trigger] s[t].id == t + 1,
        0 <= i < s.len(),
        0 <= j,
    ensures
        related_target_from(s, i, moved, false, j) is None,
    decreases s[i].related@.len() - j,
{
    if j < s[i].related@.len() {
        let r = s[i].related@[j];
        assert(chain_title(s[i], s.len() as int));
        match r.anime {
            Some(ra) => {
                lemma_chain_position(s, ra.id);
                if position_of(s, ra.id) is Some {
                    let p = position_of(s, ra.id)->0;
                    assert(s[p].id == p + 1);
                }
            },
            None => {},
        }
        lemma_sorted_chain_push_target_from(s, i, moved, j + 1);
    }
}

proof fn lemma_sorted_chain_push_prefix(s: Seq<Anime>, count: nat)
    requires
        is_title_chain(s),
        forall|t: int| 0 <= t < s.len() ==> #[trigger] s[t].id == t + 1,
        count <= s.len(),
    ensures
        reorder_prefix(s, false, count) == s,
    decreases count,
{
    if count > 0 {
        lemma_sorted_chain_push_prefix(s, (count - 1) as nat);
        lemma_sorted_chain_push_target_from(s, count - 1, Set::empty(), 0);
    }
}

proof fn lemma_reverse_chain(s: Seq<Anime>)
    requires
        is_title_chain(s),
    ensures
        is_title_chain(s.reverse()),
{
    let r = s.reverse();
    let n = s.len();
    assert forall|k: int| 0 <= k < n implies chain_title(#[trigger] r[k], n as int) by {
        assert(r[k] == s[n - 1 - k]);
    }
    assert forall|k: int, l: int| 0 <= k < l < n implies r[k].id != r[l].id by {
        assert(r[k] == s[n - 1 - k]);
        assert(r[l] == s[n - 1 - l]);
        assert(s[n - 1 - l].id != s[n - 1 - k].id);
    }
    assert forall|m: int| 1 <= m <= n implies #[trigger] lists_id(r, m) by {
        assert(lists_id(s, m));
        let i = choose|i: int| #![trigger s[i]] 0 <= i < n && s[i].id == m;
        assert(r[n - 1 - i] == s[i]);
    }
}

/// Sorting a chain of titles numbered 1 to n, each naming the one numbered
/// before it as its prequel (and maybe later ones as its sequels), puts
/// them in order, oldest first, whatever order they were listed in.
pub proof fn lemma_chrono_order_sorts_chain(animes: Seq<Anime>)
    requires
        is_title_chain(animes),
    ensures
        chrono_order(animes).len() == animes.len(),
        forall|k: int| 0 <= k < animes.len() ==> #[trigger] chrono_order(animes)[k].id == k + 1,
{
    let rev = animes.reverse();
    lemma_reverse_chain(animes);
    lemma_chain_pull_prefix(rev, rev.len());
    let pulled = reordered(rev, true);
    lemma_sorted_chain_push_prefix(pulled, pulled.len());
}

/// The only relation of a kind that sorting acts on, among all titles of
/// `s`, that names a title of `s` is relation `j` of the title at `b`: it
/// pulls forward and names the title at `a`. The ids of `s` are distinct.
spec fn single_link(s: Seq<Anime>, a: int, b: int, j: int) -> bool {
    &&& 0 <= a < s.len() && 0 <= b < s.len() && a != b
    &&& forall|k: int, l: int| 0 <= k < l < s.len() ==> s[k].id != s[l].id
    &&& 0 <= j < s[b].related@.len()
    &&& is_reordering_kind(s[b].related@[j].relation_kind, true)
    &&& (s[b].related@[j].anime matches Some(ra) && ra.id == s[a].id)
    &&& forall|k: int, i: int|
        #![trigger s[k].related@[i]]
        0 <= k < s.len() && 0 <= i < s[k].related@.len() && !(k == b && i == j) && (
        is_reordering_kind(s[k].related@[i].relation_kind, true) || is_reordering_kind(
            s[k].related@[i].relation_kind,
            false,
        )) ==> match s[k].related@[i].anime {
            Some(ra) => forall|m: int| 0 <= m < s.len() ==> #[trigger] s[m].id != ra.id,
            None => true,
        }
}

proof fn lemma_single_link_target_from(
    s: Seq<Anime>,
    a: int,
    b: int,
    j: int,
    i: int,
    moved: Set<usize>,
    pull_forward: bool,
    r: int,
)
    requires
        single_link(s, a, b, j),
        0 <= i < s.len(),
        0 <= r,
    ensures
        related_target_from(s, i, moved, pull_forward, r) == if pull_forward && i == b && r <= j
            && !moved.contains(s[a].id) && a > b {
            Some((a, s[a].id))
        } else {
            None::<(int, usize)>
        },
    decreases s[i].related@.len() - r,
{
    if r < s[i].related@.len() {
        let rel = s[i].related@[r];
        match rel.anime {
            Some(ra) => {
                lemma_position_from(s, ra.id, 0);
                if position_of(s, ra.id) is Some {
                    let p = position_of(s, ra.id)->0;
                    if i == b && r == j {
                        assert(p == a) by {
                            if p != a {
                                if p < a {
                                    assert(s[p].id != s[a].id);
                                } else {
                                    assert(s[a].id != s[p].id);
                                }
                            }
                        }
                    } else {
                        assert(s[p].id == ra.id);
                    }
                } else if i == b && r == j {
                    assert(s[a].id == ra.id);
                }
            },
            None => {},
        }
        lemma_single_link_target_from(s, a, b, j, i, moved, pull_forward, r + 1);
    }
}

proof fn lemma_single_link_move(s: Seq<Anime>, a: int, b: int, j: int)
    requires
        single_link(s, a, b, j),
        b < a,
    ensures
        move_related(s, b, a, true).len() == s.len(),
        single_link(move_related(s, b, a, true), b, b + 1, j),
        move_related(s, b, a, true)[b] == s[a],
        move_related(s, b, a, true)[b + 1] == s[b],
{
    let r = move_related(s, b, a, true);
    let n = s.len();
    assert(r.len() == n);
    assert forall|t: int| 0 <= t < n implies r[t] == s[if t < b { t } else if t == b { a } else if t <= a { t - 1 } else { t }] by {}
    assert forall|k: int, l: int| 0 <= k < l < n implies r[k].id != r[l].id by {
        let x = if k < b { k } else if k == b { a } else if k <= a { k - 1 } else { k };
        let y = if l < b { l } else if l == b { a } else if l <= a { l - 1 } else { l };
        assert(r[k] == s[x]);
        assert(r[l] == s[y]);
        if x < y {
            assert(s[x].id != s[y].id);
        } else {
            assert(s[y].id != s[x].id);
        }
    }
    assert(r[b + 1] == s[b]);
    assert(r[b] == s[a]);
    assert forall|k: int, i: int|
        0 <= k < n && 0 <= i < r[k].related@.len() && !(k == b + 1 && i == j) && (is_reordering_kind(
            r[k].related@[i].relation_kind,
            true,
        ) || is_reordering_kind(r[k].related@[i].relation_kind, false)) implies match #[trigger] r[k].related@[i].anime {
            Some(ra) => forall|m: int| 0 <= m < n ==> #[trigger] r[m].id != ra.id,
            None => true,
        } by {
        let x = if k < b { k } else if k == b { a } else if k <= a { k - 1 } else { k };
        assert(r[k] == s[x]);
        assert(s[x].related@[i] == r[k].related@[i]);
        assert(!(x == b && i == j));
        match r[k].related@[i].anime {
            Some(ra) => {
                assert forall|m: int| 0 <= m < n implies #[trigger] r[m].id != ra.id by {
                    let y = if m < b { m } else if m == b { a } else if m <= a { m - 1 } else { m };
                    assert(r[m] == s[y]);
                    assert(s[y].id != ra.id);
                }
            },
            None => {},
        }
    }
}

proof fn lemma_single_link_settle_none(s: Seq<Anime>, a: int, b: int, j: int, i: int, pull_forward: bool, fuel: nat)
    requires
        single_link(s, a, b, j),
        0 <= i < s.len(),
        !(pull_forward && i == b && a > b),
    ensures
        settle(s, i, Set::empty(), pull_forward, fuel) == s,
{
    lemma_single_link_target_from(s, a, b, j, i, Set::empty(), pull_forward, 0);
}

proof fn lemma_single_link_prefix_unmoved(s: Seq<Anime>, a: int, b: int, j: int, pull_forward: bool, count: nat)
    requires
        single_link(s, a, b, j),
        count <= s.len(),
        pull_forward ==> (a < b || count <= b),
    ensures
        reorder_prefix(s, pull_forward, count) == s,
    decreases count,
{
    if count > 0 {
        lemma_single_link_prefix_unmoved(s, a, b, j, pull_forward, (count - 1) as nat);
        lemma_single_link_settle_none(s, a, b, j, count - 1, pull_forward, s.len());
    }
}

proof fn lemma_single_link_prefix_moved(s: Seq<Anime>, a: int, b: int, j: int, count: nat)
    requires
        single_link(s, a, b, j),
        b < a,
        b + 1 <= count <= s.len(),
    ensures
        reorder_prefix(s, true, count) == move_related(s, b, a, true),
    decreases count,
{
    let s1 = move_related(s, b, a, true);
    lemma_single_link_move(s, a, b, j);
    if count == b + 1 {
        lemma_single_link_prefix_unmoved(s, a, b, j, true, b as nat);
        lemma_single_link_target_from(s, a, b, j, b, Set::empty(), true, 0);
        let moved = Set::<usize>::empty().insert(s[a].id);
        lemma_single_link_target_from(s1, b, b + 1, j, b, moved, true, 0);
        let n = s.len();
        assert(reorder_prefix(s, true, b as nat) == s);
        assert(reorder_prefix(s, true, count) == settle(s, b, Set::empty(), true, n as nat));
        assert(related_target(s, b, Set::empty(), true) == Some((a, s[a].id)));
        assert(settle(s, b, Set::empty(), true, n as nat) == settle(s1, b, moved, true, (n - 1) as nat));
        assert(related_target(s1, b, moved, true) is None);
        assert(settle(s1, b, moved, true, (n - 1) as nat) == s1);
    } else {
        lemma_single_link_prefix_moved(s, a, b, j, (count - 1) as nat);
        lemma_single_link_settle_none(s1, b, b + 1, j, count - 1, true, s.len());
    }
}

/// A title that names another title of the list as its prequel, parent
/// story, full story or original comes after that title in chronological
/// order, when that relation is the only relation of a kind that sorting
/// acts on (prequel, parent story, full story, original, sequel) between
/// titles of the list, and the ids of the list are distinct.
pub proof fn lemma_chrono_order_pulls_forward(animes: Seq<Anime>, a: int, b: int, j: int)
    requires
        0 <= a < animes.len(),
        0 <= b < animes.len(),
        a != b,
        forall|k: int, l: int| 0 <= k < l < animes.len() ==> animes[k].id != animes[l].id,
        0 <= j < animes[b].related@.len(),
        animes[b].related@[j].relation_kind == RelationKind::Prequel || animes[b].related@[j].relation_kind
            == RelationKind::ParentStory || animes[b].related@[j].relation_kind == RelationKind::FullStory
            || animes[b].related@[j].relation_kind == RelationKind::Orig,
        (animes[b].related@[j].anime matches Some(ra) && ra.id == animes[a].id),
        forall|k: int, i: int|
            #![trigger animes[k].related@[i]]
            0 <= k < animes.len() && 0 <= i < animes[k].related@.len() && !(k == b && i == j) && (
            animes[k].related@[i].relation_kind == RelationKind::Prequel
                || animes[k].related@[i].relation_kind == RelationKind::ParentStory
                || animes[k].related@[i].relation_kind == RelationKind::FullStory
                || animes[k].related@[i].relation_kind == RelationKind::Orig
                || animes[k].related@[i].relation_kind == RelationKind::Sequel) ==> match animes[k].related@[i].anime {
                Some(ra) => forall|m: int| 0 <= m < animes.len() ==> #[trigger] animes[m].id != ra.id,
                None => true,
            },
    ensures
        chrono_order(animes).len() == animes.len(),
        forall|p: int, q: int|
            0 <= p < animes.len() && 0 <= q < animes.len() && #[trigger] chrono_order(animes)[p].id
                == animes[a].id && #[trigger] chrono_order(animes)[q].id == animes[b].id ==> p < q,
{
    let n = animes.len();
    let rev = animes.reverse();
    let ra_ = n - 1 - a;
    let rb = n - 1 - b;
    assert forall|t: int| 0 <= t < n implies rev[t] == animes[n - 1 - t] by {}
    assert(rev[ra_] == animes[a]);
    assert(rev[rb] == animes[b]);
    assert forall|k: int, l: int| 0 <= k < l < n implies rev[k].id != rev[l].id by {
        assert(animes[n - 1 - l].id != animes[n - 1 - k].id);
    }
    assert forall|k: int, i: int|
        0 <= k < n && 0 <= i < rev[k].related@.len() && !(k == rb && i == j) && (is_reordering_kind(
            rev[k].related@[i].relation_kind,
            true,
        ) || is_reordering_kind(rev[k].related@[i].relation_kind, false)) implies match #[trigger] rev[k].related@[i].anime {
            Some(ra) => forall|m: int| 0 <= m < n ==> #[trigger] rev[m].id != ra.id,
            None => true,
        } by {
        assert(rev[k].related@[i] == animes[n - 1 - k].related@[i]);
        match rev[k].related@[i].anime {
            Some(ra) => {
                assert forall|m: int| 0 <= m < n implies #[trigger] rev[m].id != ra.id by {
                    assert(rev[m] == animes[n - 1 - m]);
                }
            },
            None => {},
        }
    }
    assert(single_link(rev, ra_, rb, j));
    lemma_reordered_is_permutation(rev, true);
    lemma_reordered_is_permutation(reordered(rev, true), false);
    let f = reordered(rev, true);
    let (fa, fb) = if ra_ < rb {
        lemma_single_link_prefix_unmoved(rev, ra_, rb, j, true, n as nat);
        lemma_single_link_prefix_unmoved(rev, ra_, rb, j, false, n as nat);
        (ra_, rb)
    } else {
        lemma_single_link_prefix_moved(rev, ra_, rb, j, n as nat);
        lemma_single_link_move(rev, ra_, rb, j);
        lemma_single_link_prefix_unmoved(f, rb, rb + 1, j, false, n as nat);
        (rb, rb + 1)
    };
    assert(chrono_order(animes) == f);
    assert(single_link(f, fa, fb, j));
    assert(f[fa].id == animes[a].id);
    assert(f[fb].id == animes[b].id);
    assert forall|p: int, q: int|
        0 <= p < n && 0 <= q < n && #[trigger] f[p].id == animes[a].id && #[trigger] f[q].id
            == animes[b].id implies p < q by {
        if p != fa {
            if p < fa {
                assert(f[p].id != f[fa].id);
            } else {
                assert(f[fa].id != f[p].id);
            }
        }
        if q != fb {
            if q < fb {
                assert(f[q].id != f[fb].id);
            } else {
                assert(f[fb].id != f[q].id);
            }
        }
    }
}

fn position_of_id(animes: &Vec<Anime>, id: usize) -> (r: Option<usize>)
    ensures
        match r {
            Some(p) => position_of(animes@, id) == Some(p as int),
            None => position_of(animes@, id) is None,
        },
{
    let mut k: usize = 0;
    while k < animes.len()
        invariant
            k <= animes@.len(),
            position_of(animes@, id) == position_from(animes@, id, k as int),
        decreases animes@.len() - k,
    {
        if animes[k].id == id {
            return Some(k);
        }
        k = k + 1;
    }
    None
}

fn reverse_animes(v: &mut Vec<Anime>)
    ensures
        final(v)@ == old(v)@.reverse(),
{
    let ghost orig = v@;
    let mut out: Vec<Anime> = Vec::new();
    while v.len() > 0
        invariant
            v@ == orig.subrange(0, v@.len() as int),
            out@.len() + v@.len() == orig.len(),
            forall|i: int| 0 <= i < out@.len() ==> out@[i] == orig[orig.len() - 1 - i],
        decreases v@.len(),
    {
        let x = v.pop().unwrap();
        out.push(x);
    }
    assert(out@ =~= orig.reverse());
    *v = out;
}

impl Related {
    /// Orders the titles chronologically: reverses the list, then pulls each
    /// title's prequel, parent story, full story or original in front of
    /// it, then moves each title in front of a sequel listed before it.
    pub fn sort_by_chrono(&mut self)
        ensures
            final(self).animes@ == chrono_order(old(self).animes@),
    {
        reverse_animes(&mut self.animes);
        self.reorder_related(true);
        self.reorder_related(false);
    }

    fn find_related(animes: &Vec<Anime>, current: usize, moved: &HashSet<usize>, pull_forward: bool) -> (r:
        Option<(usize, usize)>)
        requires
            current < animes@.len(),
        ensures
            match r {
                Some((p, id)) => related_target(animes@, current as int, moved@, pull_forward) == Some(
                    (p as int, id),
                ),
                None => related_target(animes@, current as int, moved@, pull_forward) is None,
            },
    {
        let related = &animes[current].related;
        let mut j: usize = 0;
        while j < related.len()
            invariant
                current < animes@.len(),
                related@ == animes@[current as int].related@,
                j <= related@.len(),
                related_target(animes@, current as int, moved@, pull_forward) == related_target_from(
                    animes@,
                    current as int,
                    moved@,
                    pull_forward,
                    j as int,
                ),
            decreases related@.len() - j,
        {
            let r = &related[j];
            if (pull_forward && (r.relation_kind == RelationKind::Prequel || r.relation_kind
                == RelationKind::ParentStory || r.relation_kind == RelationKind::FullStory
                || r.relation_kind == RelationKind::Orig)) || (!pull_forward && r.relation_kind
                == RelationKind::Sequel) {
                match &r.anime {
                    None => {},
                    Some(ra) => {
                        let id = ra.id;
                        if !moved.contains(&id) {
                            match position_of_id(animes, id) {
                                None => {},
                                Some(pos) => {
                                    if (pull_forward && pos > current) || (!pull_forward && pos
                                        < current) {
                                        return Some((pos, id));
                                    }
                                },
                            }
                        }
                    },
                }
            }
            j = j + 1;
        }
        None
    }

    fn reorder_related(&mut self, pull_forward: bool)
        ensures
            final(self).animes@ == reordered(old(self).animes@, pull_forward),
    {
        let len = self.animes.len();
        let ghost init = self.animes@;
        let mut index: usize = 0;
        while index < len
            invariant
                index <= len,
                len == init.len(),
                self.animes@.len() == len,
                self.animes@ == reorder_prefix(init, pull_forward, index as nat),
            decreases len - index,
        {
            let ghost start = self.animes@;
            let mut moved: HashSet<usize> = HashSet::new();
            proof {
                lemma_id_set_len(start);
            }
            loop
                invariant
                    index < len,
                    self.animes@.len() == len,
                    id_set(self.animes@) == id_set(start),
                    id_set(start).finite(),
                    id_set(start).len() <= len,
                    moved@.subset_of(id_set(start)),
                    moved@.len() <= len,
                    settle(self.animes@, index as int, moved@, pull_forward, (len - moved@.len()) as nat)
                        == settle(start, index as int, Set::empty(), pull_forward, len as nat),
                ensures
                    self.animes@.len() == len,
                    self.animes@ == settle(start, index as int, Set::empty(), pull_forward, len as nat),
                decreases len - moved@.len(),
            {
                match Self::find_related(&self.animes, index, &moved, pull_forward) {
                    None => {
                        assert(settle(self.animes@, index as int, moved@, pull_forward, (len - moved@.len()) as nat)
                            == self.animes@);
                        break;
                    },
                    Some((pos, id)) => {
                        let ghost cur = self.animes@;
                        let ghost old_moved = moved@;
                        proof {
                            lemma_related_target_from(cur, index as int, old_moved, pull_forward, 0);
                            lemma_id_set_contains(cur, id);
                            lemma_len_subset(old_moved, id_set(start));
                            old_moved.lemma_subset_not_in_lt(id_set(start), id);
                            lemma_move_related(cur, index as int, pos as int, pull_forward);
                            lemma_same_id_set(cur, move_related(cur, index as int, pos as int, pull_forward));
                        }
                        moved.insert(id);
                        if pull_forward {
                            let item = self.animes.remove(pos);
                            self.animes.insert(index, item);
                        } else {
                            let item = self.animes.remove(index);
                            self.animes.insert(pos, item);
                        }
                        assert(self.animes@ == move_related(cur, index as int, pos as int, pull_forward));
                    },
                }
            }
            index = index + 1;
        }
    }
}

} // verus!
