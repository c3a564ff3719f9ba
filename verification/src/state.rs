//! The application state: raw data, view, search, theme, status, and the
//! memoizing filter cache, with the derived read-only views.

use vstd::prelude::*;
use vstd::view::View as _;

use vstd::string::StringExecFns;

use crate::matcher::{fuzzy_match_score, fuzzy_score};
use crate::ranking::{is_ranking, lemma_the_ranking, rank_by_scores, the_ranking};

verus! {

/// A single named value within a variable group.
#[derive(Debug, Default)]
pub struct VarEntry {
    pub name: String,
    pub value: String,
    pub is_secret: bool,
}

impl Clone for VarEntry {
    fn clone(&self) -> (res: Self)
        ensures
            res == *self,
    {
        VarEntry { name: self.name.clone(), value: self.value.clone(), is_secret: self.is_secret }
    }
}

impl VarEntry {
    /// Build an entry from one fetched variable: a secret value is masked,
    /// a missing value gets a placeholder.
    pub fn from_fetched(name: String, value: Option<String>, is_secret: Option<bool>) -> (r: Self)
        ensures
            r.name == name,
            r.is_secret == (is_secret == Some(true)),
            is_secret == Some(true) ==> r.value@ == "<secret value hidden>"@,
            is_secret != Some(true) ==> r.value@ == (match value {
                Some(v) => v@,
                None => "<no value>"@,
            }),
    {
        let secret = match is_secret {
            Some(b) => b,
            None => false,
        };
        let value = if secret {
            String::from_str("<secret value hidden>")
        } else {
            match value {
                Some(v) => v,
                None => String::from_str("<no value>"),
            }
        };
        VarEntry { name, value, is_secret: secret }
    }
}

/// A named collection of entries: the top level of the hierarchy.
#[derive(Debug, Default)]
pub struct VarGroup {
    pub name: String,
    pub variables: Vec<VarEntry>,
}

fn clone_entries(entries: &Vec<VarEntry>) -> (res: Vec<VarEntry>)
    ensures
        res@ == entries@,
{
    let mut res: Vec<VarEntry> = Vec::new();
    let mut i: usize = 0;
    while i < entries.len()
        invariant
            i <= entries@.len(),
            res@ == entries@.subrange(0, i as int),
        decreases entries@.len() - i,
    {
        res.push(entries[i].clone());
        proof {
            assert(res@ =~= entries@.subrange(0, i + 1));
        }
        i += 1;
    }
    proof {
        assert(res@ =~= entries@);
    }
    res
}

/// Whether two groups hold the same name and the same entries.
pub open spec fn same_group(a: VarGroup, b: VarGroup) -> bool {
    a.name == b.name && a.variables@ == b.variables@
}

impl Clone for VarGroup {
    fn clone(&self) -> (res: Self)
        ensures
            same_group(res, *self),
    {
        VarGroup { name: self.name.clone(), variables: clone_entries(&self.variables) }
    }
}

/// The colour scheme of the terminal ui.
#[derive(Debug, Clone, Copy)]
pub enum Theme {
    Dark,
    Light,
}

impl Default for Theme {
    fn default() -> (r: Self)
        ensures
            r == Theme::Dark,
    {
        Theme::Dark
    }
}

/// Whether a status message reports ordinary progress or a failure.
#[derive(Debug, Clone, Copy, PartialEq, Eq, Structural)]
pub enum StatusKind {
    Info,
    Error,
}

/// A single status line shown to the user, replaced wholesale.
#[derive(Debug, Clone)]
pub struct StatusMessage {
    pub text: String,
    pub kind: StatusKind,
}

impl StatusMessage {
    pub fn info(message: String) -> (r: Self)
        ensures
            r.text == message,
            r.kind == StatusKind::Info,
    {
        StatusMessage { text: message, kind: StatusKind::Info }
    }

    pub fn error(message: String) -> (r: Self)
        ensures
            r.text == message,
            r.kind == StatusKind::Error,
    {
        StatusMessage { text: message, kind: StatusKind::Error }
    }
}

/// The raw fetched data, replaced wholesale on a successful refresh.
#[derive(Debug, Clone)]
pub struct AppData {
    pub organization: String,
    pub project: String,
    pub groups: Vec<VarGroup>,
}

impl AppData {
    pub fn new(organization: String, project: String) -> (r: Self)
        ensures
            r.organization == organization,
            r.project == project,
            r.groups@ == Seq::<VarGroup>::empty(),
    {
        AppData { organization, project, groups: Vec::new() }
    }
}

/// Which level the user is looking at, and what is selected there.
#[derive(Debug, Clone)]
pub enum View {
    Groups { selected_idx: Option<usize> },
    Vars { group_idx: usize, selected_var_idx: Option<usize> },
}

impl View {
    pub fn is_vars(&self) -> (r: bool)
        ensures
            r == (*self is Vars),
    {
        matches!(self, View::Vars { .. })
    }
}

impl Default for View {
    fn default() -> (r: Self)
        ensures
            r == (View::Groups { selected_idx: None }),
    {
        View::Groups { selected_idx: None }
    }
}

/// Whether search input is active, and for which level.
#[derive(Debug, Clone, Copy, PartialEq, Eq, Structural)]
pub enum SearchStatus {
    Inactive,
    Active(SearchTarget),
}

/// The level a search query applies to.
#[derive(Debug, Clone, Copy, PartialEq, Eq, Structural)]
pub enum SearchTarget {
    Groups,
    Vars,
}

/// The query text stored for one group's entry level.
#[derive(Debug, Clone)]
pub struct VarsQuery {
    pub group_idx: usize,
    pub text: String,
}

/// No two stored entry queries may belong to the same group.
pub open spec fn unique_query_keys(qs: Seq<VarsQuery>) -> bool {
    forall|i: int, j: int|
        #![trigger qs[i].group_idx, qs[j].group_idx]
        0 <= i < j < qs.len() ==> qs[i].group_idx != qs[j].group_idx
}

proof fn lemma_unique_same_key(qs: Seq<VarsQuery>, a: int, b: int)
    requires
        unique_query_keys(qs),
        0 <= a < qs.len(),
        0 <= b < qs.len(),
        qs[a].group_idx == qs[b].group_idx,
    ensures
        a == b,
{
    if a < b {
        assert(qs[a].group_idx != qs[b].group_idx);
    } else if b < a {
        assert(qs[b].group_idx != qs[a].group_idx);
    }
}

pub open spec fn has_query(qs: Seq<VarsQuery>, k: int) -> bool {
    exists|i: int| 0 <= i < qs.len() && (#[trigger] qs[i]).group_idx == k
}

pub open spec fn query_index(qs: Seq<VarsQuery>, k: int) -> int {
    choose|i: int| 0 <= i < qs.len() && (#[trigger] qs[i]).group_idx == k
}

/// The entry query stored for group `k`, if one is stored.
pub open spec fn spec_vars_query_opt(qs: Seq<VarsQuery>, k: int) -> Option<Seq<char>> {
    if has_query(qs, k) {
        Some(qs[query_index(qs, k)].text@)
    } else {
        None
    }
}

/// The search state: at most one active target, one query per level.
#[derive(Debug, Clone)]
pub struct SearchState {
    pub status: SearchStatus,
    pub groups_query: String,
    pub vars_queries: Vec<VarsQuery>,
}

impl Default for SearchState {
    fn default() -> (r: Self)
        ensures
            r.status == SearchStatus::Inactive,
            r.groups_query@ == Seq::<char>::empty(),
            r.vars_queries@ == Seq::<VarsQuery>::empty(),
    {
        SearchState {
            status: SearchStatus::Inactive,
            groups_query: String::new(),
            vars_queries: Vec::new(),
        }
    }
}

fn find_query_index(qs: &Vec<VarsQuery>, group_idx: usize) -> (r: Option<usize>)
    requires
        unique_query_keys(qs@),
    ensures
        match r {
            Some(i) => i < qs@.len() && qs@[i as int].group_idx == group_idx
                && spec_vars_query_opt(qs@, group_idx as int) == Some(qs@[i as int].text@),
            None => spec_vars_query_opt(qs@, group_idx as int) is None,
        },
{
    let mut i: usize = 0;
    while i < qs.len()
        invariant
            unique_query_keys(qs@),
            i <= qs@.len(),
            forall|j: int| 0 <= j < i ==> (#[trigger] qs@[j]).group_idx != group_idx,
        decreases qs@.len() - i,
    {
        if qs[i].group_idx == group_idx {
            proof {
                assert(has_query(qs@, group_idx as int)) by {
                    assert(qs@[i as int].group_idx == group_idx);
                }
                let c = query_index(qs@, group_idx as int);
                assert(0 <= c < qs@.len() && qs@[c].group_idx == group_idx);
                lemma_unique_same_key(qs@, c, i as int);
            }
            return Some(i);
        }
        i += 1;
    }
    proof {
        assert(!has_query(qs@, group_idx as int));
    }
    None
}

impl SearchState {
    /// Stored entry queries are a mapping: one per group at most.
    pub open spec fn wf(&self) -> bool {
        unique_query_keys(self.vars_queries@)
    }

    /// The entry query stored for group `k`, if any.
    pub open spec fn spec_vars_query_stored(&self, k: int) -> Option<Seq<char>> {
        spec_vars_query_opt(self.vars_queries@, k)
    }

    /// The entry query for group `k`: the stored one, or empty.
    pub open spec fn spec_vars_query(&self, k: int) -> Seq<char> {
        match spec_vars_query_opt(self.vars_queries@, k) {
            Some(t) => t,
            None => Seq::empty(),
        }
    }

    pub open spec fn spec_active_target(&self) -> Option<SearchTarget> {
        match self.status {
            SearchStatus::Active(t) => Some(t),
            SearchStatus::Inactive => None,
        }
    }

    pub fn is_active(&self) -> (r: bool)
        ensures
            r == (self.status is Active),
    {
        matches!(self.status, SearchStatus::Active(_))
    }

    pub fn active_target(&self) -> (r: Option<SearchTarget>)
        ensures
            r == self.spec_active_target(),
    {
        match self.status {
            SearchStatus::Active(target) => Some(target),
            SearchStatus::Inactive => None,
        }
    }

    pub(crate) fn activate(&mut self, target: SearchTarget)
        ensures
            final(self).status == SearchStatus::Active(target),
            final(self).groups_query == old(self).groups_query,
            final(self).vars_queries == old(self).vars_queries,
    {
        self.status = SearchStatus::Active(target);
    }

    pub(crate) fn deactivate(&mut self)
        ensures
            final(self).status == SearchStatus::Inactive,
            final(self).groups_query == old(self).groups_query,
            final(self).vars_queries == old(self).vars_queries,
    {
        self.status = SearchStatus::Inactive;
    }

    pub fn groups_query(&self) -> (r: &str)
        ensures
            r@ == self.groups_query@,
    {
        self.groups_query.as_str()
    }

    pub fn vars_query(&self, group_idx: usize) -> (r: &str)
        requires
            self.wf(),
        ensures
            r@ == self.spec_vars_query(group_idx as int),
    {
        match find_query_index(&self.vars_queries, group_idx) {
            Some(i) => self.vars_queries[i].text.as_str(),
            None => {
                proof {
                    reveal_strlit("");
                    assert(""@ =~= Seq::<char>::empty());
                }
                ""
            },
        }
    }

    /// Store `text` as the entry query of group `group_idx`, replacing any
    /// stored one.
    pub fn set_vars_query(&mut self, group_idx: usize, text: String)
        requires
            old(self).wf(),
        ensures
            final(self).status == old(self).status,
            final(self).groups_query == old(self).groups_query,
            final(self).wf(),
            final(self).spec_vars_query_stored(group_idx as int) == Some(text@),
            forall|j: int|
                j != group_idx ==> final(self).spec_vars_query_stored(j) == old(
                    self,
                ).spec_vars_query_stored(j),
    {
        self.clear_vars_query(group_idx);
        let ghost qs0 = self.vars_queries@;
        self.vars_queries.push(VarsQuery { group_idx, text });
        proof {
            let qs1 = self.vars_queries@;
            let e = VarsQuery { group_idx, text };
            assert(qs1 == qs0.push(e));
            let n = qs0.len() as int;
            assert(qs1[n] == e);
            assert forall|m: int| 0 <= m < n implies #[trigger] qs1[m] == qs0[m] by {}
            assert(unique_query_keys(qs1)) by {
                assert forall|i: int, j: int|
                    #![trigger qs1[i], qs1[j]]
                    0 <= i < j < qs1.len() implies qs1[i].group_idx != qs1[j].group_idx by {
                    if j == n {
                        if qs1[i].group_idx == group_idx {
                            assert(has_query(qs0, group_idx as int)) by {
                                assert(qs0[i].group_idx == group_idx);
                            }
                        }
                    }
                }
            }
            assert(has_query(qs1, group_idx as int)) by {
                assert(qs1[n].group_idx == group_idx);
            }
            assert(query_index(qs1, group_idx as int) == n) by {
                let c = query_index(qs1, group_idx as int);
                assert(0 <= c < qs1.len() && qs1[c].group_idx == group_idx);
                if c < n {
                    assert(has_query(qs0, group_idx as int)) by {
                        assert(qs0[c].group_idx == group_idx);
                    }
                }
            }
            assert forall|j: int|
                j != group_idx implies spec_vars_query_opt(qs1, j) == spec_vars_query_opt(
                qs0,
                j,
            ) by {
                if has_query(qs1, j) {
                    let c = query_index(qs1, j);
                    assert(0 <= c < qs1.len() && qs1[c].group_idx == j);
                    assert(c != n);
                    assert(qs0[c].group_idx == j);
                    assert(has_query(qs0, j));
                    let c0 = query_index(qs0, j);
                    assert(qs1[c0].group_idx == j);
                    assert(c0 == c);
                } else if has_query(qs0, j) {
                    let c0 = query_index(qs0, j);
                    assert(qs1[c0].group_idx == j);
                    assert(has_query(qs1, j));
                }
            }
        }
    }

    pub fn clear_vars_query(&mut self, group_idx: usize)
        requires
            old(self).wf(),
        ensures
            final(self).status == old(self).status,
            final(self).groups_query == old(self).groups_query,
            final(self).wf(),
            final(self).spec_vars_query_stored(group_idx as int) is None,
            forall|j: int|
                j != group_idx ==> final(self).spec_vars_query_stored(j) == old(
                    self,
                ).spec_vars_query_stored(j),
    {
        let ghost qs0 = self.vars_queries@;
        match find_query_index(&self.vars_queries, group_idx) {
            Some(i) => {
                self.vars_queries.remove(i);
                proof {
                    let qs1 = self.vars_queries@;
                    assert(qs1 == qs0.remove(i as int));
                    assert forall|m: int| 0 <= m < qs1.len() implies #[trigger] qs1[m] == (
                    if m < i as int {
                        qs0[m]
                    } else {
                        qs0[m + 1]
                    }) by {
                        qs0.remove_ensures(i as int);
                    }
                    assert(unique_query_keys(qs1));
                    assert(!has_query(qs1, group_idx as int)) by {
                        if has_query(qs1, group_idx as int) {
                            let c = query_index(qs1, group_idx as int);
                            assert(0 <= c < qs1.len() && qs1[c].group_idx == group_idx);
                        }
                    }
                    assert forall|j: int|
                        j != group_idx implies spec_vars_query_opt(qs1, j) == spec_vars_query_opt(
                        qs0,
                        j,
                    ) by {
                        if has_query(qs1, j) {
                            let c = query_index(qs1, j);
                            let c0 = if c < i as int {
                                c
                            } else {
                                c + 1
                            };
                            assert(qs0[c0].group_idx == j);
                            assert(has_query(qs0, j));
                            assert(query_index(qs0, j) == c0);
                            assert(qs1[c] == qs0[c0]);
                        } else if has_query(qs0, j) {
                            let c0 = query_index(qs0, j);
                            assert(c0 != i as int);
                            let c = if c0 < i as int {
                                c0
                            } else {
                                c0 - 1
                            };
                            assert(qs1[c].group_idx == j);
                            assert(has_query(qs1, j));
                        }
                    }
                }
            },
            None => {},
        }
    }
}

/// The mutable ui facts beside the raw data.
#[derive(Debug, Clone, Default)]
pub struct UiState {
    pub view: View,
    pub is_fetching: bool,
    pub search: SearchState,
    pub status: Option<StatusMessage>,
}

impl UiState {
    pub fn set_status(&mut self, status: StatusMessage)
        ensures
            final(self).status == Some(status),
            final(self).view == old(self).view,
            final(self).is_fetching == old(self).is_fetching,
            final(self).search == old(self).search,
    {
        self.status = Some(status);
    }

    pub fn clear_status(&mut self)
        ensures
            final(self).status is None,
            final(self).view == old(self).view,
            final(self).is_fetching == old(self).is_fetching,
            final(self).search == old(self).search,
    {
        self.status = None;
    }
}

/// The fuzzy score of each group's name under `query`.
pub open spec fn group_scores(groups: Seq<VarGroup>, query: Seq<char>) -> Seq<Option<i64>> {
    Seq::new(groups.len(), |i: int| fuzzy_score(groups[i].name@, query))
}

/// The fuzzy score of one entry under `query`: the name's score, or, where
/// the name does not match, the value's.
pub open spec fn spec_entry_score(e: VarEntry, query: Seq<char>) -> Option<i64> {
    if fuzzy_score(e.name@, query) is Some {
        fuzzy_score(e.name@, query)
    } else {
        fuzzy_score(e.value@, query)
    }
}

/// The fuzzy score of each entry under `query`.
pub open spec fn entry_scores(vars: Seq<VarEntry>, query: Seq<char>) -> Seq<Option<i64>> {
    Seq::new(vars.len(), |i: int| spec_entry_score(vars[i], query))
}

/// The filtered group list: every group, best score first, unmatched groups
/// at the bottom in input order.
pub open spec fn group_ranking(groups: Seq<VarGroup>, query: Seq<char>) -> Seq<usize> {
    the_ranking(group_scores(groups, query), true)
}

/// The filtered entry list of one group: matching entries only, best score
/// first.
pub open spec fn entry_ranking(vars: Seq<VarEntry>, query: Seq<char>) -> Seq<usize> {
    the_ranking(entry_scores(vars, query), false)
}

fn copy_indices(v: &Vec<usize>) -> (r: Vec<usize>)
    ensures
        r@ == v@,
{
    let mut r: Vec<usize> = Vec::new();
    let mut i: usize = 0;
    while i < v.len()
        invariant
            i <= v@.len(),
            r@ == v@.subrange(0, i as int),
        decreases v@.len() - i,
    {
        r.push(v[i]);
        proof {
            assert(r@ =~= v@.subrange(0, i + 1));
        }
        i += 1;
    }
    proof {
        assert(r@ =~= v@);
    }
    r
}

fn compute_group_scores(groups: &Vec<VarGroup>, query: &String) -> (s: Vec<Option<i64>>)
    ensures
        s@ == group_scores(groups@, query@),
{
    let n = groups.len();
    let mut s: Vec<Option<i64>> = Vec::new();
    let mut i: usize = 0;
    while i < n
        invariant
            n == groups@.len(),
            i <= n,
            s@.len() == i,
            forall|k: int| 0 <= k < i ==> s@[k] == fuzzy_score(groups@[k].name@, query@),
        decreases n - i,
    {
        let sc = fuzzy_match_score(groups[i].name.as_str(), query.as_str());
        s.push(sc);
        i += 1;
    }
    proof {
        assert(s@ =~= group_scores(groups@, query@));
    }
    s
}

fn compute_entry_scores(vars: &Vec<VarEntry>, query: &String) -> (s: Vec<Option<i64>>)
    ensures
        s@ == entry_scores(vars@, query@),
{
    let n = vars.len();
    let mut s: Vec<Option<i64>> = Vec::new();
    let mut i: usize = 0;
    while i < n
        invariant
            n == vars@.len(),
            i <= n,
            s@.len() == i,
            forall|k: int| 0 <= k < i ==> s@[k] == spec_entry_score(vars@[k], query@),
        decreases n - i,
    {
        let by_name = fuzzy_match_score(vars[i].name.as_str(), query.as_str());
        let sc = match by_name {
            Some(v) => Some(v),
            None => fuzzy_match_score(vars[i].value.as_str(), query.as_str()),
        };
        s.push(sc);
        i += 1;
    }
    proof {
        assert(s@ =~= entry_scores(vars@, query@));
    }
    s
}

/// The entry-level filter hides exactly the entries that match neither by
/// name nor by value: an entry appears in the filtered list if and only if
/// it has a score.
pub proof fn lemma_entry_filter_hides_nonmatches(
    r: Seq<usize>,
    vars: Seq<VarEntry>,
    query: Seq<char>,
    i: int,
)
    requires
        vars.len() <= usize::MAX,
        is_ranking(r, entry_scores(vars, query), false),
        0 <= i < vars.len(),
    ensures
        r.contains(i as usize) <==> spec_entry_score(vars[i], query) is Some,
{
    let scores = entry_scores(vars, query);
    if r.contains(i as usize) {
        let k = choose|k: int| 0 <= k < r.len() && r[k] == (i as usize);
        assert(crate::ranking::kept(scores, false, r[k] as int));
        assert((i as usize) as int == i);
        assert(scores[i] is Some);
    }
    if spec_entry_score(vars[i], query) is Some {
        assert(crate::ranking::kept(scores, false, i));
        assert(r.contains(i as usize));
    }
}

/// The group-level filter hides nothing: every group keeps a place in the
/// filtered list, whatever the query.
pub proof fn lemma_group_filter_keeps_all(
    r: Seq<usize>,
    groups: Seq<VarGroup>,
    query: Seq<char>,
    i: int,
)
    requires
        groups.len() <= usize::MAX,
        is_ranking(r, group_scores(groups, query), true),
        0 <= i < groups.len(),
    ensures
        r.contains(i as usize),
{
    assert(crate::ranking::kept(group_scores(groups, query), true, i));
}

/// Two group-filter results for the same data and query are the same
/// ordered index sequence, whether either was replayed from the cache or
/// computed afresh: memoization cannot alter the observable result.
pub proof fn lemma_group_filter_deterministic(
    r1: Seq<usize>,
    r2: Seq<usize>,
    groups: Seq<VarGroup>,
    query: Seq<char>,
)
    requires
        groups.len() <= usize::MAX,
        is_ranking(r1, group_scores(groups, query), true),
        is_ranking(r2, group_scores(groups, query), true),
    ensures
        r1 == r2,
{
    crate::ranking::lemma_ranking_unique(r1, r2, group_scores(groups, query), true);
}

/// The entry-level twin of [`lemma_group_filter_deterministic`].
pub proof fn lemma_entry_filter_deterministic(
    r1: Seq<usize>,
    r2: Seq<usize>,
    vars: Seq<VarEntry>,
    query: Seq<char>,
)
    requires
        vars.len() <= usize::MAX,
        is_ranking(r1, entry_scores(vars, query), false),
        is_ranking(r2, entry_scores(vars, query), false),
    ensures
        r1 == r2,
{
    crate::ranking::lemma_ranking_unique(r1, r2, entry_scores(vars, query), false);
}

/// One memoized result for the group level.
#[derive(Debug, Clone)]
pub struct CacheEntry {
    pub query: String,
    pub indices: Vec<usize>,
}

/// One memoized result for the entry level of one group.
#[derive(Debug, Clone)]
pub struct VarCacheEntry {
    pub group_idx: usize,
    pub query: String,
    pub indices: Vec<usize>,
}

/// The memoizing filter cache: at most one entry per level, no authority of
/// its own — losing it changes nothing but cost.
#[derive(Debug, Clone)]
pub struct FilterCache {
    pub groups: Option<CacheEntry>,
    pub vars: Option<VarCacheEntry>,
}

impl FilterCache {
    pub fn get_groups(&self, query: &String) -> (r: Option<Vec<usize>>)
        ensures
            match r {
                Some(ind) => self.groups matches Some(e) && e.query@ == query@ && ind@
                    == e.indices@,
                None => true,
            },
    {
        match &self.groups {
            Some(entry) => {
                if entry.query == *query {
                    Some(copy_indices(&entry.indices))
                } else {
                    None
                }
            },
            None => None,
        }
    }

    pub fn store_groups(&mut self, query: &String, indices: Vec<usize>)
        ensures
            final(self).groups matches Some(e) && e.query@ == query@ && e.indices == indices,
            final(self).vars == old(self).vars,
    {
        self.groups = Some(CacheEntry { query: query.clone(), indices });
    }

    pub fn get_vars(&self, group_idx: usize, query: &String) -> (r: Option<Vec<usize>>)
        ensures
            match r {
                Some(ind) => self.vars matches Some(e) && e.group_idx == group_idx && e.query@
                    == query@ && ind@ == e.indices@,
                None => true,
            },
    {
        match &self.vars {
            Some(entry) => {
                if entry.group_idx == group_idx && entry.query == *query {
                    Some(copy_indices(&entry.indices))
                } else {
                    None
                }
            },
            None => None,
        }
    }

    pub fn store_vars(&mut self, group_idx: usize, query: &String, indices: Vec<usize>)
        ensures
            final(self).vars matches Some(e) && e.group_idx == group_idx && e.query@ == query@
                && e.indices == indices,
            final(self).groups == old(self).groups,
    {
        self.vars = Some(VarCacheEntry { group_idx, query: query.clone(), indices });
    }

    pub fn invalidate_groups(&mut self)
        ensures
            final(self).groups is None,
            final(self).vars == old(self).vars,
    {
        self.groups = None;
    }

    pub fn invalidate_vars(&mut self)
        ensures
            final(self).vars is None,
            final(self).groups == old(self).groups,
    {
        self.vars = None;
    }

    pub fn invalidate_all(&mut self)
        ensures
            final(self).groups is None,
            final(self).vars is None,
    {
        self.invalidate_groups();
        self.invalidate_vars();
    }
}

/// The first group whose name is `name`, if any.
pub open spec fn spec_first_group_index(groups: Seq<VarGroup>, name: Seq<char>) -> Option<int>
    decreases groups.len(),
{
    if groups.len() == 0 {
        None
    } else if groups[0].name@ == name {
        Some(0int)
    } else {
        match spec_first_group_index(groups.drop_first(), name) {
            Some(i) => Some(i + 1),
            None => None,
        }
    }
}

/// The first entry whose name is `name`, if any.
pub open spec fn spec_first_var_index(vars: Seq<VarEntry>, name: Seq<char>) -> Option<int>
    decreases vars.len(),
{
    if vars.len() == 0 {
        None
    } else if vars[0].name@ == name {
        Some(0int)
    } else {
        match spec_first_var_index(vars.drop_first(), name) {
            Some(i) => Some(i + 1),
            None => None,
        }
    }
}

proof fn lemma_first_group_index_skip(groups: Seq<VarGroup>, name: Seq<char>, i: int)
    requires
        0 <= i <= groups.len(),
        forall|j: int| 0 <= j < i ==> (#[trigger] groups[j]).name@ != name,
    ensures
        spec_first_group_index(groups, name) == match spec_first_group_index(
            groups.skip(i),
            name,
        ) {
            Some(k) => Some(k + i),
            None => None::<int>,
        },
    decreases i,
{
    if i == 0 {
        assert(groups.skip(0) =~= groups);
    } else {
        assert(groups[0].name@ != name);
        assert(groups.drop_first() =~= groups.skip(1));
        lemma_first_group_index_skip(groups.drop_first(), name, i - 1);
        assert(groups.drop_first().skip(i - 1) =~= groups.skip(i));
    }
}

proof fn lemma_first_var_index_skip(vars: Seq<VarEntry>, name: Seq<char>, i: int)
    requires
        0 <= i <= vars.len(),
        forall|j: int| 0 <= j < i ==> (#[trigger] vars[j]).name@ != name,
    ensures
        spec_first_var_index(vars, name) == match spec_first_var_index(vars.skip(i), name) {
            Some(k) => Some(k + i),
            None => None::<int>,
        },
    decreases i,
{
    if i == 0 {
        assert(vars.skip(0) =~= vars);
    } else {
        assert(vars[0].name@ != name);
        assert(vars.drop_first() =~= vars.skip(1));
        lemma_first_var_index_skip(vars.drop_first(), name, i - 1);
        assert(vars.drop_first().skip(i - 1) =~= vars.skip(i));
    }
}

fn position_of_group(groups: &Vec<VarGroup>, name: &String) -> (r: Option<usize>)
    ensures
        match r {
            Some(i) => i < groups@.len() && spec_first_group_index(groups@, name@) == Some(
                i as int,
            ),
            None => spec_first_group_index(groups@, name@) is None,
        },
{
    let mut i: usize = 0;
    while i < groups.len()
        invariant
            i <= groups@.len(),
            forall|j: int| 0 <= j < i ==> (#[trigger] groups@[j]).name@ != name@,
        decreases groups@.len() - i,
    {
        if groups[i].name == *name {
            proof {
                lemma_first_group_index_skip(groups@, name@, i as int);
                assert(groups@.skip(i as int)[0] == groups@[i as int]);
            }
            return Some(i);
        }
        i += 1;
    }
    proof {
        lemma_first_group_index_skip(groups@, name@, groups@.len() as int);
        assert(groups@.skip(groups@.len() as int).len() == 0);
    }
    None
}

fn position_of_var(vars: &Vec<VarEntry>, name: &String) -> (r: Option<usize>)
    ensures
        match r {
            Some(i) => i < vars@.len() && spec_first_var_index(vars@, name@) == Some(i as int),
            None => spec_first_var_index(vars@, name@) is None,
        },
{
    let mut i: usize = 0;
    while i < vars.len()
        invariant
            i <= vars@.len(),
            forall|j: int| 0 <= j < i ==> (#[trigger] vars@[j]).name@ != name@,
        decreases vars@.len() - i,
    {
        if vars[i].name == *name {
            proof {
                lemma_first_var_index_skip(vars@, name@, i as int);
                assert(vars@.skip(i as int)[0] == vars@[i as int]);
            }
            return Some(i);
        }
        i += 1;
    }
    proof {
        lemma_first_var_index_skip(vars@, name@, vars@.len() as int);
        assert(vars@.skip(vars@.len() as int).len() == 0);
    }
    None
}

/// The view of an optional carried-over name.
pub open spec fn name_view(o: Option<String>) -> Option<Seq<char>> {
    match o {
        Some(s) => Some(s@),
        None => None,
    }
}

/// `sel.unwrap_or(0)`, clamped to a valid index of a sequence of length
/// `len`.
pub open spec fn spec_clamped_or(sel: Option<usize>, len: int) -> int {
    let base = match sel {
        Some(s) => s as int,
        None => 0,
    };
    if base <= len - 1 {
        base
    } else {
        len - 1
    }
}

/// The group index selected after a reconciliation: the carried-over name if
/// it still exists, else index 0 when a name was carried over, else the old
/// index clamped into range.
pub open spec fn spec_sync_group_target(
    groups: Seq<VarGroup>,
    prev: Option<Seq<char>>,
    cur: Option<usize>,
) -> int {
    match prev {
        Some(name) => match spec_first_group_index(groups, name) {
            Some(i) => i,
            None => 0,
        },
        None => spec_clamped_or(cur, groups.len() as int),
    }
}

/// The entry index selected after a reconciliation, symmetric to
/// [`spec_sync_group_target`].
pub open spec fn spec_sync_var_target(
    vars: Seq<VarEntry>,
    prev: Option<Seq<char>>,
    cur: Option<usize>,
) -> int {
    match prev {
        Some(name) => match spec_first_var_index(vars, name) {
            Some(i) => i,
            None => 0,
        },
        None => spec_clamped_or(cur, vars.len() as int),
    }
}

/// The view after data replacement: no groups forces the group list with no
/// selection; otherwise the selection of each active level is repaired by
/// name, by fallback index 0, or by clamping.
pub open spec fn spec_sync_view(
    v: View,
    groups: Seq<VarGroup>,
    prev_group: Option<Seq<char>>,
    prev_var: Option<Seq<char>>,
) -> View {
    if groups.len() == 0 {
        View::Groups { selected_idx: None }
    } else {
        match v {
            View::Groups { selected_idx } => View::Groups {
                selected_idx: Some(spec_sync_group_target(groups, prev_group, selected_idx) as usize),
            },
            View::Vars { group_idx, selected_var_idx } => {
                let ng = spec_sync_group_target(groups, prev_group, Some(group_idx));
                let vars = groups[ng].variables@;
                if vars.len() == 0 {
                    View::Vars { group_idx: ng as usize, selected_var_idx: None }
                } else {
                    View::Vars {
                        group_idx: ng as usize,
                        selected_var_idx: Some(
                            spec_sync_var_target(vars, prev_var, selected_var_idx) as usize,
                        ),
                    }
                }
            },
        }
    }
}

/// The name of the currently selected group, if a valid one is selected.
pub open spec fn spec_prev_group_name(s: State) -> Option<Seq<char>> {
    match s.spec_current_group() {
        Some(g) => Some(g.name@),
        None => None,
    }
}

/// The name of the currently selected entry, if a valid one is selected.
pub open spec fn spec_prev_var_name(s: State) -> Option<Seq<char>> {
    match s.spec_current_var() {
        Some(v) => Some(v.name@),
        None => None,
    }
}

/// The authoritative application state.
#[derive(Debug, Clone)]
pub struct State {
    pub data: AppData,
    pub ui: UiState,
    pub theme: Theme,
    pub filter_cache: FilterCache,
}

impl State {
    /// The cache holds only results that the filter would compute now.
    pub open spec fn cache_wf(&self) -> bool {
        &&& match self.filter_cache.groups {
            Some(e) => is_ranking(e.indices@, group_scores(self.data.groups@, e.query@), true),
            None => true,
        }
        &&& match self.filter_cache.vars {
            Some(e) => e.group_idx < self.data.groups@.len() && is_ranking(
                e.indices@,
                entry_scores(self.data.groups@[e.group_idx as int].variables@, e.query@),
                false,
            ),
            None => true,
        }
    }

    pub open spec fn wf(&self) -> bool {
        self.cache_wf() && self.ui.search.wf()
    }

    pub open spec fn spec_current_group_idx(&self) -> Option<usize> {
        match self.ui.view {
            View::Groups { selected_idx } => selected_idx,
            View::Vars { group_idx, .. } => Some(group_idx),
        }
    }

    pub open spec fn spec_current_group(&self) -> Option<VarGroup> {
        match self.spec_current_group_idx() {
            Some(i) => if i < self.data.groups@.len() {
                Some(self.data.groups@[i as int])
            } else {
                None
            },
            None => None,
        }
    }

    pub open spec fn spec_vars_group_idx(&self) -> Option<usize> {
        match self.ui.view {
            View::Vars { group_idx, .. } => Some(group_idx),
            View::Groups { .. } => None,
        }
    }

    pub open spec fn spec_current_var_idx(&self) -> Option<usize> {
        match self.ui.view {
            View::Vars { selected_var_idx, .. } => selected_var_idx,
            View::Groups { .. } => None,
        }
    }

    pub open spec fn spec_current_var(&self) -> Option<VarEntry> {
        match (self.spec_vars_group_idx(), self.spec_current_var_idx()) {
            (Some(g), Some(v)) => if g < self.data.groups@.len() && v
                < self.data.groups@[g as int].variables@.len() {
                Some(self.data.groups@[g as int].variables@[v as int])
            } else {
                None
            },
            _ => None,
        }
    }

    pub fn new(organization: String, project: String) -> (r: Self)
        ensures
            r.wf(),
            r.data.organization == organization,
            r.data.project == project,
            r.data.groups@ == Seq::<VarGroup>::empty(),
            r.ui.view == (View::Groups { selected_idx: None }),
            r.ui.is_fetching == false,
            r.ui.search.status == SearchStatus::Inactive,
            r.ui.search.groups_query@ == Seq::<char>::empty(),
            r.ui.search.vars_queries@ == Seq::<VarsQuery>::empty(),
            r.ui.status is None,
            r.theme == Theme::Dark,
            r.filter_cache.groups is None,
            r.filter_cache.vars is None,
    {
        State {
            data: AppData::new(organization, project),
            ui: UiState {
                view: View::default(),
                is_fetching: false,
                search: SearchState::default(),
                status: None,
            },
            theme: Theme::default(),
            filter_cache: FilterCache { groups: None, vars: None },
        }
    }

    pub fn organization(&self) -> (r: &str)
        ensures
            r@ == self.data.organization@,
    {
        self.data.organization.as_str()
    }

    pub fn project(&self) -> (r: &str)
        ensures
            r@ == self.data.project@,
    {
        self.data.project.as_str()
    }

    pub fn groups(&self) -> (r: &Vec<VarGroup>)
        ensures
            r == &self.data.groups,
    {
        &self.data.groups
    }

    pub fn is_viewing_vars(&self) -> (r: bool)
        ensures
            r == (self.ui.view is Vars),
    {
        self.ui.view.is_vars()
    }

    pub fn current_group_idx(&self) -> (r: Option<usize>)
        ensures
            r == self.spec_current_group_idx(),
    {
        match &self.ui.view {
            View::Groups { selected_idx } => *selected_idx,
            View::Vars { group_idx, .. } => Some(*group_idx),
        }
    }

    pub fn current_group(&self) -> (r: Option<&VarGroup>)
        ensures
            match r {
                Some(g) => self.spec_current_group() == Some(*g),
                None => self.spec_current_group() is None,
            },
    {
        match self.current_group_idx() {
            Some(idx) => {
                if idx < self.data.groups.len() {
                    Some(&self.data.groups[idx])
                } else {
                    None
                }
            },
            None => None,
        }
    }

    pub fn vars_group_idx(&self) -> (r: Option<usize>)
        ensures
            r == self.spec_vars_group_idx(),
    {
        match &self.ui.view {
            View::Vars { group_idx, .. } => Some(*group_idx),
            View::Groups { .. } => None,
        }
    }

    fn current_var_idx(&self) -> (r: Option<usize>)
        ensures
            r == self.spec_current_var_idx(),
    {
        match &self.ui.view {
            View::Vars { selected_var_idx, .. } => *selected_var_idx,
            View::Groups { .. } => None,
        }
    }

    pub fn current_var(&self) -> (r: Option<&VarEntry>)
        ensures
            match r {
                Some(v) => self.spec_current_var() == Some(*v),
                None => self.spec_current_var() is None,
            },
    {
        let group_idx = match self.vars_group_idx() {
            Some(g) => g,
            None => {
                return None;
            },
        };
        let var_idx = match self.current_var_idx() {
            Some(v) => v,
            None => {
                return None;
            },
        };
        if group_idx < self.data.groups.len() {
            let group = &self.data.groups[group_idx];
            if var_idx < group.variables.len() {
                Some(&group.variables[var_idx])
            } else {
                None
            }
        } else {
            None
        }
    }

    pub fn invalidate_group_cache(&mut self)
        requires
            old(self).wf(),
        ensures
            final(self).wf(),
            final(self).data == old(self).data,
            final(self).ui == old(self).ui,
            final(self).theme == old(self).theme,
    {
        self.filter_cache.invalidate_groups();
    }

    pub fn invalidate_var_cache(&mut self)
        requires
            old(self).wf(),
        ensures
            final(self).wf(),
            final(self).data == old(self).data,
            final(self).ui == old(self).ui,
            final(self).theme == old(self).theme,
    {
        self.filter_cache.invalidate_vars();
    }

    /// The filtered group list for the current query, memoized.
    pub fn filtered_group_indices(&mut self) -> (r: Vec<usize>)
        requires
            old(self).wf(),
        ensures
            final(self).wf(),
            final(self).data == old(self).data,
            final(self).ui == old(self).ui,
            final(self).theme == old(self).theme,
            is_ranking(
                r@,
                group_scores(old(self).data.groups@, old(self).ui.search.groups_query@),
                true,
            ),
            r@ == group_ranking(old(self).data.groups@, old(self).ui.search.groups_query@),
    {
        let n = self.data.groups.len();
        let cached = self.filter_cache.get_groups(&self.ui.search.groups_query);
        match cached {
            Some(ind) => {
                proof {
                    let s = group_scores(self.data.groups@, self.ui.search.groups_query@);
                    assert(is_ranking(ind@, s, true));
                    assert(s.len() == n);
                    lemma_the_ranking(ind@, s, true);
                }
                ind
            },
            None => {
                let scores = compute_group_scores(&self.data.groups, &self.ui.search.groups_query);
                let ind = rank_by_scores(&scores, true);
                let ind_copy = copy_indices(&ind);
                self.filter_cache.store_groups(&self.ui.search.groups_query, ind_copy);
                ind
            },
        }
    }

    /// The filtered entry list of group `group_idx` for its current query,
    /// memoized. An unknown index yields an empty list and leaves the cache
    /// alone.
    pub fn filtered_var_indices_for(&mut self, group_idx: usize) -> (r: Vec<usize>)
        requires
            old(self).wf(),
        ensures
            final(self).wf(),
            final(self).data == old(self).data,
            final(self).ui == old(self).ui,
            final(self).theme == old(self).theme,
            group_idx >= old(self).data.groups@.len() ==> r@ == Seq::<usize>::empty()
                && final(self).filter_cache == old(self).filter_cache,
            group_idx < old(self).data.groups@.len() ==> is_ranking(
                r@,
                entry_scores(
                    old(self).data.groups@[group_idx as int].variables@,
                    old(self).ui.search.spec_vars_query(group_idx as int),
                ),
                false,
            ),
            group_idx < old(self).data.groups@.len() ==> r@ == entry_ranking(
                old(self).data.groups@[group_idx as int].variables@,
                old(self).ui.search.spec_vars_query(group_idx as int),
            ),
    {
        if group_idx >= self.data.groups.len() {
            let r: Vec<usize> = Vec::new();
            proof {
                assert(r@ =~= Seq::<usize>::empty());
            }
            return r;
        }
        let query: String = String::from_str(self.ui.search.vars_query(group_idx));
        let n = self.data.groups[group_idx].variables.len();
        let cached = self.filter_cache.get_vars(group_idx, &query);
        match cached {
            Some(ind) => {
                proof {
                    let s = entry_scores(
                        self.data.groups@[group_idx as int].variables@,
                        self.ui.search.spec_vars_query(group_idx as int),
                    );
                    assert(is_ranking(ind@, s, false));
                    assert(s.len() == n);
                    lemma_the_ranking(ind@, s, false);
                }
                ind
            },
            None => {
                let scores = compute_entry_scores(&self.data.groups[group_idx].variables, &query);
                let ind = rank_by_scores(&scores, false);
                let ind_copy = copy_indices(&ind);
                self.filter_cache.store_vars(group_idx, &query, ind_copy);
                proof {
                    let s = entry_scores(
                        self.data.groups@[group_idx as int].variables@,
                        self.ui.search.spec_vars_query(group_idx as int),
                    );
                    lemma_the_ranking(ind@, s, false);
                }
                ind
            },
        }
    }

    /// The filtered group list, resolved to the groups themselves.
    pub fn filtered_groups(&mut self) -> (r: Vec<VarGroup>)
        requires
            old(self).wf(),
        ensures
            final(self).wf(),
            final(self).data == old(self).data,
            final(self).ui == old(self).ui,
            final(self).theme == old(self).theme,
            r@.len() == group_ranking(
                old(self).data.groups@,
                old(self).ui.search.groups_query@,
            ).len(),
            forall|k: int|
                0 <= k < r@.len() ==> same_group(
                    #[trigger] r@[k],
                    old(self).data.groups@[group_ranking(
                        old(self).data.groups@,
                        old(self).ui.search.groups_query@,
                    )[k] as int],
                ),
    {
        let ind = self.filtered_group_indices();
        let ghost ranking = group_ranking(old(self).data.groups@, old(self).ui.search.groups_query@);
        let mut r: Vec<VarGroup> = Vec::new();
        let mut i: usize = 0;
        while i < ind.len()
            invariant
                ind@ == ranking,
                is_ranking(
                    ind@,
                    group_scores(self.data.groups@, self.ui.search.groups_query@),
                    true,
                ),
                ranking == group_ranking(self.data.groups@, self.ui.search.groups_query@),
                i <= ind@.len(),
                r@.len() == i,
                forall|k: int|
                    0 <= k < i ==> same_group(#[trigger] r@[k], self.data.groups@[ind@[k] as int]),
            decreases ind@.len() - i,
        {
            let idx = ind[i];
            r.push(self.data.groups[idx].clone());
            i += 1;
        }
        r
    }

    /// The filtered entry list of the group whose entries are being viewed.
    pub fn filtered_var_indices(&mut self) -> (r: Vec<usize>)
        requires
            old(self).wf(),
        ensures
            final(self).wf(),
            final(self).data == old(self).data,
            final(self).ui == old(self).ui,
            final(self).theme == old(self).theme,
            old(self).spec_vars_group_idx() is None ==> r@ == Seq::<usize>::empty(),
            old(self).spec_vars_group_idx() matches Some(gi) ==> (if gi >= old(
                self,
            ).data.groups@.len() {
                r@ == Seq::<usize>::empty()
            } else {
                r@ == entry_ranking(
                    old(self).data.groups@[gi as int].variables@,
                    old(self).ui.search.spec_vars_query(gi as int),
                ) && is_ranking(
                    r@,
                    entry_scores(
                        old(self).data.groups@[gi as int].variables@,
                        old(self).ui.search.spec_vars_query(gi as int),
                    ),
                    false,
                )
            }),
    {
        match self.vars_group_idx() {
            Some(group_idx) => self.filtered_var_indices_for(group_idx),
            None => {
                let r: Vec<usize> = Vec::new();
                proof {
                    assert(r@ =~= Seq::<usize>::empty());
                }
                r
            },
        }
    }

    /// The filtered entry list of the viewed group, resolved to the entries.
    pub fn filtered_vars(&mut self) -> (r: Vec<VarEntry>)
        requires
            old(self).wf(),
        ensures
            final(self).wf(),
            final(self).data == old(self).data,
            final(self).ui == old(self).ui,
            final(self).theme == old(self).theme,
            old(self).spec_vars_group_idx() is None ==> r@ == Seq::<VarEntry>::empty(),
            old(self).spec_vars_group_idx() matches Some(gi) ==> (if gi >= old(
                self,
            ).data.groups@.len() {
                r@ == Seq::<VarEntry>::empty()
            } else {
                r@.len() == entry_ranking(
                    old(self).data.groups@[gi as int].variables@,
                    old(self).ui.search.spec_vars_query(gi as int),
                ).len() && (forall|k: int|
                    0 <= k < r@.len() ==> #[trigger] r@[k] == old(
                        self,
                    ).data.groups@[gi as int].variables@[entry_ranking(
                        old(self).data.groups@[gi as int].variables@,
                        old(self).ui.search.spec_vars_query(gi as int),
                    )[k] as int])
            }),
    {
        let group_idx = match self.vars_group_idx() {
            Some(gi) => gi,
            None => {
                let r: Vec<VarEntry> = Vec::new();
                proof {
                    assert(r@ =~= Seq::<VarEntry>::empty());
                }
                return r;
            },
        };
        let ind = self.filtered_var_indices_for(group_idx);
        if group_idx >= self.data.groups.len() {
            let r: Vec<VarEntry> = Vec::new();
            proof {
                assert(r@ =~= Seq::<VarEntry>::empty());
            }
            return r;
        }
        let ghost vars = self.data.groups@[group_idx as int].variables@;
        let ghost ranking = entry_ranking(
            vars,
            self.ui.search.spec_vars_query(group_idx as int),
        );
        let group = &self.data.groups[group_idx];
        let mut r: Vec<VarEntry> = Vec::new();
        let mut i: usize = 0;
        while i < ind.len()
            invariant
                ind@ == ranking,
                is_ranking(
                    ind@,
                    entry_scores(group.variables@, self.ui.search.spec_vars_query(group_idx as int)),
                    false,
                ),
                group.variables@ == vars,
                i <= ind@.len(),
                r@.len() == i,
                forall|k: int| 0 <= k < i ==> #[trigger] r@[k] == vars[ind@[k] as int],
            decreases ind@.len() - i,
        {
            let idx = ind[i];
            r.push(group.variables[idx].clone());
            i += 1;
        }
        r
    }

    /// Repair the selection after any data replacement: by carried-over
    /// name, by fallback index 0, or by clamping, per level.
    fn sync_selection_with_previous(
        &mut self,
        prev_group: Option<String>,
        prev_var: Option<String>,
    )
        requires
            old(self).wf(),
        ensures
            final(self).wf(),
            final(self).data == old(self).data,
            final(self).theme == old(self).theme,
            final(self).ui.search == old(self).ui.search,
            final(self).ui.status == old(self).ui.status,
            final(self).ui.is_fetching == old(self).ui.is_fetching,
            final(self).ui.view == spec_sync_view(
                old(self).ui.view,
                old(self).data.groups@,
                name_view(prev_group),
                name_view(prev_var),
            ),
    {
        let len = self.data.groups.len();
        if len == 0 {
            self.ui.view = View::Groups { selected_idx: None };
            return;
        }
        if !self.is_viewing_vars() {
            let sel: Option<usize> = match &self.ui.view {
                View::Groups { selected_idx } => *selected_idx,
                View::Vars { .. } => None,
            };
            let next: usize = match &prev_group {
                Some(name) => match position_of_group(&self.data.groups, name) {
                    Some(i) => i,
                    None => 0,
                },
                None => {
                    let base = match sel {
                        Some(s) => s,
                        None => 0,
                    };
                    if base <= len - 1 {
                        base
                    } else {
                        len - 1
                    }
                },
            };
            self.ui.view = View::Groups { selected_idx: Some(next) };
            self.filter_cache.invalidate_groups();
        } else {
            let (group_idx, selected_var_idx): (usize, Option<usize>) = match &self.ui.view {
                View::Vars { group_idx, selected_var_idx } => (*group_idx, *selected_var_idx),
                View::Groups { .. } => (0, None),
            };
            let next_group: usize = match &prev_group {
                Some(name) => match position_of_group(&self.data.groups, name) {
                    Some(i) => i,
                    None => 0,
                },
                None => {
                    if group_idx <= len - 1 {
                        group_idx
                    } else {
                        len - 1
                    }
                },
            };
            let vars_len = self.data.groups[next_group].variables.len();
            if vars_len == 0 {
                self.ui.view = View::Vars { group_idx: next_group, selected_var_idx: None };
                self.filter_cache.invalidate_vars();
                return;
            }
            let next_var: usize = match &prev_var {
                Some(name) => match position_of_var(&self.data.groups[next_group].variables, name) {
                    Some(i) => i,
                    None => 0,
                },
                None => {
                    let base = match selected_var_idx {
                        Some(s) => s,
                        None => 0,
                    };
                    if base <= vars_len - 1 {
                        base
                    } else {
                        vars_len - 1
                    }
                },
            };
            self.ui.view = View::Vars {
                group_idx: next_group,
                selected_var_idx: Some(next_var),
            };
            self.filter_cache.invalidate_vars();
        }
    }

    /// Re-run the selection repair against the current data.
    pub fn sync_selection(&mut self)
        requires
            old(self).wf(),
        ensures
            final(self).wf(),
            final(self).data == old(self).data,
            final(self).theme == old(self).theme,
            final(self).ui.search == old(self).ui.search,
            final(self).ui.status == old(self).ui.status,
            final(self).ui.is_fetching == old(self).ui.is_fetching,
            final(self).ui.view == spec_sync_view(
                old(self).ui.view,
                old(self).data.groups@,
                None,
                None,
            ),
    {
        self.sync_selection_with_previous(None, None);
    }

    /// Replace the raw data wholesale, invalidate the whole cache, and
    /// reconcile the selection with the new sequence.
    pub fn set_groups(&mut self, groups: Vec<VarGroup>)
        requires
            old(self).wf(),
        ensures
            final(self).wf(),
            final(self).data.groups == groups,
            final(self).data.organization == old(self).data.organization,
            final(self).data.project == old(self).data.project,
            final(self).theme == old(self).theme,
            final(self).ui.search == old(self).ui.search,
            final(self).ui.status == old(self).ui.status,
            final(self).ui.is_fetching == old(self).ui.is_fetching,
            final(self).ui.view == spec_sync_view(
                old(self).ui.view,
                groups@,
                spec_prev_group_name(*old(self)),
                spec_prev_var_name(*old(self)),
            ),
    {
        let prev_group: Option<String> = match self.current_group() {
            Some(g) => Some(g.name.clone()),
            None => None,
        };
        let prev_var: Option<String> = match self.current_var() {
            Some(v) => Some(v.name.clone()),
            None => None,
        };
        self.data.groups = groups;
        self.filter_cache.invalidate_all();
        self.sync_selection_with_previous(prev_group, prev_var);
    }

    /// The query text belonging to `target`, as shown in the search bar.
    pub fn search_query_for(&self, target: SearchTarget) -> (r: String)
        requires
            self.ui.search.wf(),
        ensures
            target == SearchTarget::Groups ==> r@ == self.ui.search.groups_query@,
            target == SearchTarget::Vars ==> r@ == (match self.spec_vars_group_idx() {
                Some(gi) => self.ui.search.spec_vars_query(gi as int),
                None => Seq::<char>::empty(),
            }),
    {
        match target {
            SearchTarget::Groups => self.ui.search.groups_query.clone(),
            SearchTarget::Vars => match self.vars_group_idx() {
                Some(gi) => String::from_str(self.ui.search.vars_query(gi)),
                None => String::new(),
            },
        }
    }

    /// The entry query of the viewed group, where one is non-empty.
    pub fn active_vars_query(&self) -> (r: Option<&str>)
        requires
            self.ui.search.wf(),
        ensures
            match r {
                Some(q) => self.spec_vars_group_idx() matches Some(gi) && q@
                    == self.ui.search.spec_vars_query(gi as int) && q@.len() > 0,
                None => self.spec_vars_group_idx() is None || (self.spec_vars_group_idx()
                    matches Some(gi) && self.ui.search.spec_vars_query(gi as int).len() == 0),
            },
    {
        match self.vars_group_idx() {
            Some(gi) => {
                let q = self.ui.search.vars_query(gi);
                if q.is_empty() {
                    None
                } else {
                    Some(q)
                }
            },
            None => None,
        }
    }
}

} // verus!
