//! The lists of groups and hosts that the host browser shows.
use vstd::prelude::*;
use crate::model::{group_names, host_views, Config, ConfigView, Host, HostView};
use crate::order::{
    is_preorder, le_text, lemma_stable_sort_map, lemma_stable_sort_permutes,
    lemma_stable_sort_sorts, lemma_text_le_total, lemma_text_le_transitive, sort_by, sort_texts,
    stable_sort, text_le,
};
use crate::search::{fuzzy_score, score_of};
use crate::seqs::{
    lemma_filter_complete, lemma_filter_push, lemma_position, lemma_position_is,
    lemma_position_none, position,
};
use crate::text::{trim, trimmed};

verus! {

/// An entry of the group pane. `All` and `Ungrouped` stand for no real group.
#[derive(Debug, PartialEq, Eq)]
pub enum GroupEntry {
    All,
    Named(String),
    Ungrouped,
}

/// The model of an entry of the group pane.
#[verifier::ext_equal]
pub enum GroupEntryView {
    All,
    Named(Seq<char>),
    Ungrouped,
}

impl View for GroupEntry {
    type V = GroupEntryView;

    open spec fn view(&self) -> GroupEntryView {
        match self {
            GroupEntry::All => GroupEntryView::All,
            GroupEntry::Named(name) => GroupEntryView::Named(name@),
            GroupEntry::Ungrouped => GroupEntryView::Ungrouped,
        }
    }
}

/// The models of the group pane's entries.
pub open spec fn group_entry_views(entries: Seq<GroupEntry>) -> Seq<GroupEntryView> {
    entries.map_values(|e: GroupEntry| e@)
}

/// A row of the host pane.
#[derive(Debug, PartialEq, Eq)]
pub enum ListItem {
    GroupHeader(String),
    Host(String),
}

/// The model of a row of the host pane.
#[verifier::ext_equal]
pub enum ItemView {
    GroupHeader(Seq<char>),
    Host(Seq<char>),
}

impl View for ListItem {
    type V = ItemView;

    open spec fn view(&self) -> ItemView {
        match self {
            ListItem::GroupHeader(name) => ItemView::GroupHeader(name@),
            ListItem::Host(alias) => ItemView::Host(alias@),
        }
    }
}

/// The models of the host pane's rows.
pub open spec fn item_views(items: Seq<ListItem>) -> Seq<ItemView> {
    items.map_values(|i: ListItem| i@)
}

/// Texts in their order.
pub open spec fn sorted_texts(items: Seq<Seq<char>>) -> Seq<Seq<char>> {
    stable_sort(items, |a: Seq<char>, b: Seq<char>| text_le(a, b))
}

/// The entries of the group pane: all hosts, the groups in order, and the hosts
/// without a group where there are any.
pub open spec fn group_entries_of(config: ConfigView) -> Seq<GroupEntryView> {
    let named = sorted_texts(config.groups).map_values(|n: Seq<char>| GroupEntryView::Named(n));
    let entries = seq![GroupEntryView::All] + named;
    if config.ungrouped_hosts().len() > 0 {
        entries.push(GroupEntryView::Ungrouped)
    } else {
        entries
    }
}

/// The aliases of some hosts.
pub open spec fn aliases_of(hosts: Seq<HostView>) -> Seq<Seq<char>> {
    hosts.map_values(|h: HostView| h.alias)
}

/// The rows of some hosts, by alias.
pub open spec fn host_rows(hosts: Seq<HostView>) -> Seq<ItemView> {
    sorted_texts(aliases_of(hosts)).map_values(|a: Seq<char>| ItemView::Host(a))
}

/// The rows of some groups, each with its header.
pub open spec fn group_rows(config: ConfigView, names: Seq<Seq<char>>) -> Seq<ItemView>
    decreases names.len(),
{
    if names.len() == 0 {
        seq![]
    } else {
        group_rows(config, names.drop_last()).push(ItemView::GroupHeader(names.last())) + host_rows(
            config.hosts_in_group(names.last()),
        )
    }
}

/// The rows of all hosts: the groups in order, and then those without a group.
pub open spec fn all_rows(config: ConfigView) -> Seq<ItemView> {
    let grouped = group_rows(config, sorted_texts(config.groups));
    if config.ungrouped_hosts().len() > 0 {
        grouped.push(ItemView::GroupHeader("ungrouped"@)) + host_rows(config.ungrouped_hosts())
    } else {
        grouped
    }
}

/// The hosts that a query finds, with their scores.
pub open spec fn scored_hosts(hosts: Seq<HostView>, query: Seq<char>) -> Seq<(Seq<char>, u32)>
    decreases hosts.len(),
{
    if hosts.len() == 0 {
        seq![]
    } else {
        let rest = scored_hosts(hosts.drop_last(), query);
        match score_of(query, hosts.last().alias) {
            Some(score) => rest.push((hosts.last().alias, score)),
            None => rest,
        }
    }
}

/// The better score comes first, and then the alias.
pub open spec fn rank_order() -> spec_fn((Seq<char>, u32), (Seq<char>, u32)) -> bool {
    |a: (Seq<char>, u32), b: (Seq<char>, u32)| a.1 > b.1 || (a.1 == b.1 && text_le(a.0, b.0))
}

/// The rows that a query finds, best first.
pub open spec fn found_rows(config: ConfigView, query: Seq<char>) -> Seq<ItemView> {
    stable_sort(scored_hosts(config.hosts, query), rank_order()).map_values(
        |p: (Seq<char>, u32)| ItemView::Host(p.0),
    )
}

/// The rows of the host pane.
///
/// A search goes over all hosts. Without one, the selected entry of the group
/// pane says which hosts are shown, and only `All` shows headers.
pub open spec fn items_of(
    config: ConfigView,
    group_entries: Seq<GroupEntryView>,
    group_selected: int,
    search: Seq<char>,
) -> Seq<ItemView> {
    if trim(search).len() > 0 {
        found_rows(config, trim(search))
    } else if group_selected < group_entries.len() {
        match group_entries[group_selected] {
            GroupEntryView::All => all_rows(config),
            GroupEntryView::Named(name) => host_rows(config.hosts_in_group(name)),
            GroupEntryView::Ungrouped => host_rows(config.ungrouped_hosts()),
        }
    } else {
        all_rows(config)
    }
}

/// The first row of a host, or the first row.
pub open spec fn first_host_row(items: Seq<ItemView>) -> int {
    match position(items, |i: ItemView| i is Host) {
        Some(p) => p,
        None => 0,
    }
}

/// The rows that follow one, around the end and up to it.
pub open spec fn rows_after(items: Seq<ItemView>, selected: int) -> Seq<ItemView> {
    Seq::new(items.len(), |i: int| items[(selected + 1 + i) % items.len() as int])
}

/// The next row of a host, around the end, or the same row if there is no other.
pub open spec fn next_host_row(items: Seq<ItemView>, selected: int) -> int {
    match position(rows_after(items, selected), |i: ItemView| i is Host) {
        Some(d) => (selected + 1 + d) % items.len() as int,
        None => selected,
    }
}

/// The rows that precede one, around the start and back to it.
pub open spec fn rows_before(items: Seq<ItemView>, selected: int) -> Seq<ItemView> {
    Seq::new(items.len(), |i: int| items[(selected - 1 - i) % items.len() as int])
}

/// The previous row of a host, around the start, or the same row if there is no
/// other.
pub open spec fn prev_host_row(items: Seq<ItemView>, selected: int) -> int {
    match position(rows_before(items, selected), |i: ItemView| i is Host) {
        Some(d) => (selected - 1 - d) % items.len() as int,
        None => selected,
    }
}

/// The row before the next row of a host is the one that was selected, if that is
/// the row of a host, and so is the row after the previous one.
pub proof fn lemma_host_rows_lead_back(items: Seq<ItemView>, selected: int)
    requires
        0 <= selected < items.len(),
        items[selected] is Host,
    ensures
        0 <= next_host_row(items, selected) < items.len(),
        0 <= prev_host_row(items, selected) < items.len(),
        prev_host_row(items, next_host_row(items, selected)) == selected,
        next_host_row(items, prev_host_row(items, selected)) == selected,
{
    let n = items.len() as int;
    let is_host = |i: ItemView| i is Host;
    vstd::arithmetic::div_mod::lemma_small_mod(selected as nat, n as nat);
    vstd::arithmetic::div_mod::lemma_mod_add_multiples_vanish(selected, n);
    vstd::arithmetic::div_mod::lemma_mod_sub_multiples_vanish(selected, n);

    let after = rows_after(items, selected);
    assert(after[n - 1] == items[selected]);
    lemma_position(after, is_host);
    let down = position(after, is_host)->0;
    let next = next_host_row(items, selected);
    vstd::arithmetic::div_mod::lemma_mod_bound(selected + 1 + down, n);
    let back = rows_before(items, next);
    assert forall|j: int| 0 <= j <= down implies #[trigger] back[j] == items[(selected + down - j)
        % n] by {
        vstd::arithmetic::div_mod::lemma_add_mod_noop_right(-1 - j, selected + 1 + down, n);
    }
    assert forall|j: int| 0 <= j < down implies !is_host(#[trigger] back[j]) by {
        assert(back[j] == after[down - 1 - j]);
    }
    lemma_position_is(back, is_host, down);
    vstd::arithmetic::div_mod::lemma_add_mod_noop_right(-1 - down, selected + 1 + down, n);

    let before = rows_before(items, selected);
    assert(before[n - 1] == items[selected]);
    lemma_position(before, is_host);
    let up = position(before, is_host)->0;
    let prev = prev_host_row(items, selected);
    vstd::arithmetic::div_mod::lemma_mod_bound(selected - 1 - up, n);
    let forth = rows_after(items, prev);
    assert forall|j: int| 0 <= j <= up implies #[trigger] forth[j] == items[(selected - up + j)
        % n] by {
        vstd::arithmetic::div_mod::lemma_add_mod_noop_right(1 + j, selected - 1 - up, n);
    }
    assert forall|j: int| 0 <= j < up implies !is_host(#[trigger] forth[j]) by {
        assert(forth[j] == before[up - 1 - j]);
    }
    lemma_position_is(forth, is_host, up);
    vstd::arithmetic::div_mod::lemma_add_mod_noop_right(1 + up, selected - 1 - up, n);
}

/// Where there is no row of a host, none is moved to.
pub proof fn lemma_rows_without_hosts(items: Seq<ItemView>, selected: int)
    requires
        0 <= selected < items.len(),
        forall|i: int| 0 <= i < items.len() ==> (#[trigger] items[i]) !is Host,
    ensures
        next_host_row(items, selected) == selected,
        prev_host_row(items, selected) == selected,
{
    let n = items.len() as int;
    let is_host = |i: ItemView| i is Host;
    let after = rows_after(items, selected);
    let before = rows_before(items, selected);
    assert forall|i: int| 0 <= i < n implies !is_host(#[trigger] after[i]) by {
        vstd::arithmetic::div_mod::lemma_mod_bound(selected + 1 + i, n);
    }
    assert forall|i: int| 0 <= i < n implies !is_host(#[trigger] before[i]) by {
        vstd::arithmetic::div_mod::lemma_mod_bound(selected - 1 - i, n);
    }
    lemma_position_none(after, is_host);
    lemma_position_none(before, is_host);
}

fn group_name_list(config: &Config) -> (names: Vec<String>)
    ensures
        names@.map_values(|s: String| s@) == sorted_texts(config@.groups),
{
    let groups = config.groups();
    let mut names: Vec<String> = Vec::new();
    for i in 0..groups.len()
        invariant
            names@.len() == i,
            forall|k: int| 0 <= k < i ==> (#[trigger] names@[k])@ == groups@[k].name@,
    {
        names.push(groups[i].name.clone());
    }
    assert(names@.map_values(|s: String| s@) =~= group_names(groups@));
    sort_texts(&mut names);
    names
}

/// Builds the entries of the group pane.
pub fn build_group_entries(config: &Config) -> (entries: Vec<GroupEntry>)
    ensures
        group_entry_views(entries@) == group_entries_of(config@),
{
    let names = group_name_list(config);
    let ghost sorted = sorted_texts(config@.groups);
    let ghost named = sorted.map_values(|n: Seq<char>| GroupEntryView::Named(n));
    let mut entries: Vec<GroupEntry> = Vec::new();
    entries.push(GroupEntry::All);
    assert(group_entry_views(entries@) =~= seq![GroupEntryView::All] + named.take(0));
    for i in 0..names.len()
        invariant
            names@.map_values(|s: String| s@) == sorted,
            named == sorted.map_values(|n: Seq<char>| GroupEntryView::Named(n)),
            group_entry_views(entries@) == seq![GroupEntryView::All] + named.take(i as int),
    {
        let ghost before = entries@;
        assert(sorted[i as int] == names@[i as int]@);
        entries.push(GroupEntry::Named(names[i].clone()));
        assert(group_entry_views(entries@) =~= group_entry_views(before).push(named[i as int]));
        assert(group_entry_views(entries@) =~= seq![GroupEntryView::All] + named.take(i + 1));
    }
    assert(names@.len() == sorted.len());
    assert(named.take(named.len() as int) =~= named);
    let ungrouped = config.ungrouped_hosts();
    assert(ungrouped@.map_values(|h: &Host| h@).len() == ungrouped@.len());
    if ungrouped.len() > 0 {
        let ghost before = entries@;
        entries.push(GroupEntry::Ungrouped);
        assert(group_entry_views(entries@) =~= group_entry_views(before).push(
            GroupEntryView::Ungrouped,
        ));
    }
    entries
}

fn push_sorted_hosts(items: &mut Vec<ListItem>, hosts: &Vec<&Host>)
    ensures
        item_views(final(items)@) == item_views(old(items)@) + host_rows(
            hosts@.map_values(|h: &Host| h@),
        ),
{
    let ghost views = hosts@.map_values(|h: &Host| h@);
    let mut aliases: Vec<String> = Vec::new();
    for i in 0..hosts.len()
        invariant
            aliases@.len() == i,
            forall|k: int| 0 <= k < i ==> (#[trigger] aliases@[k])@ == hosts@[k]@.alias,
    {
        aliases.push(hosts[i].alias.clone());
    }
    assert(aliases@.map_values(|s: String| s@) =~= aliases_of(views));
    sort_texts(&mut aliases);
    let ghost start = item_views(items@);
    let ghost sorted = sorted_texts(aliases_of(views));
    let ghost rows = host_rows(views);
    assert(start + rows.take(0) =~= start);
    for i in 0..aliases.len()
        invariant
            aliases@.map_values(|s: String| s@) == sorted,
            rows == sorted.map_values(|a: Seq<char>| ItemView::Host(a)),
            item_views(items@) == start + rows.take(i as int),
    {
        let ghost before = items@;
        assert(sorted[i as int] == aliases@[i as int]@);
        items.push(ListItem::Host(aliases[i].clone()));
        assert(item_views(items@) =~= item_views(before).push(rows[i as int]));
        assert(item_views(items@) =~= start + rows.take(i + 1));
    }
    assert(aliases@.len() == sorted.len());
    assert(rows.take(rows.len() as int) =~= rows);
}

fn push_header(items: &mut Vec<ListItem>, name: &str)
    ensures
        item_views(final(items)@) == item_views(old(items)@).push(ItemView::GroupHeader(name@)),
{
    items.push(ListItem::GroupHeader(name.to_string()));
    assert(item_views(items@) =~= item_views(old(items)@).push(ItemView::GroupHeader(name@)));
}

fn build_all(config: &Config) -> (items: Vec<ListItem>)
    ensures
        item_views(items@) == all_rows(config@),
{
    let names = group_name_list(config);
    let ghost sorted = sorted_texts(config@.groups);
    let mut items: Vec<ListItem> = Vec::new();
    assert(item_views(items@) =~= group_rows(config@, sorted.take(0)));
    for i in 0..names.len()
        invariant
            names@.map_values(|s: String| s@) == sorted,
            item_views(items@) == group_rows(config@, sorted.take(i as int)),
    {
        assert(sorted.take(i + 1).drop_last() =~= sorted.take(i as int));
        assert(sorted.take(i + 1).last() == names@[i as int]@);
        push_header(&mut items, names[i].as_str());
        let hosts = config.hosts_in_group(names[i].as_str());
        push_sorted_hosts(&mut items, &hosts);
    }
    assert(names@.len() == sorted.len());
    assert(sorted.take(sorted.len() as int) =~= sorted);
    let ungrouped = config.ungrouped_hosts();
    assert(ungrouped@.map_values(|h: &Host| h@).len() == ungrouped@.len());
    if ungrouped.len() > 0 {
        push_header(&mut items, "ungrouped");
        push_sorted_hosts(&mut items, &ungrouped);
    }
    items
}

/// The model of a host's alias and score.
pub open spec fn score_view(p: (String, u32)) -> (Seq<char>, u32) {
    (p.0@, p.1)
}

fn build_found(config: &Config, query: &str) -> (items: Vec<ListItem>)
    ensures
        item_views(items@) == found_rows(config@, query@),
{
    let hosts = config.hosts();
    let ghost views = host_views(hosts@);
    let mut scored: Vec<(String, u32)> = Vec::new();
    let ghost key = |p: (String, u32)| score_view(p);
    assert(scored@.map_values(key) =~= scored_hosts(views.take(0), query@));
    for i in 0..hosts.len()
        invariant
            views == host_views(hosts@),
            key == (|p: (String, u32)| score_view(p)),
            scored@.map_values(key) == scored_hosts(views.take(i as int), query@),
    {
        let ghost before = scored@;
        assert(views.take(i + 1).drop_last() =~= views.take(i as int));
        assert(views.take(i + 1).last() == hosts@[i as int]@);
        if let Some(score) = fuzzy_score(query, hosts[i].alias.as_str()) {
            scored.push((hosts[i].alias.clone(), score));
            assert(scored@.map_values(key) =~= before.map_values(key).push(
                (hosts@[i as int]@.alias, score),
            ));
        }
    }
    assert(views.take(views.len() as int) =~= views);
    let ghost given = scored@;
    let ghost order = |a: (String, u32), b: (String, u32)| rank_order()(score_view(a), score_view(b));
    let le = |a: &(String, u32), b: &(String, u32)| -> (r: bool)
        ensures
            r == rank_order()(score_view(*a), score_view(*b)),
        { a.1 > b.1 || (a.1 == b.1 && le_text(a.0.as_str(), b.0.as_str())) };
    proof {
        assert forall|a: (String, u32), b: (String, u32)| #[trigger]
            order(a, b) || order(b, a) by {
            lemma_text_le_total(a.0@, b.0@);
        }
        assert forall|a: (String, u32), b: (String, u32), c: (String, u32)| #[trigger]
            order(a, b) && #[trigger] order(b, c) implies order(a, c) by {
            if text_le(a.0@, b.0@) && text_le(b.0@, c.0@) {
                lemma_text_le_transitive(a.0@, b.0@, c.0@);
            }
        }
    }
    sort_by(&mut scored, le, Ghost(order));
    let ghost ranked = stable_sort(scored_hosts(config@.hosts, query@), rank_order());
    proof {
        lemma_stable_sort_map(given, order, key, rank_order());
    }
    let ghost rows = found_rows(config@, query@);
    let mut items: Vec<ListItem> = Vec::new();
    assert(item_views(items@) =~= rows.take(0));
    for i in 0..scored.len()
        invariant
            key == (|p: (String, u32)| score_view(p)),
            scored@.map_values(key) == ranked,
            rows == ranked.map_values(|p: (Seq<char>, u32)| ItemView::Host(p.0)),
            item_views(items@) == rows.take(i as int),
    {
        let ghost before = items@;
        assert(ranked[i as int] == score_view(scored@[i as int]));
        items.push(ListItem::Host(scored[i].0.clone()));
        assert(item_views(items@) =~= item_views(before).push(rows[i as int]));
        assert(item_views(items@) =~= rows.take(i + 1));
    }
    assert(scored@.len() == ranked.len());
    assert(rows.take(rows.len() as int) =~= rows);
    items
}

/// Builds the rows of the host pane.
pub fn build_items(
    config: &Config,
    group_entries: &Vec<GroupEntry>,
    group_selected: usize,
    search: &str,
) -> (items: Vec<ListItem>)
    ensures
        item_views(items@) == items_of(
            config@,
            group_entry_views(group_entries@),
            group_selected as int,
            search@,
        ),
{
    let query = trimmed(search);
    if !query.as_str().is_empty() {
        return build_found(config, query.as_str());
    }
    if group_selected >= group_entries.len() {
        return build_all(config);
    }
    assert(group_entry_views(group_entries@)[group_selected as int]
        == group_entries@[group_selected as int]@);
    let mut items: Vec<ListItem> = Vec::new();
    let ghost none = item_views(items@);
    match &group_entries[group_selected] {
        GroupEntry::All => build_all(config),
        GroupEntry::Named(name) => {
            let hosts = config.hosts_in_group(name.as_str());
            push_sorted_hosts(&mut items, &hosts);
            assert(item_views(items@) =~= host_rows(config@.hosts_in_group(name@)));
            items
        },
        GroupEntry::Ungrouped => {
            let hosts = config.ungrouped_hosts();
            push_sorted_hosts(&mut items, &hosts);
            assert(item_views(items@) =~= host_rows(config@.ungrouped_hosts()));
            items
        },
    }
}

fn is_host_row(item: &ListItem) -> (yes: bool)
    ensures
        yes == item@ is Host,
{
    matches!(item, ListItem::Host(_))
}

/// Finds the first row of a host, or the first row.
pub fn first_host_index(items: &Vec<ListItem>) -> (index: usize)
    ensures
        index == first_host_row(item_views(items@)),
        items@.len() > 0 ==> index < items@.len(),
        items@.len() == 0 ==> index == 0,
{
    let ghost views = item_views(items@);
    let ghost wanted = |i: ItemView| i is Host;
    for i in 0..items.len()
        invariant
            views == item_views(items@),
            wanted == (|i: ItemView| i is Host),
            forall|k: int| 0 <= k < i ==> !wanted(#[trigger] views[k]),
    {
        assert(views[i as int] == items@[i as int]@);
        if is_host_row(&items[i]) {
            proof {
                lemma_position_is(views, wanted, i as int);
            }
            return i;
        }
    }
    proof {
        lemma_position_none(views, wanted);
    }
    0
}

/// Finds the next row of a host.
pub fn next_host_index(items: &Vec<ListItem>, selected: usize) -> (index: usize)
    requires
        selected < items@.len(),
    ensures
        index == next_host_row(item_views(items@), selected as int),
        index < items@.len(),
{
    let ghost views = item_views(items@);
    let ghost ring = rows_after(views, selected as int);
    let ghost wanted = |i: ItemView| i is Host;
    let n = items.len();
    let mut d: usize = 0;
    let mut at: usize = selected;
    proof {
        vstd::arithmetic::div_mod::lemma_small_mod(selected as nat, n as nat);
    }
    while d < n
        invariant
            n == items@.len(),
            selected < n,
            at < n,
            d <= n,
            at == (selected + d) % n as int,
            views == item_views(items@),
            ring == rows_after(views, selected as int),
            wanted == (|i: ItemView| i is Host),
            forall|k: int| 0 <= k < d ==> !wanted(#[trigger] ring[k]),
        decreases n - d,
    {
        let next: usize = if at + 1 < n {
            at + 1
        } else {
            0
        };
        assert(next == (selected + 1 + d) % n as int) by {
            lemma_mod_step(selected as int, d as int, n as int);
        }
        assert(ring[d as int] == items@[next as int]@);
        if is_host_row(&items[next]) {
            proof {
                lemma_position_is(ring, wanted, d as int);
            }
            return next;
        }
        at = next;
        d = d + 1;
    }
    proof {
        lemma_position_none(ring, wanted);
    }
    selected
}

/// Finds the previous row of a host.
pub fn prev_host_index(items: &Vec<ListItem>, selected: usize) -> (index: usize)
    requires
        selected < items@.len(),
    ensures
        index == prev_host_row(item_views(items@), selected as int),
        index < items@.len(),
{
    let ghost views = item_views(items@);
    let ghost ring = rows_before(views, selected as int);
    let ghost wanted = |i: ItemView| i is Host;
    let n = items.len();
    let mut d: usize = 0;
    let mut at: usize = selected;
    proof {
        vstd::arithmetic::div_mod::lemma_small_mod(selected as nat, n as nat);
    }
    while d < n
        invariant
            n == items@.len(),
            selected < n,
            at < n,
            d <= n,
            at == (selected - d) % n as int,
            views == item_views(items@),
            ring == rows_before(views, selected as int),
            wanted == (|i: ItemView| i is Host),
            forall|k: int| 0 <= k < d ==> !wanted(#[trigger] ring[k]),
        decreases n - d,
    {
        let next: usize = if at == 0 {
            n - 1
        } else {
            at - 1
        };
        assert(next == (selected - 1 - d) % n as int) by {
            lemma_mod_step_back(selected as int, d as int, n as int);
        }
        assert(ring[d as int] == items@[next as int]@);
        if is_host_row(&items[next]) {
            proof {
                lemma_position_is(ring, wanted, d as int);
            }
            return next;
        }
        at = next;
        d = d + 1;
    }
    proof {
        lemma_position_none(ring, wanted);
    }
    selected
}

proof fn lemma_mod_step(s: int, d: int, n: int)
    requires
        n > 0,
        s >= 0,
        d >= 0,
    ensures
        (s + 1 + d) % n == (if (s + d) % n + 1 < n {
            (s + d) % n + 1
        } else {
            0
        }),
{
    let q = (s + d) / n;
    let r = (s + d) % n;
    vstd::arithmetic::div_mod::lemma_fundamental_div_mod(s + d, n);
    vstd::arithmetic::mul::lemma_mul_is_commutative(n, q);
    if r + 1 < n {
        vstd::arithmetic::div_mod::lemma_fundamental_div_mod_converse(s + 1 + d, n, q, r + 1);
    } else {
        assert(s + 1 + d == (q + 1) * n) by (nonlinear_arith)
            requires
                s + d == q * n + r,
                r + 1 == n,
        ;
        vstd::arithmetic::div_mod::lemma_fundamental_div_mod_converse(s + 1 + d, n, q + 1, 0);
    }
}

proof fn lemma_mod_step_back(s: int, d: int, n: int)
    requires
        n > 0,
        0 <= s < n,
        d >= 0,
    ensures
        (s - 1 - d) % n == (if (s - d) % n == 0 {
            n - 1
        } else {
            (s - d) % n - 1
        }),
{
    let q = (s - d) / n;
    let r = (s - d) % n;
    vstd::arithmetic::div_mod::lemma_fundamental_div_mod(s - d, n);
    vstd::arithmetic::mul::lemma_mul_is_commutative(n, q);
    if r == 0 {
        assert(s - 1 - d == (q - 1) * n + (n - 1)) by (nonlinear_arith)
            requires
                s - d == q * n + r,
                r == 0,
        ;
        vstd::arithmetic::div_mod::lemma_fundamental_div_mod_converse(s - 1 - d, n, q - 1, n - 1);
    } else {
        assert(s - 1 - d == q * n + (r - 1)) by (nonlinear_arith)
            requires
                s - d == q * n + r,
        ;
        vstd::arithmetic::div_mod::lemma_fundamental_div_mod_converse(s - 1 - d, n, q, r - 1);
    }
}

// ---------------------------------------------------------------------------
// What the lists depend on
// ---------------------------------------------------------------------------

/// Whether two lists of hosts have the same aliases in the same groups.
pub open spec fn same_places(a: Seq<HostView>, b: Seq<HostView>) -> bool {
    a.len() == b.len() && forall|i: int|
        0 <= i < a.len() ==> (#[trigger] a[i]).alias == b[i].alias && a[i].group == b[i].group
}

proof fn lemma_places_filter(a: Seq<HostView>, b: Seq<HostView>, keep: spec_fn(HostView) -> bool)
    requires
        same_places(a, b),
        forall|x: HostView, y: HostView|
            #![trigger keep(x), keep(y)]
            x.alias == y.alias && x.group == y.group ==> keep(x) == keep(y),
    ensures
        aliases_of(a.filter(keep)) == aliases_of(b.filter(keep)),
        a.filter(keep).len() == b.filter(keep).len(),
    decreases a.len(),
{
    reveal(Seq::filter);
    if a.len() > 0 {
        let (x, y) = (a.drop_last(), b.drop_last());
        assert forall|i: int| 0 <= i < x.len() implies (#[trigger] x[i]).alias == y[i].alias
            && x[i].group == y[i].group by {
            assert(x[i] == a[i] && y[i] == b[i]);
        }
        lemma_places_filter(x, y, keep);
        assert(a[a.len() - 1].alias == b[b.len() - 1].alias);
        assert(keep(a.last()) == keep(b.last()));
        assert(aliases_of(x.filter(keep).push(a.last())) =~= aliases_of(x.filter(keep)).push(
            a.last().alias,
        ));
        assert(aliases_of(y.filter(keep).push(b.last())) =~= aliases_of(y.filter(keep)).push(
            b.last().alias,
        ));
    } else {
        assert(a =~= b);
    }
}

proof fn lemma_places_group_rows(a: ConfigView, b: ConfigView, names: Seq<Seq<char>>)
    requires
        same_places(a.hosts, b.hosts),
    ensures
        group_rows(a, names) == group_rows(b, names),
    decreases names.len(),
{
    if names.len() > 0 {
        lemma_places_group_rows(a, b, names.drop_last());
        lemma_places_filter(a.hosts, b.hosts, |h: HostView| h.group == Some(names.last()));
    }
}

proof fn lemma_places_scored(a: Seq<HostView>, b: Seq<HostView>, query: Seq<char>)
    requires
        same_places(a, b),
    ensures
        scored_hosts(a, query) == scored_hosts(b, query),
    decreases a.len(),
{
    if a.len() > 0 {
        let (x, y) = (a.drop_last(), b.drop_last());
        assert forall|i: int| 0 <= i < x.len() implies (#[trigger] x[i]).alias == y[i].alias
            && x[i].group == y[i].group by {
            assert(x[i] == a[i] && y[i] == b[i]);
        }
        lemma_places_scored(x, y, query);
        assert(a[a.len() - 1].alias == b[b.len() - 1].alias);
    }
}

/// The lists depend on the groups and on the aliases and groups of the hosts
/// alone: other changes to a host leave them as they are.
pub proof fn lemma_lists_depend_on_places(
    a: ConfigView,
    b: ConfigView,
    group_entries: Seq<GroupEntryView>,
    group_selected: int,
    search: Seq<char>,
)
    requires
        a.groups == b.groups,
        same_places(a.hosts, b.hosts),
        0 <= group_selected,
    ensures
        group_entries_of(a) == group_entries_of(b),
        items_of(a, group_entries, group_selected, search) == items_of(
            b,
            group_entries,
            group_selected,
            search,
        ),
{
    lemma_places_filter(a.hosts, b.hosts, |h: HostView| h.group is None);
    lemma_places_group_rows(a, b, sorted_texts(a.groups));
    lemma_places_scored(a.hosts, b.hosts, trim(search));
    if group_selected < group_entries.len() {
        if let GroupEntryView::Named(name) = group_entries[group_selected] {
            lemma_places_filter(a.hosts, b.hosts, |h: HostView| h.group == Some(name));
        }
    }
}

/// Every row of a host stands for a host of the configuration.
pub proof fn lemma_rows_are_hosts(hosts: Seq<HostView>, i: int)
    requires
        0 <= i < host_rows(hosts).len(),
    ensures
        host_rows(hosts)[i] is Host,
        exists|k: int| 0 <= k < hosts.len() && (#[trigger] hosts[k]).alias == host_rows(hosts)[i]->Host_0,
{
    let aliases = aliases_of(hosts);
    let sorted = sorted_texts(aliases);
    lemma_stable_sort_permutes(aliases, |a: Seq<char>, b: Seq<char>| text_le(a, b));
    let alias = sorted[i];
    assert(sorted.to_multiset().count(alias) > 0) by {
        broadcast use vstd::seq_lib::group_to_multiset_ensures;

        assert(sorted.contains(alias));
    }
    assert(aliases.contains(alias)) by {
        broadcast use vstd::seq_lib::group_to_multiset_ensures;

    }
    let k = choose|k: int| 0 <= k < aliases.len() && aliases[k] == alias;
    assert(hosts[k].alias == alias);
}

// ---------------------------------------------------------------------------
// What the lists show
// ---------------------------------------------------------------------------

proof fn lemma_sort_contains<T>(items: Seq<T>, le: spec_fn(T, T) -> bool, item: T)
    ensures
        stable_sort(items, le).contains(item) == items.contains(item),
{
    broadcast use vstd::seq_lib::group_to_multiset_ensures;

    lemma_stable_sort_permutes(items, le);
    let sorted = stable_sort(items, le);
    assert(sorted.contains(item) == (sorted.to_multiset().count(item) > 0));
    assert(items.contains(item) == (items.to_multiset().count(item) > 0));
}

/// A list of hosts shows exactly their aliases.
pub proof fn lemma_host_rows_show_aliases(hosts: Seq<HostView>, alias: Seq<char>)
    ensures
        host_rows(hosts).contains(ItemView::Host(alias)) <==> aliases_of(hosts).contains(alias),
        host_rows(hosts).len() == hosts.len(),
{
    let order = |a: Seq<char>, b: Seq<char>| text_le(a, b);
    let aliases = aliases_of(hosts);
    let sorted = sorted_texts(aliases);
    lemma_sort_contains(aliases, order, alias);
    lemma_stable_sort_permutes(aliases, order);
    let rows = host_rows(hosts);
    if rows.contains(ItemView::Host(alias)) {
        let i = choose|i: int| 0 <= i < rows.len() && rows[i] == ItemView::Host(alias);
        assert(sorted[i] == alias);
        assert(sorted.contains(alias));
    }
    if sorted.contains(alias) {
        let i = choose|i: int| 0 <= i < sorted.len() && sorted[i] == alias;
        assert(rows[i] == ItemView::Host(alias));
    }
}

proof fn lemma_scored_hosts(hosts: Seq<HostView>, query: Seq<char>, found: (Seq<char>, u32))
    ensures
        scored_hosts(hosts, query).contains(found) <==> (score_of(query, found.0) == Some(found.1)
            && aliases_of(hosts).contains(found.0)),
    decreases hosts.len(),
{
    let scored = scored_hosts(hosts, query);
    let aliases = aliases_of(hosts);
    if hosts.len() > 0 {
        let rest = hosts.drop_last();
        lemma_scored_hosts(rest, query, found);
        let last = hosts.last().alias;
        assert(aliases =~= aliases_of(rest).push(last));
        let before = scored_hosts(rest, query);
        assert(aliases.contains(found.0) <==> aliases_of(rest).contains(found.0) || found.0
            == last) by {
            if aliases.contains(found.0) {
                let i = choose|i: int| 0 <= i < aliases.len() && aliases[i] == found.0;
                if i < rest.len() {
                    assert(aliases_of(rest)[i] == found.0);
                }
            }
            if aliases_of(rest).contains(found.0) {
                let i = choose|i: int| 0 <= i < rest.len() && aliases_of(rest)[i] == found.0;
                assert(aliases[i] == found.0);
            }
            assert(aliases[aliases.len() - 1] == last);
        }
        if let Some(score) = score_of(query, last) {
            assert(scored == before.push((last, score)));
            if scored.contains(found) {
                let i = choose|i: int| 0 <= i < scored.len() && scored[i] == found;
                if i < before.len() {
                    assert(before[i] == found);
                }
            }
            if before.contains(found) {
                let i = choose|i: int| 0 <= i < before.len() && before[i] == found;
                assert(scored[i] == found);
            }
            assert(scored[scored.len() - 1] == (last, score));
        }
    }
}

/// A search shows exactly the hosts that match it.
pub proof fn lemma_search_shows_matches(config: ConfigView, query: Seq<char>, alias: Seq<char>)
    ensures
        found_rows(config, query).contains(ItemView::Host(alias)) <==> (aliases_of(
            config.hosts,
        ).contains(alias) && score_of(query, alias) is Some),
{
    let scored = scored_hosts(config.hosts, query);
    let ranked = stable_sort(scored, rank_order());
    let rows = found_rows(config, query);
    if rows.contains(ItemView::Host(alias)) {
        let i = choose|i: int| 0 <= i < rows.len() && rows[i] == ItemView::Host(alias);
        let found = ranked[i];
        assert(ranked.contains(found));
        lemma_sort_contains(scored, rank_order(), found);
        lemma_scored_hosts(config.hosts, query, found);
    }
    if aliases_of(config.hosts).contains(alias) && score_of(query, alias) is Some {
        let found = (alias, score_of(query, alias)->0);
        lemma_scored_hosts(config.hosts, query, found);
        lemma_sort_contains(scored, rank_order(), found);
        let i = choose|i: int| 0 <= i < ranked.len() && ranked[i] == found;
        assert(rows[i] == ItemView::Host(alias));
    }
}

/// The better score comes first, and then the alias: that is a preorder.
pub proof fn lemma_rank_order()
    ensures
        is_preorder(rank_order()),
{
    let le = rank_order();
    assert forall|a: (Seq<char>, u32), b: (Seq<char>, u32)| #[trigger] le(a, b) || le(b, a) by {
        lemma_text_le_total(a.0, b.0);
    }
    assert forall|a: (Seq<char>, u32), b: (Seq<char>, u32), c: (Seq<char>, u32)| #[trigger]
        le(a, b) && #[trigger] le(b, c) implies le(a, c) by {
        if text_le(a.0, b.0) && text_le(b.0, c.0) {
            lemma_text_le_transitive(a.0, b.0, c.0);
        }
    }
}

/// A search shows better matches before worse ones.
pub proof fn lemma_search_ranks_matches(config: ConfigView, query: Seq<char>, i: int, j: int)
    requires
        0 <= i < j < found_rows(config, query).len(),
    ensures
        found_rows(config, query)[i] is Host,
        found_rows(config, query)[j] is Host,
        score_of(query, found_rows(config, query)[i]->Host_0)->0 >= score_of(
            query,
            found_rows(config, query)[j]->Host_0,
        )->0,
{
    let scored = scored_hosts(config.hosts, query);
    let ranked = stable_sort(scored, rank_order());
    lemma_rank_order();
    lemma_stable_sort_sorts(scored, rank_order());
    assert(rank_order()(ranked[i], ranked[j]));
    assert(ranked.contains(ranked[i]) && ranked.contains(ranked[j]));
    lemma_sort_contains(scored, rank_order(), ranked[i]);
    lemma_sort_contains(scored, rank_order(), ranked[j]);
    lemma_scored_hosts(config.hosts, query, ranked[i]);
    lemma_scored_hosts(config.hosts, query, ranked[j]);
}

/// How many hosts some groups have together.
pub open spec fn members(hosts: Seq<HostView>, names: Seq<Seq<char>>) -> nat
    decreases names.len(),
{
    if names.len() == 0 {
        0
    } else {
        members(hosts, names.drop_last()) + hosts.filter(
            |h: HostView| h.group == Some(names.last()),
        ).len()
    }
}

proof fn lemma_members_push(hosts: Seq<HostView>, host: HostView, names: Seq<Seq<char>>)
    requires
        names.no_duplicates(),
    ensures
        members(hosts.push(host), names) == members(hosts, names) + if host.group is Some
            && names.contains(host.group->0) {
            1nat
        } else {
            0
        },
    decreases names.len(),
{
    if names.len() > 0 {
        let rest = names.drop_last();
        let last = names.last();
        lemma_members_push(hosts, host, rest);
        lemma_filter_push(hosts, host, |h: HostView| h.group == Some(last));
        if host.group is Some {
            let group = host.group->0;
            if rest.contains(group) {
                let i = choose|i: int| 0 <= i < rest.len() && rest[i] == group;
                assert(names[i] == group);
                assert(names[i] != names[names.len() - 1]);
            }
            if names.contains(group) && group != last {
                let i = choose|i: int| 0 <= i < names.len() && names[i] == group;
                assert(rest[i] == group);
            }
            if group == last {
                assert(names[names.len() - 1] == group);
            }
        }
    }
}

proof fn lemma_every_host_is_counted(hosts: Seq<HostView>, names: Seq<Seq<char>>)
    requires
        names.no_duplicates(),
        forall|i: int|
            0 <= i < hosts.len() && (#[trigger] hosts[i]).group is Some ==> names.contains(
                hosts[i].group->0,
            ),
    ensures
        members(hosts, names) + hosts.filter(|h: HostView| h.group is None).len() == hosts.len(),
    decreases hosts.len(),
{
    if hosts.len() == 0 {
        lemma_members_of_none(names);
        reveal(Seq::filter);
        assert(hosts =~= seq![]);
    } else {
        let rest = hosts.drop_last();
        let host = hosts.last();
        assert forall|i: int|
            0 <= i < rest.len() && (#[trigger] rest[i]).group is Some implies names.contains(
            rest[i].group->0,
        ) by {
            assert(rest[i] == hosts[i]);
        }
        lemma_every_host_is_counted(rest, names);
        lemma_members_push(rest, host, names);
        lemma_filter_push(rest, host, |h: HostView| h.group is None);
        assert(rest.push(host) =~= hosts);
        assert(hosts[hosts.len() - 1] == host);
    }
}

proof fn lemma_members_of_none(names: Seq<Seq<char>>)
    ensures
        members(seq![], names) == 0,
    decreases names.len(),
{
    reveal(Seq::filter);
    if names.len() > 0 {
        lemma_members_of_none(names.drop_last());
    }
}

proof fn lemma_group_rows_len(config: ConfigView, names: Seq<Seq<char>>)
    ensures
        group_rows(config, names).len() == names.len() + members(config.hosts, names),
    decreases names.len(),
{
    if names.len() > 0 {
        lemma_group_rows_len(config, names.drop_last());
        lemma_host_rows_show_aliases(config.hosts_in_group(names.last()), seq![]);
    }
}

proof fn lemma_sorted_names(names: Seq<Seq<char>>)
    requires
        names.no_duplicates(),
    ensures
        sorted_texts(names).no_duplicates(),
        sorted_texts(names).len() == names.len(),
{
    broadcast use vstd::seq_lib::group_to_multiset_ensures;

    let order = |a: Seq<char>, b: Seq<char>| text_le(a, b);
    let sorted = sorted_texts(names);
    lemma_stable_sort_permutes(names, order);
    names.lemma_multiset_has_no_duplicates();
    sorted.lemma_multiset_has_no_duplicates_conv();
}

/// The list of all hosts has one row for each host, one header for each group,
/// and one for the hosts without a group where there are any.
pub proof fn lemma_every_host_has_one_row(config: ConfigView)
    requires
        config.valid(),
    ensures
        all_rows(config).len() == config.hosts.len() + config.groups.len() + if config.ungrouped_hosts().len()
            > 0 {
            1nat
        } else {
            0
        },
{
    let names = sorted_texts(config.groups);
    lemma_sorted_names(config.groups);
    lemma_group_rows_len(config, names);
    assert forall|i: int|
        0 <= i < config.hosts.len() && (
        #[trigger] config.hosts[i]).group is Some implies names.contains(
        config.hosts[i].group->0,
    ) by {
        lemma_sort_contains(
            config.groups,
            |a: Seq<char>, b: Seq<char>| text_le(a, b),
            config.hosts[i].group->0,
        );
    }
    lemma_every_host_is_counted(config.hosts, names);
    lemma_host_rows_show_aliases(config.ungrouped_hosts(), seq![]);
}

proof fn lemma_group_rows_contain(config: ConfigView, names: Seq<Seq<char>>, host: HostView)
    requires
        config.hosts.contains(host),
        host.group is Some,
        names.contains(host.group->0),
    ensures
        group_rows(config, names).contains(ItemView::Host(host.alias)),
    decreases names.len(),
{
    let group = host.group->0;
    let rest = names.drop_last();
    let rows = group_rows(config, names);
    let before = group_rows(config, rest).push(ItemView::GroupHeader(names.last()));
    if names.last() == group {
        let own = config.hosts_in_group(group);
        lemma_filter_complete(config.hosts, |h: HostView| h.group == Some(group), host);
        let k = choose|k: int| 0 <= k < own.len() && own[k] == host;
        assert(aliases_of(own)[k] == host.alias);
        lemma_host_rows_show_aliases(own, host.alias);
        let i = choose|i: int|
            0 <= i < host_rows(own).len() && host_rows(own)[i] == ItemView::Host(host.alias);
        assert(rows[before.len() + i] == ItemView::Host(host.alias));
    } else {
        let k = choose|k: int| 0 <= k < names.len() && names[k] == group;
        assert(rest[k] == group);
        lemma_group_rows_contain(config, rest, host);
        let i = choose|i: int|
            0 <= i < group_rows(config, rest).len() && group_rows(config, rest)[i]
                == ItemView::Host(host.alias);
        assert(rows[i] == ItemView::Host(host.alias));
    }
}

/// The list of all hosts shows every host whose group exists, and every host
/// without a group.
pub proof fn lemma_every_host_is_listed(config: ConfigView, host: HostView)
    requires
        config.groups_exist(),
        config.hosts.contains(host),
    ensures
        all_rows(config).contains(ItemView::Host(host.alias)),
{
    let names = sorted_texts(config.groups);
    let grouped = group_rows(config, names);
    let rows = all_rows(config);
    let k = choose|k: int| 0 <= k < config.hosts.len() && config.hosts[k] == host;
    assert(config.hosts[k] == host);
    if host.group is Some {
        lemma_sort_contains(
            config.groups,
            |a: Seq<char>, b: Seq<char>| text_le(a, b),
            host.group->0,
        );
        lemma_group_rows_contain(config, names, host);
        let i = choose|i: int|
            0 <= i < grouped.len() && grouped[i] == ItemView::Host(host.alias);
        assert(rows[i] == ItemView::Host(host.alias));
    } else {
        let own = config.ungrouped_hosts();
        lemma_filter_complete(config.hosts, |h: HostView| h.group is None, host);
        let k = choose|k: int| 0 <= k < own.len() && own[k] == host;
        assert(aliases_of(own)[k] == host.alias);
        lemma_host_rows_show_aliases(own, host.alias);
        let i = choose|i: int|
            0 <= i < host_rows(own).len() && host_rows(own)[i] == ItemView::Host(host.alias);
        assert(rows[grouped.len() + 1 + i] == ItemView::Host(host.alias));
    }
}

// ---------------------------------------------------------------------------
// Which hosts are shown where
// ---------------------------------------------------------------------------

/// Whether there is a host with an alias in a group, or in none.
pub open spec fn is_member(config: ConfigView, alias: Seq<char>, group: Option<Seq<char>>) -> bool {
    exists|k: int|
        0 <= k < config.hosts.len() && (#[trigger] config.hosts[k]).alias == alias
            && config.hosts[k].group == group
}

/// Whether all rows from a position to before another are rows of hosts, with their
/// aliases in order.
pub open spec fn are_ordered_hosts(rows: Seq<ItemView>, from: int, to: int) -> bool {
    &&& forall|i: int| from <= i < to ==> (#[trigger] rows[i]) is Host
    &&& forall|i: int, j: int|
        from <= i < j < to ==> text_le(
            (#[trigger] rows[i])->Host_0,
            (#[trigger] rows[j])->Host_0,
        )
}

proof fn lemma_host_rows_in_order(hosts: Seq<HostView>)
    ensures
        are_ordered_hosts(host_rows(hosts), 0, host_rows(hosts).len() as int),
{
    let order = |a: Seq<char>, b: Seq<char>| text_le(a, b);
    let sorted = sorted_texts(aliases_of(hosts));
    crate::order::lemma_text_order_is_preorder();
    lemma_stable_sort_sorts(aliases_of(hosts), order);
    let rows = host_rows(hosts);
    assert forall|i: int, j: int| 0 <= i < j < rows.len() implies text_le(
        (#[trigger] rows[i])->Host_0,
        (#[trigger] rows[j])->Host_0,
    ) by {
        assert(order(sorted[i], sorted[j]));
    }
}

proof fn lemma_filtered_rows(
    config: ConfigView,
    group: Option<Seq<char>>,
    keep: spec_fn(HostView) -> bool,
    alias: Seq<char>,
)
    requires
        forall|h: HostView| #[trigger] keep(h) == (h.group == group),
    ensures
        host_rows(config.hosts.filter(keep)).contains(ItemView::Host(alias)) <==> is_member(
            config,
            alias,
            group,
        ),
{
    let own = config.hosts.filter(keep);
    lemma_host_rows_show_aliases(own, alias);
    crate::seqs::lemma_filter_sound(config.hosts, keep);
    if aliases_of(own).contains(alias) {
        let k = choose|k: int| 0 <= k < aliases_of(own).len() && aliases_of(own)[k] == alias;
        assert(keep(own[k]) && config.hosts.contains(own[k]));
        let at = choose|at: int| 0 <= at < config.hosts.len() && config.hosts[at] == own[k];
        assert(config.hosts[at].alias == alias);
    }
    if is_member(config, alias, group) {
        let k = choose|k: int|
            0 <= k < config.hosts.len() && (#[trigger] config.hosts[k]).alias == alias
                && config.hosts[k].group == group;
        lemma_filter_complete(config.hosts, keep, config.hosts[k]);
        let at = choose|at: int| 0 <= at < own.len() && own[at] == config.hosts[k];
        assert(aliases_of(own)[at] == alias);
    }
}

/// Where a group is selected and nothing is searched for, exactly the hosts of that
/// group are shown, by alias. The same holds of the hosts without a group.
pub proof fn lemma_group_shows_its_hosts(
    config: ConfigView,
    entries: Seq<GroupEntryView>,
    selected: int,
    search: Seq<char>,
    group: Option<Seq<char>>,
    alias: Seq<char>,
)
    requires
        trim(search).len() == 0,
        0 <= selected < entries.len(),
        entries[selected] == (match group {
            Some(name) => GroupEntryView::Named(name),
            None => GroupEntryView::Ungrouped,
        }),
    ensures
        ({
            let rows = items_of(config, entries, selected, search);
            &&& rows.contains(ItemView::Host(alias)) <==> is_member(config, alias, group)
            &&& are_ordered_hosts(rows, 0, rows.len() as int)
            &&& rows.len() <= config.hosts.len()
        }),
{
    match group {
        Some(name) => {
            let keep = |h: HostView| h.group == Some(name);
            lemma_filtered_rows(config, group, keep, alias);
            lemma_host_rows_in_order(config.hosts_in_group(name));
            lemma_host_rows_show_aliases(config.hosts_in_group(name), alias);
            crate::seqs::lemma_filter_sound(config.hosts, keep);
        },
        None => {
            let keep = |h: HostView| h.group is None;
            lemma_filtered_rows(config, group, keep, alias);
            lemma_host_rows_in_order(config.ungrouped_hosts());
            lemma_host_rows_show_aliases(config.ungrouped_hosts(), alias);
            crate::seqs::lemma_filter_sound(config.hosts, keep);
        },
    }
}

/// The group pane starts with the entry for all hosts. Then come the groups by name,
/// each that there is, and last the entry for hosts without a group, if there are
/// any.
pub proof fn lemma_group_pane(config: ConfigView, name: Seq<char>, i: int, j: int)
    ensures
        ({
            let entries = group_entries_of(config);
            let n = config.groups.len() as int;
            let rest = exists|k: int|
                0 <= k < config.hosts.len() && (#[trigger] config.hosts[k]).group is None;
            &&& entries.len() == 1 + n + (if rest {
                1int
            } else {
                0
            })
            &&& entries[0] is All
            &&& entries.contains(GroupEntryView::Named(name)) <==> config.groups.contains(name)
            &&& 1 <= i <= n ==> entries[i] is Named
            &&& 1 <= i < j <= n ==> text_le(entries[i]->Named_0, entries[j]->Named_0)
            &&& rest ==> entries[n + 1] is Ungrouped
        }),
{
    let order = |a: Seq<char>, b: Seq<char>| text_le(a, b);
    let sorted = sorted_texts(config.groups);
    crate::order::lemma_text_order_is_preorder();
    lemma_stable_sort_sorts(config.groups, order);
    lemma_stable_sort_permutes(config.groups, order);
    lemma_sort_contains(config.groups, order, name);
    let entries = group_entries_of(config);
    let n = config.groups.len() as int;
    if 1 <= i < j <= n {
        assert(order(sorted[i - 1], sorted[j - 1]));
    }
    if sorted.contains(name) {
        let k = choose|k: int| 0 <= k < sorted.len() && sorted[k] == name;
        assert(entries[k + 1] == GroupEntryView::Named(name));
    }
    if entries.contains(GroupEntryView::Named(name)) {
        let k = choose|k: int|
            0 <= k < entries.len() && entries[k] == GroupEntryView::Named(name);
        assert(sorted[k - 1] == name);
    }
    let none = |h: HostView| h.group is None;
    crate::seqs::lemma_filter_sound(config.hosts, none);
    let own = config.ungrouped_hosts();
    if own.len() > 0 {
        assert(none(own[0]) && config.hosts.contains(own[0]));
        let k = choose|k: int| 0 <= k < config.hosts.len() && config.hosts[k] == own[0];
        assert(config.hosts[k].group is None);
    }
    if exists|k: int| 0 <= k < config.hosts.len() && (#[trigger] config.hosts[k]).group is None {
        let k = choose|k: int|
            0 <= k < config.hosts.len() && (#[trigger] config.hosts[k]).group is None;
        lemma_filter_complete(config.hosts, none, config.hosts[k]);
    }
}

/// Whether a row stands under a header: the header comes before it, and no other one in
/// between.
pub open spec fn stands_under(rows: Seq<ItemView>, i: int, header: Seq<char>) -> bool {
    exists|h: int| #[trigger] is_header_of(rows, h, i, header)
}

/// Whether a row is the header of another.
pub open spec fn is_header_of(rows: Seq<ItemView>, h: int, i: int, header: Seq<char>) -> bool {
    &&& 0 <= h < i
    &&& rows[h] == ItemView::GroupHeader(header)
    &&& forall|k: int| h < k < i ==> (#[trigger] rows[k]) is Host
}

/// Whether every row of a host stands under the header of its group.
pub open spec fn rows_are_grouped(config: ConfigView, rows: Seq<ItemView>) -> bool {
    forall|i: int|
        0 <= i < rows.len() && (#[trigger] rows[i]) is Host ==> exists|group: Option<Seq<char>>|
            #[trigger] is_member(config, rows[i]->Host_0, group) && stands_under(
                rows,
                i,
                match group {
                    Some(name) => name,
                    None => "ungrouped"@,
                },
            )
}

proof fn lemma_section_is_grouped(
    config: ConfigView,
    before: Seq<ItemView>,
    group: Option<Seq<char>>,
    keep: spec_fn(HostView) -> bool,
)
    requires
        forall|h: HostView| #[trigger] keep(h) == (h.group == group),
        rows_are_grouped(config, before),
    ensures
        ({
            let header = match group {
                Some(name) => name,
                None => "ungrouped"@,
            };
            rows_are_grouped(
                config,
                before.push(ItemView::GroupHeader(header)) + host_rows(config.hosts.filter(keep)),
            )
        }),
{
    let header = match group {
        Some(name) => name,
        None => "ungrouped"@,
    };
    let own = host_rows(config.hosts.filter(keep));
    let rows = before.push(ItemView::GroupHeader(header)) + own;
    lemma_host_rows_in_order(config.hosts.filter(keep));
    assert forall|i: int| 0 <= i < rows.len() && (#[trigger] rows[i]) is Host implies exists|
        group: Option<Seq<char>>,
    | #[trigger]
        is_member(config, rows[i]->Host_0, group) && stands_under(
            rows,
            i,
            match group {
                Some(name) => name,
                None => "ungrouped"@,
            },
        ) by {
        if i < before.len() {
            assert(rows[i] == before[i]);
            let g = choose|g: Option<Seq<char>>| #[trigger]
                is_member(config, before[i]->Host_0, g) && stands_under(
                    before,
                    i,
                    match g {
                        Some(name) => name,
                        None => "ungrouped"@,
                    },
                );
            let title = match g {
                Some(name) => name,
                None => "ungrouped"@,
            };
            let h = choose|h: int| #[trigger] is_header_of(before, h, i, title);
            assert forall|k: int| h < k < i implies (#[trigger] rows[k]) is Host by {
                assert(before[k] is Host);
            }
            assert(is_header_of(rows, h, i, title));
            assert(is_member(config, rows[i]->Host_0, g));
        } else {
            let at = i - before.len() - 1;
            assert(rows[i] == own[at]);
            assert(own.contains(own[at]));
            lemma_filtered_rows(config, group, keep, own[at]->Host_0);
            assert forall|k: int| before.len() < k < i implies (#[trigger] rows[k]) is Host by {
                assert(own[k - before.len() - 1] is Host);
            }
            assert(is_header_of(rows, before.len() as int, i, header));
            assert(is_member(config, rows[i]->Host_0, group));
        }
    }
}

proof fn lemma_group_rows_are_grouped(config: ConfigView, names: Seq<Seq<char>>)
    ensures
        rows_are_grouped(config, group_rows(config, names)),
    decreases names.len(),
{
    if names.len() > 0 {
        let name = names.last();
        lemma_group_rows_are_grouped(config, names.drop_last());
        lemma_section_is_grouped(
            config,
            group_rows(config, names.drop_last()),
            Some(name),
            |h: HostView| h.group == Some(name),
        );
    }
}

/// Where all hosts are shown, each stands under the header of its group, and those
/// without one under a header of their own.
pub proof fn lemma_hosts_stand_under_their_group(
    config: ConfigView,
    entries: Seq<GroupEntryView>,
    selected: int,
    search: Seq<char>,
)
    requires
        trim(search).len() == 0,
        0 <= selected < entries.len(),
        entries[selected] is All,
    ensures
        rows_are_grouped(config, items_of(config, entries, selected, search)),
        config.groups_exist() ==> forall|k: int|
            0 <= k < config.hosts.len() ==> items_of(config, entries, selected, search).contains(
                ItemView::Host((#[trigger] config.hosts[k]).alias),
            ),
{
    let names = sorted_texts(config.groups);
    lemma_group_rows_are_grouped(config, names);
    lemma_section_is_grouped(
        config,
        group_rows(config, names),
        None,
        |h: HostView| h.group is None,
    );
    if config.groups_exist() {
        assert forall|k: int| 0 <= k < config.hosts.len() implies all_rows(config).contains(
            ItemView::Host((#[trigger] config.hosts[k]).alias),
        ) by {
            assert(config.hosts.contains(config.hosts[k]));
            lemma_every_host_is_listed(config, config.hosts[k]);
        }
    }
}

/// Whatever is selected, a search shows the hosts that match, from all groups, the
/// better matches first and equal ones by alias.
pub proof fn lemma_search_shows_hosts(
    config: ConfigView,
    entries: Seq<GroupEntryView>,
    selected: int,
    search: Seq<char>,
    alias: Seq<char>,
    i: int,
    j: int,
)
    requires
        trim(search).len() > 0,
    ensures
        ({
            let rows = items_of(config, entries, selected, search);
            let query = trim(search);
            &&& rows.contains(ItemView::Host(alias)) <==> (exists|k: int|
                0 <= k < config.hosts.len() && (#[trigger] config.hosts[k]).alias == alias)
                && score_of(query, alias) is Some
            &&& 0 <= i < rows.len() ==> rows[i] is Host
            &&& 0 <= i < j < rows.len() ==> {
                let (a, b) = (rows[i]->Host_0, rows[j]->Host_0);
                let (x, y) = (score_of(query, a)->0, score_of(query, b)->0);
                x > y || x == y && text_le(a, b)
            }
        }),
{
    let query = trim(search);
    lemma_search_shows_matches(config, query, alias);
    let aliases = aliases_of(config.hosts);
    if aliases.contains(alias) {
        let k = choose|k: int| 0 <= k < aliases.len() && aliases[k] == alias;
        assert(config.hosts[k].alias == alias);
    }
    if exists|k: int| 0 <= k < config.hosts.len() && (#[trigger] config.hosts[k]).alias == alias {
        let k = choose|k: int|
            0 <= k < config.hosts.len() && (#[trigger] config.hosts[k]).alias == alias;
        assert(aliases[k] == alias);
    }
    let scored = scored_hosts(config.hosts, query);
    let ranked = stable_sort(scored, rank_order());
    let rows = found_rows(config, query);
    if 0 <= i < j < rows.len() {
        lemma_rank_order();
        lemma_stable_sort_sorts(scored, rank_order());
        assert(rank_order()(ranked[i], ranked[j]));
        assert(ranked.contains(ranked[i]) && ranked.contains(ranked[j]));
        lemma_sort_contains(scored, rank_order(), ranked[i]);
        lemma_sort_contains(scored, rank_order(), ranked[j]);
        lemma_scored_hosts(config.hosts, query, ranked[i]);
        lemma_scored_hosts(config.hosts, query, ranked[j]);
    }
}

/// Moving down leads to the nearest row of a host further down, around the end, and
/// moving up to the nearest one further up, around the start.
pub proof fn lemma_moves_to_nearest_host(items: Seq<ItemView>, selected: int, host: int, e: int)
    requires
        0 <= selected < items.len(),
        0 <= host < items.len(),
        items[host] is Host,
    ensures
        ({
            let n = items.len() as int;
            let next = next_host_row(items, selected);
            let prev = prev_host_row(items, selected);
            &&& 0 <= next < n && items[next] is Host
            &&& 0 <= prev < n && items[prev] is Host
            &&& next > selected ==> (selected < e < next ==> !(items[e] is Host))
            &&& next <= selected ==> (selected < e < n || 0 <= e < next ==> !(items[e] is Host))
            &&& prev < selected ==> (prev < e < selected ==> !(items[e] is Host))
            &&& prev >= selected ==> (0 <= e < selected || prev < e < n ==> !(items[e] is Host))
        }),
{
    let n = items.len() as int;
    let is_host = |i: ItemView| i is Host;
    let after = rows_after(items, selected);
    let before = rows_before(items, selected);
    // where the given host stands on both ways around
    let down = if host > selected {
        host - selected - 1
    } else {
        host - selected - 1 + n
    };
    let up = if host < selected {
        selected - 1 - host
    } else {
        selected - 1 - host + n
    };
    lemma_ring(selected + 1 + down, host, n);
    lemma_ring(selected - 1 - up, host, n);
    assert(after[down] == items[host]);
    assert(before[up] == items[host]);
    lemma_position(after, is_host);
    lemma_position(before, is_host);
    let d = position(after, is_host)->0;
    let u = position(before, is_host)->0;
    let next = next_host_row(items, selected);
    let prev = prev_host_row(items, selected);
    vstd::arithmetic::div_mod::lemma_mod_bound(selected + 1 + d, n);
    vstd::arithmetic::div_mod::lemma_mod_bound(selected - 1 - u, n);
    assert(items[next] == after[d]);
    assert(items[prev] == before[u]);
    if selected + 1 + d < n {
        lemma_ring(selected + 1 + d, selected + 1 + d, n);
    } else {
        lemma_ring(selected + 1 + d, selected + 1 + d - n, n);
    }
    if selected - 1 - u >= 0 {
        lemma_ring(selected - 1 - u, selected - 1 - u, n);
    } else {
        lemma_ring(selected - 1 - u, selected - 1 - u + n, n);
    }
    if selected < e < n {
        lemma_ring(selected + 1 + (e - selected - 1), e, n);
        assert(after[e - selected - 1] == items[e]);
        lemma_ring(selected - 1 - (selected - 1 - e + n), e, n);
        assert(before[selected - 1 - e + n] == items[e]);
    }
    if 0 <= e < selected {
        lemma_ring(selected + 1 + (e - selected - 1 + n), e, n);
        assert(after[e - selected - 1 + n] == items[e]);
        lemma_ring(selected - 1 - (selected - 1 - e), e, n);
        assert(before[selected - 1 - e] == items[e]);
    }
    if e == selected {
        lemma_ring(selected + 1 + (n - 1), e, n);
        assert(after[n - 1] == items[e]);
        lemma_ring(selected - 1 - (n - 1), e, n);
        assert(before[n - 1] == items[e]);
    }
}

proof fn lemma_ring(x: int, r: int, n: int)
    requires
        0 <= r < n,
        x == r || x == r + n || x == r - n,
    ensures
        x % n == r,
{
    vstd::arithmetic::div_mod::lemma_small_mod(r as nat, n as nat);
    vstd::arithmetic::div_mod::lemma_mod_add_multiples_vanish(r, n);
    vstd::arithmetic::div_mod::lemma_mod_sub_multiples_vanish(r, n);
}

/// The first row of a host is selected where rows are shown anew.
pub proof fn lemma_first_host_row(items: Seq<ItemView>, e: int)
    ensures
        0 <= e < items.len() && items[e] is Host ==> 0 <= first_host_row(items) <= e
            && items[first_host_row(items)] is Host,
        (forall|k: int| 0 <= k < items.len() ==> !((#[trigger] items[k]) is Host))
            ==> first_host_row(items) == 0,
{
    lemma_position(items, |i: ItemView| i is Host);
}

} // verus!
