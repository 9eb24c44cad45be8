//! Group rows: decoding a group, and folding the rows of a group/server join
//! into groups that carry their servers.
use vstd::prelude::*;
use crate::ids::{id_to_string, parse_id, uuid_parse, uuid_text};
use crate::ssh::dtos::CreateGroupDto;
use crate::ssh::domain::{group_views, server_views, Group, GroupView, Server, ServerView};

verus! {

/// The group columns of a row: `id`, `parent_id` and `name`, as stored.
pub struct GroupRow {
    pub id: String,
    pub parent_id: Option<String>,
    pub name: String,
}

/// A row of the join of groups with their servers. A group without servers
/// yields one row whose server columns read as the empty text and zero.
pub struct GroupServerRow {
    pub group: GroupRow,
    pub server_id: String,
    pub server_name: String,
    pub hostname: String,
    pub port: u32,
}

/// Every identifier that decoding a group row reads is valid.
pub open spec fn group_row_decodable(r: GroupRow) -> bool {
    &&& uuid_parse(r.id@) is Some
    &&& (r.parent_id matches Some(p) ==> uuid_parse(p@) is Some)
}

/// The group that a row describes, with no servers yet.
pub open spec fn group_of_row(r: GroupRow) -> GroupView {
    GroupView {
        id: uuid_parse(r.id@).unwrap(),
        parent_id: match r.parent_id {
            Some(p) => Some(uuid_parse(p@).unwrap()),
            None => None,
        },
        name: r.name@,
        group: None,
        servers: seq![],
    }
}

/// Decodes a group from its row.
pub fn group_from_row(row: &GroupRow) -> (g: Group)
    requires
        group_row_decodable(*row),
    ensures
        g@ == group_of_row(*row),
{
    let id = match parse_id(row.id.as_str()) {
        Some(x) => x,
        None => {
            proof { assert(false); }
            0
        },
    };
    let parent_id = match &row.parent_id {
        Some(p) => match parse_id(p.as_str()) {
            Some(x) => Some(x),
            None => {
                proof { assert(false); }
                None
            },
        },
        None => None,
    };
    let g = Group { id, parent_id, name: row.name.clone(), group: None, servers: Vec::new() };
    assert(g@.servers =~= seq![]);
    g
}

/// Decodes a group from its row, or `None` where an identifier in it is not valid.
pub fn try_group_from_row(row: &GroupRow) -> (g: Option<Group>)
    ensures
        g is Some <==> group_row_decodable(*row),
        g matches Some(x) ==> x@ == group_of_row(*row),
{
    let id_ok = parse_id(row.id.as_str()).is_some();
    let parent_ok = match &row.parent_id {
        Some(p) => parse_id(p.as_str()).is_some(),
        None => true,
    };
    if id_ok && parent_ok {
        Some(group_from_row(row))
    } else {
        None
    }
}

/// Where the fold over the rows of a join stands: the groups finished so far,
/// the servers seen since, and the group being filled.
pub struct Collect {
    pub done: Seq<GroupView>,
    pub pending: Seq<ServerView>,
    pub current: GroupView,
}

/// The fold starts with the nil group and nothing collected.
pub open spec fn collect_start() -> Collect {
    Collect {
        done: seq![],
        pending: seq![],
        current: GroupView { id: 0, parent_id: None, name: seq![], group: None, servers: seq![] },
    }
}

/// A row starts a new group when its group identifier differs, as text, from
/// the canonical text of the group being filled.
pub open spec fn starts_group(c: Collect, r: GroupServerRow) -> bool {
    r.group.id@ != uuid_text(c.current.id)
}

/// A row names a server when its server identifier is not empty.
pub open spec fn has_server(r: GroupServerRow) -> bool {
    r.server_id@.len() > 0
}

/// The server a row names, placed in the group with identifier `gid`.
pub open spec fn server_of_row(r: GroupServerRow, gid: u128) -> ServerView {
    ServerView {
        id: uuid_parse(r.server_id@).unwrap(),
        group_id: gid,
        name: r.server_name@,
        hostname: r.hostname@,
        port: r.port,
    }
}

/// `g` carrying the servers `s`.
pub open spec fn with_servers(g: GroupView, s: Seq<ServerView>) -> GroupView {
    GroupView { servers: s, ..g }
}

/// One row of the fold. A row that starts a group closes the group being
/// filled (kept only if its identifier is not nil, and then taking the
/// pending servers along); a row with a server adds it to the pending ones,
/// in the group being filled.
pub open spec fn collect_step(c: Collect, r: GroupServerRow) -> Collect {
    let c1 = if starts_group(c, r) {
        if c.current.id != 0 {
            Collect {
                done: c.done.push(with_servers(c.current, c.pending)),
                pending: seq![],
                current: group_of_row(r.group),
            }
        } else {
            Collect { current: group_of_row(r.group), ..c }
        }
    } else {
        c
    };
    if has_server(r) {
        Collect { pending: c1.pending.push(server_of_row(r, c1.current.id)), ..c1 }
    } else {
        c1
    }
}

/// The fold over a sequence of rows.
pub open spec fn collect(rows: Seq<GroupServerRow>) -> Collect
    decreases rows.len(),
{
    if rows.len() == 0 {
        collect_start()
    } else {
        collect_step(collect(rows.drop_last()), rows.last())
    }
}

/// The groups the fold yields: the finished ones and, unless it is nil, the
/// last one with the servers pending at the end.
pub open spec fn collect_finish(c: Collect) -> Seq<GroupView> {
    if c.current.id != 0 {
        c.done.push(with_servers(c.current, c.pending))
    } else {
        c.done
    }
}

/// The groups that a sequence of joined rows describes.
pub open spec fn grouped(rows: Seq<GroupServerRow>) -> Seq<GroupView> {
    collect_finish(collect(rows))
}

/// Every identifier that the fold reads at a row is valid: the group's where
/// the row starts a group, the server's where it has one.
pub open spec fn row_decodable_at(c: Collect, r: GroupServerRow) -> bool {
    &&& starts_group(c, r) ==> group_row_decodable(r.group)
    &&& has_server(r) ==> uuid_parse(r.server_id@) is Some
}

/// Every row is decodable where the fold reaches it.
pub open spec fn rows_decodable(rows: Seq<GroupServerRow>) -> bool {
    forall|i: int| 0 <= i < rows.len() ==> row_decodable_at(#[trigger] collect(rows.take(i)), rows[i])
}

/// Every identifier in every row is valid (a check that needs no fold).
pub open spec fn rows_all_valid(rows: Seq<GroupServerRow>) -> bool {
    forall|i: int|
        0 <= i < rows.len() ==> {
            &&& group_row_decodable(#[trigger] rows[i].group)
            &&& has_server(rows[i]) ==> uuid_parse(rows[i].server_id@) is Some
        }
}

proof fn lemma_take_step(rows: Seq<GroupServerRow>, i: int)
    requires
        0 <= i < rows.len(),
    ensures
        collect(rows.take(i + 1)) == collect_step(collect(rows.take(i)), rows[i]),
{
    assert(rows.take(i + 1).drop_last() =~= rows.take(i));
    assert(rows.take(i + 1).last() == rows[i]);
}

/// Folds the rows of a group/server join into groups, each with its servers.
pub fn groups_servers_from_row(rows: &Vec<GroupServerRow>) -> (res: Vec<Group>)
    requires
        rows_decodable(rows@),
    ensures
        group_views(res@) == grouped(rows@),
        canonical_group_ids(rows@) ==> group_views(res@) == zip_runs(run_groups(rows@), run_servers(rows@)),
{
    proof {
        if canonical_group_ids(rows@) {
            lemma_grouped_zip(rows@);
        }
    }
    let mut res: Vec<Group> = Vec::new();
    let mut servers: Vec<Server> = Vec::new();
    let mut last_group = Group::empty();
    let mut i: usize = 0;
    assert(rows@.take(0) =~= seq![]);
    assert(group_views(res@) =~= seq![]);
    assert(server_views(servers@) =~= seq![]);
    assert(collect(rows@.take(0)) == collect_start());
    while i < rows.len()
        invariant
            i <= rows.len(),
            rows_decodable(rows@),
            last_group@.servers == Seq::<ServerView>::empty(),
            last_group@.group is None,
            (Collect { done: group_views(res@), pending: server_views(servers@), current: last_group@ })
                == collect(rows@.take(i as int)),
        decreases rows.len() - i,
    {
        let row = &rows[i];
        let ghost c = collect(rows@.take(i as int));
        proof {
            lemma_take_step(rows@, i as int);
            assert(row_decodable_at(collect(rows@.take(i as int)), rows@[i as int]));
        }
        let last_text = id_to_string(last_group.id);
        if row.group.id != last_text {
            let mut g = group_from_row(&row.group);
            std::mem::swap(&mut g, &mut last_group);
            if g.id != 0 {
                let mut pending: Vec<Server> = Vec::new();
                std::mem::swap(&mut pending, &mut servers);
                g.servers = pending;
                let ghost before = res@;
                res.push(g);
                proof {
                    assert(group_views(res@) =~= group_views(before).push(g@));
                    assert(g@ == with_servers(c.current, c.pending));
                    assert(server_views(servers@) =~= seq![]);
                }
            }
        }
        if !row.server_id.as_str().is_empty() {
            let sid = match parse_id(row.server_id.as_str()) {
                Some(x) => x,
                None => {
                    proof { assert(false); }
                    0
                },
            };
            let s = Server {
                id: sid,
                group_id: last_group.id,
                name: row.server_name.clone(),
                hostname: row.hostname.clone(),
                port: row.port,
            };
            let ghost before = servers@;
            servers.push(s);
            proof {
                assert(server_views(servers@) =~= server_views(before).push(s@));
            }
        }
        i = i + 1;
    }
    assert(rows@.take(rows.len() as int) =~= rows@);
    if last_group.id != 0 {
        last_group.servers = servers;
        let ghost before = res@;
        res.push(last_group);
        proof {
            assert(group_views(res@) =~= group_views(before).push(last_group@));
        }
    }
    res
}


/// A row's group identifier is the canonical text of a non-nil identifier.
pub open spec fn canonical_group_id(r: GroupServerRow) -> bool {
    &&& uuid_parse(r.group.id@) matches Some(x)
    &&& x != 0
    &&& r.group.id@ == uuid_text(x)
}

/// Every row's group identifier is canonical and not nil, as the identifiers
/// that this library writes are.
pub open spec fn canonical_group_ids(rows: Seq<GroupServerRow>) -> bool {
    forall|i: int| 0 <= i < rows.len() ==> #[trigger] canonical_group_id(rows[i])
}

/// The group identifier a row carries.
pub open spec fn row_group(r: GroupServerRow) -> u128 {
    uuid_parse(r.group.id@).unwrap()
}

/// The servers of a list of groups, one group after another.
pub open spec fn all_servers(gs: Seq<GroupView>) -> Seq<ServerView>
    decreases gs.len(),
{
    if gs.len() == 0 {
        seq![]
    } else {
        all_servers(gs.drop_last()) + gs.last().servers
    }
}

/// The servers that the rows name, in row order, each in its row's group.
pub open spec fn row_servers(rows: Seq<GroupServerRow>) -> Seq<ServerView>
    decreases rows.len(),
{
    if rows.len() == 0 {
        seq![]
    } else if has_server(rows.last()) {
        row_servers(rows.drop_last()).push(server_of_row(rows.last(), row_group(rows.last())))
    } else {
        row_servers(rows.drop_last())
    }
}

/// The rows' group identifiers, each run of equal neighbours counted once.
pub open spec fn group_runs(rows: Seq<GroupServerRow>) -> Seq<u128>
    decreases rows.len(),
{
    if rows.len() == 0 {
        seq![]
    } else if rows.len() >= 2 && row_group(rows.last()) == row_group(rows[rows.len() - 2]) {
        group_runs(rows.drop_last())
    } else {
        group_runs(rows.drop_last()).push(row_group(rows.last()))
    }
}

/// For each run of rows with the same group identifier, the group that the
/// run's first row describes.
pub open spec fn run_groups(rows: Seq<GroupServerRow>) -> Seq<GroupView>
    decreases rows.len(),
{
    if rows.len() == 0 {
        seq![]
    } else if rows.len() >= 2 && row_group(rows.last()) == row_group(rows[rows.len() - 2]) {
        run_groups(rows.drop_last())
    } else {
        run_groups(rows.drop_last()).push(group_of_row(rows.last().group))
    }
}

/// The server a row names, as a sequence of at most one element.
pub open spec fn row_server_seq(r: GroupServerRow) -> Seq<ServerView> {
    if has_server(r) { seq![server_of_row(r, row_group(r))] } else { seq![] }
}

/// For each run of rows with the same group identifier, the servers that the
/// run's rows name, in row order.
pub open spec fn run_servers(rows: Seq<GroupServerRow>) -> Seq<Seq<ServerView>>
    decreases rows.len(),
{
    if rows.len() == 0 {
        seq![]
    } else if rows.len() >= 2 && row_group(rows.last()) == row_group(rows[rows.len() - 2]) {
        let prev = run_servers(rows.drop_last());
        prev.drop_last().push(prev.last() + row_server_seq(rows.last()))
    } else {
        run_servers(rows.drop_last()).push(row_server_seq(rows.last()))
    }
}

/// The servers of each group of a list.
pub open spec fn server_lists(gs: Seq<GroupView>) -> Seq<Seq<ServerView>> {
    gs.map_values(|g: GroupView| g.servers)
}

/// A group with its servers left out.
pub open spec fn without_servers(g: GroupView) -> GroupView {
    with_servers(g, seq![])
}

/// The groups of a list, with their servers left out.
pub open spec fn groups_without_servers(gs: Seq<GroupView>) -> Seq<GroupView> {
    gs.map_values(|g: GroupView| without_servers(g))
}

/// The identifiers of a list of groups.
pub open spec fn group_ids(gs: Seq<GroupView>) -> Seq<u128> {
    gs.map_values(|g: GroupView| g.id)
}

/// Every server in `g` belongs to `g`.
pub open spec fn servers_belong(g: GroupView) -> bool {
    forall|k: int| 0 <= k < g.servers.len() ==> (#[trigger] g.servers[k]).group_id == g.id
}

proof fn lemma_collect_done_not_nil(rows: Seq<GroupServerRow>)
    ensures
        forall|k: int| 0 <= k < collect(rows).done.len() ==> (#[trigger] collect(rows).done[k]).id != 0,
    decreases rows.len(),
{
    if rows.len() > 0 {
        lemma_collect_done_not_nil(rows.drop_last());
    }
}

proof fn lemma_collect_canonical(rows: Seq<GroupServerRow>)
    requires
        rows.len() > 0,
        canonical_group_ids(rows),
    ensures
        collect(rows).current.id == row_group(rows.last()),
        collect(rows).current.id != 0,
        collect(rows).current.servers == Seq::<ServerView>::empty(),
        all_servers(collect(rows).done) + collect(rows).pending == row_servers(rows),
        group_ids(collect(rows).done).push(collect(rows).current.id) == group_runs(rows),
        groups_without_servers(collect(rows).done).push(collect(rows).current) == run_groups(rows),
        server_lists(collect(rows).done).push(collect(rows).pending) == run_servers(rows),
        forall|k: int| 0 <= k < collect(rows).done.len() ==> servers_belong(#[trigger] collect(rows).done[k]),
        forall|k: int| 0 <= k < collect(rows).pending.len() ==>
            (#[trigger] collect(rows).pending[k]).group_id == collect(rows).current.id,
    decreases rows.len(),
{
    let r = rows.last();
    let prev = rows.drop_last();
    assert(canonical_group_id(rows[rows.len() - 1]));
    let x = row_group(r);
    if prev.len() == 0 {
        let c0 = collect_start();
        assert(collect(prev) == c0);
        if r.group.id@ == uuid_text(0) {
            crate::ids::lemma_uuid_text_injective(x, 0);
        }
        assert(starts_group(c0, r));
        assert(all_servers(c0.done) == Seq::<ServerView>::empty());
        assert(row_servers(prev) == Seq::<ServerView>::empty());
        assert(group_runs(prev) == Seq::<u128>::empty());
        assert(all_servers(collect(rows).done) + collect(rows).pending =~= row_servers(rows));
        assert(group_ids(collect(rows).done).push(collect(rows).current.id) =~= group_runs(rows));
        assert(run_groups(prev) == Seq::<GroupView>::empty());
        assert(groups_without_servers(collect(rows).done).push(collect(rows).current) =~= run_groups(rows));
        assert(run_servers(prev) == Seq::<Seq<ServerView>>::empty());
        assert(collect(rows).pending =~= row_server_seq(r));
        assert(server_lists(collect(rows).done).push(collect(rows).pending) =~= run_servers(rows));
    } else {
        assert forall|i: int| 0 <= i < prev.len() implies #[trigger] canonical_group_id(prev[i]) by {
            assert(prev[i] == rows[i]);
        }
        lemma_collect_canonical(prev);
        let c = collect(prev);
        let p = c.current.id;
        assert(rows[rows.len() - 2] == prev.last());
        if x == p {
            assert(!starts_group(c, r));
            assert(all_servers(collect(rows).done) + collect(rows).pending =~= row_servers(rows));
            assert(groups_without_servers(collect(rows).done).push(collect(rows).current) =~= run_groups(rows));
            assert(collect(rows).pending =~= c.pending + row_server_seq(r));
            assert(run_servers(prev).last() == c.pending);
            assert(server_lists(collect(rows).done).push(collect(rows).pending) =~= run_servers(rows));
        } else {
            if r.group.id@ == uuid_text(p) {
                crate::ids::lemma_uuid_text_injective(x, p);
            }
            assert(starts_group(c, r));
            let closed = with_servers(c.current, c.pending);
            assert(collect(rows).done == c.done.push(closed));
            assert(collect(rows).done.drop_last() =~= c.done);
            assert(all_servers(c.done.push(closed)) == all_servers(c.done) + c.pending);
            assert(all_servers(collect(rows).done) + collect(rows).pending =~= row_servers(rows));
            assert(group_ids(c.done.push(closed)) =~= group_ids(c.done).push(p));
            assert(group_ids(collect(rows).done).push(collect(rows).current.id) =~= group_runs(rows));
            assert(without_servers(closed) == c.current);
            assert(groups_without_servers(c.done.push(closed)) =~= groups_without_servers(c.done).push(c.current));
            assert(groups_without_servers(collect(rows).done).push(collect(rows).current) =~= run_groups(rows));
            assert(server_lists(c.done.push(closed)) =~= server_lists(c.done).push(c.pending));
            assert(collect(rows).pending =~= row_server_seq(r));
            assert(server_lists(collect(rows).done).push(collect(rows).pending) =~= run_servers(rows));
            assert forall|k: int| 0 <= k < collect(rows).done.len() implies servers_belong(
                #[trigger] collect(rows).done[k],
            ) by {
                if k == c.done.len() {
                    assert(collect(rows).done[k] == closed);
                } else {
                    assert(collect(rows).done[k] == c.done[k]);
                }
            }
        }
    }
}

/// No group that the fold yields has the nil identifier.
pub proof fn lemma_grouped_not_nil(rows: Seq<GroupServerRow>)
    ensures
        forall|k: int| 0 <= k < grouped(rows).len() ==> (#[trigger] grouped(rows)[k]).id != 0,
{
    lemma_collect_done_not_nil(rows);
    let c = collect(rows);
    assert forall|k: int| 0 <= k < grouped(rows).len() implies (#[trigger] grouped(rows)[k]).id != 0 by {
        if k < c.done.len() {
            assert(grouped(rows)[k] == c.done[k]);
        }
    }
}

/// When the rows carry canonical group identifiers, the fold keeps every
/// server that the rows name, once and in row order, each in its row's group.
pub proof fn lemma_grouped_keeps_servers(rows: Seq<GroupServerRow>)
    requires
        canonical_group_ids(rows),
    ensures
        all_servers(grouped(rows)) == row_servers(rows),
        forall|k: int| 0 <= k < grouped(rows).len() ==> servers_belong(#[trigger] grouped(rows)[k]),
{
    if rows.len() > 0 {
        lemma_collect_canonical(rows);
        let c = collect(rows);
        let last = with_servers(c.current, c.pending);
        assert(grouped(rows) == c.done.push(last));
        assert(grouped(rows).drop_last() =~= c.done);
        assert forall|k: int| 0 <= k < grouped(rows).len() implies servers_belong(#[trigger] grouped(rows)[k]) by {
            if k < c.done.len() {
                assert(grouped(rows)[k] == c.done[k]);
            }
        }
    } else {
        assert(all_servers(grouped(rows)) =~= row_servers(rows));
    }
}

/// When the rows carry canonical group identifiers, the fold yields one group
/// per run of rows with the same group identifier, in row order.
pub proof fn lemma_grouped_one_per_run(rows: Seq<GroupServerRow>)
    requires
        canonical_group_ids(rows),
    ensures
        group_ids(grouped(rows)) == group_runs(rows),
{
    if rows.len() > 0 {
        lemma_collect_canonical(rows);
        let c = collect(rows);
        let last = with_servers(c.current, c.pending);
        assert(group_ids(c.done.push(last)) =~= group_ids(c.done).push(c.current.id));
    } else {
        assert(group_ids(grouped(rows)) =~= group_runs(rows));
    }
}

/// When the rows carry canonical group identifiers, each group that the fold
/// yields is the group that the first row of its run describes (identifier,
/// parent and name), with the run's servers.
pub proof fn lemma_grouped_run_heads(rows: Seq<GroupServerRow>)
    requires
        canonical_group_ids(rows),
    ensures
        groups_without_servers(grouped(rows)) == run_groups(rows),
{
    if rows.len() > 0 {
        lemma_collect_canonical(rows);
        let c = collect(rows);
        let last = with_servers(c.current, c.pending);
        assert(without_servers(last) == c.current);
        assert(groups_without_servers(c.done.push(last)) =~= groups_without_servers(c.done).push(c.current));
    } else {
        assert(groups_without_servers(grouped(rows)) =~= run_groups(rows));
    }
}


/// When the rows carry canonical group identifiers, the servers of each group
/// that the fold yields are exactly the servers named by the rows of its run,
/// in row order.
pub proof fn lemma_grouped_run_servers(rows: Seq<GroupServerRow>)
    requires
        canonical_group_ids(rows),
    ensures
        server_lists(grouped(rows)) == run_servers(rows),
{
    if rows.len() > 0 {
        lemma_collect_canonical(rows);
        let c = collect(rows);
        let last = with_servers(c.current, c.pending);
        assert(server_lists(c.done.push(last)) =~= server_lists(c.done).push(c.pending));
    } else {
        assert(server_lists(grouped(rows)) =~= run_servers(rows));
    }
}


/// The groups built from the runs: each run's first-row group with the run's servers.
pub open spec fn zip_runs(gs: Seq<GroupView>, ss: Seq<Seq<ServerView>>) -> Seq<GroupView> {
    Seq::new(gs.len(), |k: int| with_servers(gs[k], ss[k]))
}

proof fn lemma_run_lengths(rows: Seq<GroupServerRow>)
    ensures
        run_groups(rows).len() == run_servers(rows).len(),
        run_groups(rows).len() == group_runs(rows).len(),
        rows.len() > 0 ==> run_groups(rows).len() > 0,
    decreases rows.len(),
{
    if rows.len() > 0 {
        lemma_run_lengths(rows.drop_last());
    }
}

proof fn lemma_grouped_zip(rows: Seq<GroupServerRow>)
    requires
        canonical_group_ids(rows),
    ensures
        grouped(rows) == zip_runs(run_groups(rows), run_servers(rows)),
{
    lemma_grouped_run_heads(rows);
    lemma_grouped_run_servers(rows);
    lemma_run_lengths(rows);
    let g = grouped(rows);
    assert(groups_without_servers(g).len() == g.len());
    assert forall|k: int| 0 <= k < g.len() implies #[trigger] g[k] == with_servers(
        run_groups(rows)[k],
        run_servers(rows)[k],
    ) by {
        assert(groups_without_servers(g)[k] == without_servers(g[k]));
        assert(server_lists(g)[k] == g[k].servers);
    }
    assert(g =~= zip_runs(run_groups(rows), run_servers(rows)));
}

/// The last row of `r1` and the first of `r2`, where both exist, carry
/// different group identifiers.
pub open spec fn boundary_differs(r1: Seq<GroupServerRow>, r2: Seq<GroupServerRow>) -> bool {
    r1.len() == 0 || r2.len() == 0 || row_group(r1.last()) != row_group(r2[0])
}

proof fn lemma_runs_concat(r1: Seq<GroupServerRow>, r2: Seq<GroupServerRow>)
    requires
        boundary_differs(r1, r2),
    ensures
        run_groups(r1 + r2) == run_groups(r1) + run_groups(r2),
        run_servers(r1 + r2) == run_servers(r1) + run_servers(r2),
        group_runs(r1 + r2) == group_runs(r1) + group_runs(r2),
    decreases r2.len(),
{
    if r2.len() == 0 {
        assert(r1 + r2 =~= r1);
        assert(run_groups(r1) + run_groups(r2) =~= run_groups(r1));
        assert(run_servers(r1) + run_servers(r2) =~= run_servers(r1));
        assert(group_runs(r1) + group_runs(r2) =~= group_runs(r1));
    } else if r1.len() == 0 {
        assert(r1 + r2 =~= r2);
        assert(run_groups(r1) + run_groups(r2) =~= run_groups(r2));
        assert(run_servers(r1) + run_servers(r2) =~= run_servers(r2));
        assert(group_runs(r1) + group_runs(r2) =~= group_runs(r2));
    } else {
        let x = r2.last();
        let r2p = r2.drop_last();
        let all = r1 + r2;
        assert(all.drop_last() =~= r1 + r2p);
        assert(all.last() == x);
        lemma_runs_concat(r1, r2p);
        lemma_run_lengths(r2p);
        lemma_run_lengths(r1);
        if r2p.len() > 0 {
            assert(all[all.len() - 2] == r2[r2.len() - 2]);
            assert(r2p[0] == r2[0]);
        } else {
            assert(all[all.len() - 2] == r1.last());
            assert(r2[0] == x);
        }
        let rs1 = run_servers(r1);
        let rs2p = run_servers(r2p);
        if r2p.len() > 0 {
            assert((rs1 + rs2p).drop_last() =~= rs1 + rs2p.drop_last());
            assert((rs1 + rs2p).last() == rs2p.last());
        }
        assert(run_groups(all) =~= run_groups(r1) + run_groups(r2));
        assert(run_servers(all) =~= run_servers(r1) + run_servers(r2));
        assert(group_runs(all) =~= group_runs(r1) + group_runs(r2));
    }
}

/// When two row lists carry canonical group identifiers and do not continue
/// one run across their boundary, folding them one after the other gives the
/// two folds one after the other (and no rows give no groups).
pub proof fn lemma_grouped_concat(r1: Seq<GroupServerRow>, r2: Seq<GroupServerRow>)
    requires
        canonical_group_ids(r1),
        canonical_group_ids(r2),
        boundary_differs(r1, r2),
    ensures
        grouped(r1 + r2) == grouped(r1) + grouped(r2),
        grouped(Seq::<GroupServerRow>::empty()) == Seq::<GroupView>::empty(),
{
    let all = r1 + r2;
    assert forall|i: int| 0 <= i < all.len() implies #[trigger] canonical_group_id(all[i]) by {
        if i < r1.len() {
            assert(all[i] == r1[i]);
        } else {
            assert(all[i] == r2[i - r1.len()]);
        }
    }
    lemma_grouped_zip(r1);
    lemma_grouped_zip(r2);
    lemma_grouped_zip(all);
    lemma_runs_concat(r1, r2);
    lemma_run_lengths(r1);
    lemma_run_lengths(r2);
    assert(zip_runs(run_groups(all), run_servers(all)) =~= zip_runs(run_groups(r1), run_servers(r1)) + zip_runs(
        run_groups(r2),
        run_servers(r2),
    ));
    assert(grouped(Seq::<GroupServerRow>::empty()) =~= Seq::<GroupView>::empty());
}

/// The group identifiers the rows carry, in row order.
pub open spec fn row_groups(rows: Seq<GroupServerRow>) -> Seq<u128> {
    rows.map_values(|r: GroupServerRow| row_group(r))
}

/// Rows with the same group identifier are adjacent.
pub open spec fn rows_contiguous(rows: Seq<GroupServerRow>) -> bool {
    forall|i: int, j: int, k: int|
        0 <= i < j < k < rows.len() && #[trigger] row_group(rows[i]) == #[trigger] row_group(rows[k])
            ==> #[trigger] row_group(rows[j]) == row_group(rows[i])
}

proof fn lemma_group_runs_members(rows: Seq<GroupServerRow>)
    ensures
        forall|x: u128| group_runs(rows).contains(x) <==> row_groups(rows).contains(x),
        rows_contiguous(rows) ==> group_runs(rows).no_duplicates(),
    decreases rows.len(),
{
    if rows.len() > 0 {
        let p = rows.drop_last();
        let g = row_group(rows.last());
        lemma_group_runs_members(p);
        assert(row_groups(rows) =~= row_groups(p).push(g));
        assert forall|i: int| 0 <= i < p.len() implies row_groups(p)[i] == row_group(rows[i]) by {
            assert(p[i] == rows[i]);
        }
        if rows.len() >= 2 && g == row_group(rows[rows.len() - 2]) {
            assert(row_groups(p)[p.len() - 1] == g);
            assert(group_runs(rows) == group_runs(p));
            assert forall|x: u128| group_runs(rows).contains(x) <==> row_groups(rows).contains(x) by {
                if row_groups(rows).contains(x) {
                    let i = choose|i: int| 0 <= i < row_groups(rows).len() && row_groups(rows)[i] == x;
                    if i < p.len() {
                        assert(row_groups(p)[i] == x);
                    } else {
                        assert(row_groups(p)[p.len() - 1] == x);
                    }
                    assert(row_groups(p).contains(x));
                }
                if group_runs(rows).contains(x) {
                    assert(row_groups(p).contains(x));
                    let i = choose|i: int| 0 <= i < row_groups(p).len() && row_groups(p)[i] == x;
                    assert(row_groups(rows)[i] == x);
                }
            }
            if rows_contiguous(rows) {
                assert forall|i: int, j: int, k: int|
                    0 <= i < j < k < p.len() && #[trigger] row_group(p[i]) == #[trigger] row_group(p[k])
                        implies #[trigger] row_group(p[j]) == row_group(p[i]) by {
                    assert(p[i] == rows[i] && p[j] == rows[j] && p[k] == rows[k]);
                }
            }
        } else {
            let gr = group_runs(p);
            assert(group_runs(rows) == gr.push(g));
            assert forall|x: u128| group_runs(rows).contains(x) <==> row_groups(rows).contains(x) by {
                assert(group_runs(rows)[gr.len() as int] == g);
                assert(row_groups(rows)[p.len() as int] == g);
                if group_runs(rows).contains(x) && x != g {
                    let i = choose|i: int| 0 <= i < group_runs(rows).len() && group_runs(rows)[i] == x;
                    assert(gr[i] == x);
                    assert(gr.contains(x));
                    assert(row_groups(p).contains(x));
                    let j = choose|j: int| 0 <= j < row_groups(p).len() && row_groups(p)[j] == x;
                    assert(row_groups(rows)[j] == x);
                }
                if row_groups(rows).contains(x) && x != g {
                    let i = choose|i: int| 0 <= i < row_groups(rows).len() && row_groups(rows)[i] == x;
                    assert(row_groups(p)[i] == x);
                    assert(row_groups(p).contains(x));
                    assert(gr.contains(x));
                    let j = choose|j: int| 0 <= j < gr.len() && gr[j] == x;
                    assert(group_runs(rows)[j] == x);
                }
            }
            if rows_contiguous(rows) {
                assert forall|i: int, j: int, k: int|
                    0 <= i < j < k < p.len() && #[trigger] row_group(p[i]) == #[trigger] row_group(p[k])
                        implies #[trigger] row_group(p[j]) == row_group(p[i]) by {
                    assert(p[i] == rows[i] && p[j] == rows[j] && p[k] == rows[k]);
                }
                if gr.contains(g) {
                    let i = choose|i: int| 0 <= i < row_groups(p).len() && row_groups(p)[i] == g;
                    let last = rows.len() - 1;
                    let prevj = rows.len() - 2;
                    assert(row_group(rows[i]) == g);
                    assert(row_group(rows[last]) == g);
                    if i < prevj {
                        assert(row_group(rows[prevj]) == row_group(rows[i]));
                    }
                    assert(false);
                }
                assert forall|a: int, b: int|
                    0 <= a < group_runs(rows).len() && 0 <= b < group_runs(rows).len() && a != b implies group_runs(
                    rows,
                )[a] != group_runs(rows)[b] by {
                    if a < gr.len() && b < gr.len() {
                        assert(gr[a] != gr[b]);
                    } else if a < gr.len() {
                        assert(gr.contains(gr[a]));
                    } else if b < gr.len() {
                        assert(gr.contains(gr[b]));
                    }
                }
            }
        }
    } else {
        assert(row_groups(rows) =~= Seq::<u128>::empty());
    }
}

/// When the rows carry canonical group identifiers and rows of the same group
/// are adjacent, the groups that the fold yields have pairwise distinct
/// identifiers, one for each distinct identifier in the rows, and each is the
/// identifier whose canonical text some row carries.
pub proof fn lemma_grouped_distinct(rows: Seq<GroupServerRow>)
    requires
        canonical_group_ids(rows),
        rows_contiguous(rows),
    ensures
        group_ids(grouped(rows)).no_duplicates(),
        forall|x: u128| group_ids(grouped(rows)).contains(x) <==> row_groups(rows).contains(x),
        grouped(rows).len() == row_groups(rows).to_set().len(),
        forall|k: int|
            0 <= k < grouped(rows).len() ==> exists|i: int|
                0 <= i < rows.len() && #[trigger] rows[i].group.id@ == uuid_text((#[trigger] grouped(rows)[k]).id),
{
    lemma_grouped_one_per_run(rows);
    lemma_group_runs_members(rows);
    let ids = group_ids(grouped(rows));
    assert(ids.to_set() =~= row_groups(rows).to_set()) by {
        assert forall|x: u128| ids.to_set().contains(x) <==> row_groups(rows).to_set().contains(x) by {
        }
    }
    ids.unique_seq_to_set();
    assert forall|k: int| 0 <= k < grouped(rows).len() implies exists|i: int|
        0 <= i < rows.len() && #[trigger] rows[i].group.id@ == uuid_text((#[trigger] grouped(rows)[k]).id) by {
        let x = grouped(rows)[k].id;
        assert(ids[k] == x);
        assert(row_groups(rows).contains(x));
        let i = choose|i: int| 0 <= i < row_groups(rows).len() && row_groups(rows)[i] == x;
        assert(canonical_group_id(rows[i]));
        assert(rows[i].group.id@ == uuid_text(x));
    }
}

/// Decodes the rows of a group/server join, or `None` where an identifier
/// in some row is not valid.
pub fn try_groups_servers_from_rows(rows: &Vec<GroupServerRow>) -> (res: Option<Vec<Group>>)
    ensures
        res is Some <==> rows_all_valid(rows@),
        res matches Some(gs) ==> group_views(gs@) == grouped(rows@),
{
    let mut i: usize = 0;
    while i < rows.len()
        invariant
            i <= rows.len(),
            forall|j: int|
                0 <= j < i ==> {
                    &&& group_row_decodable(#[trigger] rows@[j].group)
                    &&& has_server(rows@[j]) ==> uuid_parse(rows@[j].server_id@) is Some
                },
        decreases rows.len() - i,
    {
        let row = &rows[i];
        let group_ok = try_group_from_row(&row.group).is_some();
        let server_ok = row.server_id.as_str().is_empty() || parse_id(row.server_id.as_str()).is_some();
        if !(group_ok && server_ok) {
            assert(!(group_row_decodable(rows@[i as int].group) && (has_server(rows@[i as int]) ==> uuid_parse(
                rows@[i as int].server_id@,
            ) is Some)));
            return None;
        }
        i = i + 1;
    }
    proof {
        assert forall|j: int| 0 <= j < rows@.len() implies row_decodable_at(
            #[trigger] collect(rows@.take(j)),
            rows@[j],
        ) by {
            assert(group_row_decodable(rows@[j].group));
        }
    }
    Some(groups_servers_from_row(rows))
}

/// The first of the groups, if any: what looking a group up by its
/// identifier answers, from the groups its rows fold into.
pub fn first_group(groups: Vec<Group>) -> (res: Option<Group>)
    ensures
        match res {
            Some(g) => groups@.len() > 0 && g == groups@[0],
            None => groups@.len() == 0,
        },
{
    let mut groups = groups;
    if groups.len() > 0 {
        Some(groups.remove(0))
    } else {
        None
    }
}

/// The start of the query that lists groups with their servers, selected by
/// parent; it ends where the parent condition goes.
pub const GROUPS_WITH_SERVERS_QUERY: &'static str = r#"
    SELECT 
      g.id, g.parent_id, g.name, s.id, s.name, s.hostname, s.port
    FROM 
      sshy_group g 
    LEFT JOIN 
      sshy_server s ON s.group_id = g.id 
    WHERE g.parent_id
  "#;

/// The query that lists the groups under a parent (or the top-level groups,
/// for no parent), and the parent's identifier to bind to it.
pub fn groups_query(parent: &Option<u128>) -> (res: (String, Option<String>))
    ensures
        match parent {
            Some(p) => {
                &&& res.0@ == GROUPS_WITH_SERVERS_QUERY@ + "= ?"@
                &&& res.1 matches Some(t) && t@ == uuid_text(*p)
            },
            None => res.0@ == GROUPS_WITH_SERVERS_QUERY@ + " IS NULL"@ && res.1 is None,
        },
{
    let query = String::from_str(GROUPS_WITH_SERVERS_QUERY);
    match parent {
        Some(p) => (query.concat("= ?"), Some(id_to_string(*p))),
        None => (query.concat(" IS NULL"), None),
    }
}

/// `row` holds what inserting the group `dto` stores: the identifier's text
/// (which reads back as the identifier), the parent's likewise, and the name.
pub open spec fn stores_group(row: GroupRow, dto: CreateGroupDto) -> bool {
    &&& row.id@ == uuid_text(dto.id)
    &&& uuid_parse(row.id@) == Some(dto.id)
    &&& match dto.parent_id {
        Some(p) => (row.parent_id matches Some(t) && t@ == uuid_text(p) && uuid_parse(t@) == Some(p)),
        None => row.parent_id is None,
    }
    &&& row.name@ == dto.name@
}

/// The values bound when a group is inserted: its identifier, its parent's
/// identifier (if any) and its name, as text.
pub fn group_insert_binds(dto: &CreateGroupDto) -> (res: GroupRow)
    ensures
        stores_group(res, *dto),
{
    let parent = match dto.parent_id {
        Some(p) => Some(id_to_string(p)),
        None => None,
    };
    GroupRow { id: id_to_string(dto.id), parent_id: parent, name: dto.name.clone() }
}

/// A group row holding what inserting a group stores decodes to that group.
pub proof fn lemma_group_insert_roundtrip(row: GroupRow, dto: CreateGroupDto)
    requires
        stores_group(row, dto),
    ensures
        group_row_decodable(row),
        group_of_row(row) == (GroupView {
            id: dto.id,
            parent_id: dto.parent_id,
            name: dto.name@,
            group: None,
            servers: seq![],
        }),
{
}

} // verus!
