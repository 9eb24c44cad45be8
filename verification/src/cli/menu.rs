//! The decisions of the interactive mode: which entries the group menu shows,
//! and what a chosen entry leads to.
use vstd::prelude::*;
use crate::cli::prompt::credentials::{credential_as_str, credential_label};
use crate::cli::prompt::group::options::{lemma_label_roundtrip, opts, option_label, option_of_label, root_opts, ExtraOptions};
use crate::cli::prompt::group::transform::{group_as_str, group_label, lemma_group_label_not_option};
use crate::cli::prompt::server::transform::{lemma_server_label_distinct, server_label, sever_as_str};
use crate::ssh::domain::{group_views, Credentials, Group, GroupView, ServerView};
use crate::text::texts;

verus! {

/// What choosing an entry of the group menu leads to.
#[derive(Debug, PartialEq, Eq, Structural)]
pub enum GroupMenuAction {
    /// The menu was left: say goodbye and stop.
    Quit,
    /// Go up to the parent group with this identifier.
    Back(u128),
    /// Go up to the top level.
    Top,
    /// Ask for a name and create a group under the current one.
    CreateGroup,
    /// Ask for a server and add it to the group with this identifier.
    AddServer(u128),
    /// Enter the listed group at this index.
    Enter(usize),
    /// Open the server at this index of the current group.
    OpenServer(usize),
    /// Nothing happens.
    Nothing,
}

/// The current group, as plain values.
pub open spec fn current_view(current: Option<Group>) -> Option<GroupView> {
    match current {
        Some(g) => Some(g@),
        None => None,
    }
}

/// The menu labels of groups, in order.
pub open spec fn group_labels(groups: Seq<GroupView>) -> Seq<Seq<char>> {
    groups.map_values(|g: GroupView| group_label(g.name))
}

/// The menu labels of servers, in order.
pub open spec fn server_labels(servers: Seq<ServerView>) -> Seq<Seq<char>> {
    servers.map_values(|s: ServerView| server_label(s.name))
}

/// The labels of fixed entries, in order.
pub open spec fn option_labels(os: Seq<ExtraOptions>) -> Seq<Seq<char>> {
    os.map_values(|o: ExtraOptions| option_label(o))
}

/// The fixed entries offered: inside a group, all of them; at the top level,
/// only group creation.
pub open spec fn offered_options(current: Option<GroupView>) -> Seq<ExtraOptions> {
    match current {
        Some(_) => seq![
            ExtraOptions::PreviuosGroup,
            ExtraOptions::AddServer,
            ExtraOptions::CreateGroup,
            ExtraOptions::EditGroup,
            ExtraOptions::DeleteGroup,
        ],
        None => seq![ExtraOptions::CreateGroup],
    }
}

/// The entries of the group menu: the listed groups, then (inside a group)
/// the current group's servers, then the separator if anything came before
/// it, then the fixed entries.
pub open spec fn group_menu_labels(groups: Seq<GroupView>, current: Option<GroupView>, separator: Seq<char>) -> Seq<
    Seq<char>,
> {
    let listed = match current {
        Some(g) => group_labels(groups) + server_labels(g.servers),
        None => group_labels(groups),
    };
    let sep = if listed.len() > 0 { seq![separator] } else { seq![] };
    listed + sep + option_labels(offered_options(current))
}

/// The servers listed in the group menu: those of the current group, none at
/// the top level.
pub open spec fn menu_servers(current: Option<GroupView>) -> Seq<ServerView> {
    match current {
        Some(g) => g.servers,
        None => seq![],
    }
}

/// How the group menu is laid out: one entry per listed group, in order; then
/// one entry per server of the current group, in order, whether or not any
/// group is listed; then the separator, when anything came before it; then the
/// fixed entries: at the top level only group creation, inside a group going
/// back, adding a server, creating a group, editing and deleting this group.
pub proof fn lemma_group_menu_layout(groups: Seq<GroupView>, current: Option<GroupView>, separator: Seq<char>)
    ensures
        ({
            let labels = group_menu_labels(groups, current, separator);
            let n: int = groups.len() as int;
            let servers = menu_servers(current);
            let listed: int = n + servers.len();
            let at: int = if listed > 0 { listed + 1 } else { listed };
            &&& forall|k: int| 0 <= k < n ==> labels[k] == group_label((#[trigger] groups[k]).name)
            &&& forall|k: int| 0 <= k < servers.len() ==> labels[n + k] == server_label((#[trigger] servers[k]).name)
            &&& listed > 0 ==> labels[listed] == separator
            &&& current is None ==> labels.len() == at + 1 && labels[at] == option_label(ExtraOptions::CreateGroup)
            &&& current is Some ==> {
                &&& labels.len() == at + 5
                &&& labels[at] == option_label(ExtraOptions::PreviuosGroup)
                &&& labels[at + 1] == option_label(ExtraOptions::AddServer)
                &&& labels[at + 2] == option_label(ExtraOptions::CreateGroup)
                &&& labels[at + 3] == option_label(ExtraOptions::EditGroup)
                &&& labels[at + 4] == option_label(ExtraOptions::DeleteGroup)
            }
        }),
{
    let n: int = groups.len() as int;
    let servers = menu_servers(current);
    let listed_seq = group_labels(groups) + server_labels(servers);
    assert(match current {
        Some(g) => group_labels(groups) + server_labels(g.servers),
        None => group_labels(groups),
    } =~= listed_seq);
    assert forall|k: int| 0 <= k < n implies listed_seq[k] == group_label((#[trigger] groups[k]).name) by {}
    assert forall|k: int| 0 <= k < servers.len() implies listed_seq[n + k] == server_label(
        (#[trigger] servers[k]).name,
    ) by {}
}

/// The entries of the group menu.
pub fn group_menu(groups: &Vec<Group>, current: &Option<Group>, separator: &str) -> (res: Vec<String>)
    ensures
        texts(res@) == group_menu_labels(group_views(groups@), current_view(*current), separator@),
        forall|k: int| 0 <= k < groups@.len() ==> res@[k]@ == group_label((#[trigger] groups@[k]).name@),
        *current matches Some(g) ==> forall|k: int|
            0 <= k < g.servers@.len() ==> res@[groups@.len() + k]@ == server_label((#[trigger] g.servers@[k]).name@),
        ({
            let listed: int = groups@.len() as int + menu_servers(current_view(*current)).len();
            let at: int = if listed > 0 { listed + 1 } else { listed };
            &&& listed > 0 ==> res@[listed]@ == separator@
            &&& *current is None ==> res@.len() == at + 1 && res@[at]@ == option_label(ExtraOptions::CreateGroup)
            &&& *current is Some ==> {
                &&& res@.len() == at + 5
                &&& res@[at]@ == option_label(ExtraOptions::PreviuosGroup)
                &&& res@[at + 1]@ == option_label(ExtraOptions::AddServer)
                &&& res@[at + 2]@ == option_label(ExtraOptions::CreateGroup)
                &&& res@[at + 3]@ == option_label(ExtraOptions::EditGroup)
                &&& res@[at + 4]@ == option_label(ExtraOptions::DeleteGroup)
            }
        }),
{
    let mut out: Vec<String> = Vec::new();
    let mut i: usize = 0;
    while i < groups.len()
        invariant
            i <= groups.len(),
            texts(out@) == group_labels(group_views(groups@.take(i as int))),
        decreases groups.len() - i,
    {
        let ghost before = out@;
        out.push(group_as_str(&groups[i]));
        proof {
            assert(group_views(groups@.take(i + 1)) =~= group_views(groups@.take(i as int)).push(groups@[i as int]@));
            assert(texts(out@) =~= texts(before).push(out@[i as int]@));
            assert(group_labels(group_views(groups@.take(i + 1))) =~= group_labels(
                group_views(groups@.take(i as int)),
            ).push(group_label(groups@[i as int].name@)));
        }
        i = i + 1;
    }
    assert(groups@.take(groups.len() as int) =~= groups@);
    let extra = match current {
        Some(cg) => {
            let ghost base = out@;
            let mut j: usize = 0;
            while j < cg.servers.len()
                invariant
                    j <= cg.servers.len(),
                    out@.len() == base.len() + j,
                    texts(out@) == texts(base) + server_labels(cg@.servers.take(j as int)),
                decreases cg.servers.len() - j,
            {
                let ghost before = out@;
                out.push(sever_as_str(&cg.servers[j]));
                proof {
                    assert(cg@.servers.take(j + 1) =~= cg@.servers.take(j as int).push(cg.servers@[j as int]@));
                    assert(texts(out@) =~= texts(before).push(out@[before.len() as int]@));
                    assert(server_labels(cg@.servers.take(j + 1)) =~= server_labels(cg@.servers.take(j as int)).push(
                        server_label(cg.servers@[j as int].name@),
                    ));
                }
                j = j + 1;
            }
            assert(cg@.servers.take(cg.servers.len() as int) =~= cg@.servers);
            opts()
        },
        None => root_opts(),
    };
    let ghost listed = texts(out@);
    if out.len() > 0 {
        let ghost before = out@;
        out.push(String::from_str(separator));
        assert(texts(out@) =~= texts(before).push(separator@));
    }
    let ghost with_sep = texts(out@);
    assert(with_sep == listed + (if listed.len() > 0 { seq![separator@] } else { seq![] }));
    let mut k: usize = 0;
    while k < extra.len()
        invariant
            k <= extra.len(),
            out@.len() == with_sep.len() + k,
            texts(out@) == with_sep + option_labels(extra@.take(k as int)),
        decreases extra.len() - k,
    {
        let ghost before = out@;
        out.push(extra[k].to_string());
        proof {
            assert(extra@.take(k + 1) =~= extra@.take(k as int).push(extra@[k as int]));
            assert(texts(out@) =~= texts(before).push(out@[before.len() as int]@));
            assert(option_labels(extra@.take(k + 1)) =~= option_labels(extra@.take(k as int)).push(
                option_label(extra@[k as int]),
            ));
        }
        k = k + 1;
    }
    assert(extra@.take(extra.len() as int) =~= extra@);
    assert(extra@ == offered_options(current_view(*current)));
    proof {
        let gv = group_views(groups@);
        lemma_group_menu_layout(gv, current_view(*current), separator@);
        assert forall|k: int| 0 <= k < out@.len() implies #[trigger] texts(out@)[k] == out@[k]@ by {}
        assert forall|k: int| 0 <= k < groups@.len() implies out@[k]@ == group_label((#[trigger] groups@[k]).name@) by {
            assert(gv[k] == groups@[k]@);
            assert(texts(out@)[k] == out@[k]@);
        }
        if let Some(g) = current {
            assert(menu_servers(current_view(*current)) == g@.servers);
            assert forall|k: int| 0 <= k < g.servers@.len() implies out@[groups@.len() + k]@ == server_label(
                (#[trigger] g.servers@[k]).name@,
            ) by {
                assert(g@.servers[k] == g.servers@[k]@);
                assert(gv.len() == groups@.len());
                assert(texts(out@)[groups@.len() + k] == out@[groups@.len() + k]@);
            }
        }
    }
    out
}


/// The position of the first label equal to `c`, if any.
pub open spec fn first_index(labels: Seq<Seq<char>>, c: Seq<char>) -> Option<int>
    decreases labels.len(),
{
    if labels.len() == 0 {
        None
    } else {
        match first_index(labels.drop_last(), c) {
            Some(i) => Some(i),
            None => if labels.last() == c {
                Some(labels.len() - 1)
            } else {
                None
            },
        }
    }
}

proof fn lemma_first_index(labels: Seq<Seq<char>>, c: Seq<char>)
    ensures
        match first_index(labels, c) {
            Some(i) => 0 <= i < labels.len() && labels[i] == c && forall|j: int| 0 <= j < i ==> labels[j] != c,
            None => forall|j: int| 0 <= j < labels.len() ==> labels[j] != c,
        },
    decreases labels.len(),
{
    if labels.len() > 0 {
        let p = labels.drop_last();
        lemma_first_index(p, c);
        assert forall|j: int| 0 <= j < p.len() implies p[j] == labels[j] by {}
    }
}

/// Finds the first label equal to `c`.
fn find_label(labels: &Vec<String>, c: &str) -> (res: Option<usize>)
    ensures
        match res {
            Some(i) => first_index(texts(labels@), c@) == Some(i as int),
            None => first_index(texts(labels@), c@) is None,
        },
{
    let target = String::from_str(c);
    let mut i: usize = 0;
    proof { lemma_first_index(texts(labels@), c@); }
    while i < labels.len()
        invariant
            i <= labels.len(),
            target@ == c@,
            forall|j: int| 0 <= j < i ==> texts(labels@)[j] != c@,
        decreases labels.len() - i,
    {
        assert(texts(labels@)[i as int] == labels@[i as int]@);
        let same: bool = labels[i].eq(&target);
        assert(same == (labels@[i as int]@ == target@));
        if same {
            proof {
                lemma_first_index(texts(labels@), c@);
                let f = first_index(texts(labels@), c@);
                if let Some(k) = f {
                    if k < i {
                        assert(texts(labels@)[k] != c@);
                    }
                    if k > i {
                        assert(texts(labels@)[i as int] == c@);
                    }
                }
            }
            return Some(i);
        }
        i = i + 1;
    }
    proof {
        lemma_first_index(texts(labels@), c@);
        if let Some(k) = first_index(texts(labels@), c@) {
            assert(texts(labels@)[k] != c@);
        }
    }
    None
}

/// Choosing `choice` would stop the menu on an unwrap of a missing current
/// group: adding a server, or choosing a text that is neither an entry nor a
/// listed group, at the top level.
pub open spec fn choice_fails(groups: Seq<GroupView>, current: Option<GroupView>, choice: Option<Seq<char>>) -> bool {
    &&& current is None
    &&& choice matches Some(c)
    &&& {
        ||| option_of_label(c) == Some(ExtraOptions::AddServer)
        ||| (option_of_label(c) is None && first_index(group_labels(groups), c) is None)
    }
}

/// What choosing `choice` in the group menu leads to (`None`: the menu was left).
/// A fixed entry is recognised first; then a listed group's label enters it;
/// then a server label of the current group opens that server.
pub open spec fn group_choice(groups: Seq<GroupView>, current: Option<GroupView>, choice: Option<Seq<char>>) -> GroupMenuAction {
    match choice {
        None => GroupMenuAction::Quit,
        Some(c) => match option_of_label(c) {
            Some(ExtraOptions::PreviuosGroup) => match current {
                Some(g) => match g.parent_id {
                    Some(p) => GroupMenuAction::Back(p),
                    None => GroupMenuAction::Top,
                },
                None => GroupMenuAction::Nothing,
            },
            Some(ExtraOptions::CreateGroup) => GroupMenuAction::CreateGroup,
            Some(ExtraOptions::AddServer) => match current {
                Some(g) => GroupMenuAction::AddServer(g.id),
                None => GroupMenuAction::Nothing,
            },
            Some(_) => GroupMenuAction::Nothing,
            None => match first_index(group_labels(groups), c) {
                Some(i) => GroupMenuAction::Enter(i as usize),
                None => match current {
                    Some(g) => match first_index(server_labels(g.servers), c) {
                        Some(j) => GroupMenuAction::OpenServer(j as usize),
                        None => GroupMenuAction::Nothing,
                    },
                    None => GroupMenuAction::Nothing,
                },
            },
        },
    }
}

/// The text of an optional choice.
pub open spec fn opt_text(choice: Option<&str>) -> Option<Seq<char>> {
    match choice {
        Some(c) => Some(c@),
        None => None,
    }
}

/// What a choice in the group menu leads to, entry by entry: leaving the menu
/// quits; the group-creation entry creates a group, at the top level as inside
/// a group, and is always a choice that can be made; inside a group, going back
/// goes to the parent group (to the top level when there is none) and adding a
/// server adds it to the current group, while at the top level going back does
/// nothing; editing or deleting a group does nothing; entering a group means
/// its label was chosen, and opening a server means that a server of the
/// current group has the chosen label; a text that is neither an entry nor
/// such a label does nothing.
pub proof fn lemma_group_choice_entries(groups: Seq<GroupView>, current: Option<GroupView>, choice: Option<Seq<char>>)
    requires
        groups.len() <= usize::MAX,
        current matches Some(g) ==> g.servers.len() <= usize::MAX,
    ensures
        choice is None ==> group_choice(groups, current, choice) == GroupMenuAction::Quit,
        choice == Some(option_label(ExtraOptions::CreateGroup)) ==> {
            &&& group_choice(groups, current, choice) == GroupMenuAction::CreateGroup
            &&& !choice_fails(groups, current, choice)
        },
        current matches Some(g) ==> {
            &&& choice == Some(option_label(ExtraOptions::PreviuosGroup)) ==> group_choice(groups, current, choice)
                == match g.parent_id {
                Some(p) => GroupMenuAction::Back(p),
                None => GroupMenuAction::Top,
            }
            &&& choice == Some(option_label(ExtraOptions::AddServer)) ==> group_choice(groups, current, choice)
                == GroupMenuAction::AddServer(g.id)
        },
        current is None && choice == Some(option_label(ExtraOptions::PreviuosGroup)) ==> group_choice(
            groups,
            current,
            choice,
        ) == GroupMenuAction::Nothing,
        choice == Some(option_label(ExtraOptions::EditGroup)) ==> group_choice(groups, current, choice)
            == GroupMenuAction::Nothing,
        choice == Some(option_label(ExtraOptions::DeleteGroup)) ==> group_choice(groups, current, choice)
            == GroupMenuAction::Nothing,
        group_choice(groups, current, choice) matches GroupMenuAction::Enter(i) ==> {
            &&& i < groups.len()
            &&& choice == Some(group_label(groups[i as int].name))
        },
        choice matches Some(c) ==> {
            &&& option_of_label(c) is None
            &&& forall|k: int| 0 <= k < groups.len() ==> group_label((#[trigger] groups[k]).name) != c
            &&& forall|k: int|
                0 <= k < menu_servers(current).len() ==> server_label((#[trigger] menu_servers(current)[k]).name) != c
        } ==> group_choice(groups, current, choice) == GroupMenuAction::Nothing,
        group_choice(groups, current, choice) matches GroupMenuAction::OpenServer(j) ==> {
            &&& current matches Some(g)
            &&& j < g.servers.len()
            &&& choice == Some(server_label(g.servers[j as int].name))
        },
{
    lemma_label_roundtrip(ExtraOptions::PreviuosGroup);
    lemma_label_roundtrip(ExtraOptions::AddServer);
    lemma_label_roundtrip(ExtraOptions::CreateGroup);
    lemma_label_roundtrip(ExtraOptions::EditGroup);
    lemma_label_roundtrip(ExtraOptions::DeleteGroup);
    if let Some(c) = choice {
        lemma_first_index(group_labels(groups), c);
        if let Some(i) = first_index(group_labels(groups), c) {
            assert(group_labels(groups)[i] == group_label(groups[i].name));
            assert((i as usize) as int == i);
        }
        assert forall|k: int| 0 <= k < groups.len() implies #[trigger] group_labels(groups)[k] == group_label(
            groups[k].name,
        ) by {}
        if let Some(g) = current {
            lemma_first_index(server_labels(g.servers), c);
            if let Some(j) = first_index(server_labels(g.servers), c) {
                assert(server_labels(g.servers)[j] == server_label(g.servers[j].name));
                assert((j as usize) as int == j);
            }
            assert(menu_servers(current) == g.servers);
            assert forall|k: int| 0 <= k < g.servers.len() implies #[trigger] server_labels(g.servers)[k]
                == server_label(g.servers[k].name) by {}
        }
    }
}

/// At the top level the menu ends with the group-creation entry, and choosing
/// it creates a group, whatever groups are listed.
pub proof fn lemma_top_level_create_group(groups: Seq<GroupView>, separator: Seq<char>)
    requires
        groups.len() <= usize::MAX,
    ensures
        ({
            let labels = group_menu_labels(groups, None, separator);
            &&& labels.len() > 0
            &&& labels.last() == option_label(ExtraOptions::CreateGroup)
            &&& !choice_fails(groups, None, Some(labels.last()))
            &&& group_choice(groups, None, Some(labels.last())) == GroupMenuAction::CreateGroup
        }),
{
    lemma_group_menu_layout(groups, None, separator);
    lemma_group_choice_entries(groups, None, Some(option_label(ExtraOptions::CreateGroup)));
}

/// What choosing an entry of the group menu leads to: leaving the menu quits,
/// each fixed entry does what it names, a group's label enters the first
/// listed group with that label, a server's label opens the first server of
/// the current group with that label, and any other text does nothing.
pub fn on_group_choice(groups: &Vec<Group>, current: &Option<Group>, choice: Option<&str>) -> (res: GroupMenuAction)
    requires
        !choice_fails(group_views(groups@), current_view(*current), opt_text(choice)),
    ensures
        res == group_choice(group_views(groups@), current_view(*current), opt_text(choice)),
        choice is None ==> res == GroupMenuAction::Quit,
        opt_text(choice) == Some(option_label(ExtraOptions::CreateGroup)) ==> res == GroupMenuAction::CreateGroup,
        *current matches Some(g) ==> {
            &&& opt_text(choice) == Some(option_label(ExtraOptions::PreviuosGroup)) ==> res == match g.parent_id {
                Some(p) => GroupMenuAction::Back(p),
                None => GroupMenuAction::Top,
            }
            &&& opt_text(choice) == Some(option_label(ExtraOptions::AddServer)) ==> res
                == GroupMenuAction::AddServer(g.id)
        },
        *current is None && opt_text(choice) == Some(option_label(ExtraOptions::PreviuosGroup)) ==> res
            == GroupMenuAction::Nothing,
        opt_text(choice) == Some(option_label(ExtraOptions::EditGroup)) ==> res == GroupMenuAction::Nothing,
        opt_text(choice) == Some(option_label(ExtraOptions::DeleteGroup)) ==> res == GroupMenuAction::Nothing,
        res matches GroupMenuAction::Enter(i) ==> i < groups@.len() && opt_text(choice) == Some(
            group_label(groups@[i as int].name@),
        ),
        res matches GroupMenuAction::OpenServer(j) ==> {
            &&& *current matches Some(g)
            &&& j < g.servers@.len()
            &&& opt_text(choice) == Some(server_label(g.servers@[j as int].name@))
        },
        forall|k: int|
            0 <= k < groups@.len() && opt_text(choice) == Some(group_label((#[trigger] groups@[k]).name@))
                ==> (res matches GroupMenuAction::Enter(i) && i <= k),
        *current matches Some(g) ==> forall|k: int|
            0 <= k < g.servers@.len() && opt_text(choice) == Some(server_label((#[trigger] g.servers@[k]).name@))
                ==> (res matches GroupMenuAction::OpenServer(j) && j <= k),
        choice matches Some(c) ==> {
            &&& option_of_label(c@) is None
            &&& forall|k: int| 0 <= k < groups@.len() ==> group_label((#[trigger] groups@[k]).name@) != c@
            &&& *current matches Some(g) ==> forall|k: int|
                0 <= k < g.servers@.len() ==> server_label((#[trigger] g.servers@[k]).name@) != c@
        } ==> res == GroupMenuAction::Nothing,
{
    proof {
        assert(group_views(groups@).len() == groups.len());
        if let Some(g) = current {
            assert(g@.servers.len() == g.servers.len());
        }
        let gv = group_views(groups@);
        let cv = current_view(*current);
        lemma_group_choice_entries(gv, cv, opt_text(choice));
        assert forall|k: int|
            0 <= k < groups@.len() && opt_text(choice) == Some(group_label((#[trigger] groups@[k]).name@)) implies (
        group_choice(gv, cv, opt_text(choice)) matches GroupMenuAction::Enter(i) && i <= k) by {
            assert(gv[k] == groups@[k]@);
            lemma_choose_listed_group(gv, cv, k);
        }
        if let Some(g) = current {
            assert forall|k: int|
                0 <= k < g.servers@.len() && opt_text(choice) == Some(server_label((#[trigger] g.servers@[k]).name@))
                    implies (group_choice(gv, cv, opt_text(choice)) matches GroupMenuAction::OpenServer(j) && j <= k) by {
                assert(g@.servers[k] == g.servers@[k]@);
                lemma_choose_listed_server(gv, g@, k);
            }
        }
        if let Some(c) = choice {
            assert forall|k: int| 0 <= k < gv.len() implies (#[trigger] gv[k]).name == groups@[k].name@ by {}
            if let Some(g) = current {
                assert(menu_servers(cv) == g@.servers);
                assert forall|k: int| 0 <= k < g.servers@.len() implies (#[trigger] g@.servers[k]).name
                    == g.servers@[k].name@ by {}
            } else {
                assert(menu_servers(cv).len() == 0);
            }
        }
    }
    let c = match choice {
        None => return GroupMenuAction::Quit,
        Some(c) => c,
    };
    match ExtraOptions::from_str(c) {
        Some(ExtraOptions::PreviuosGroup) => {
            return match current {
                Some(g) => match g.parent_id {
                    Some(p) => GroupMenuAction::Back(p),
                    None => GroupMenuAction::Top,
                },
                None => GroupMenuAction::Nothing,
            };
        },
        Some(ExtraOptions::CreateGroup) => return GroupMenuAction::CreateGroup,
        Some(ExtraOptions::AddServer) => {
            return match current {
                Some(g) => GroupMenuAction::AddServer(g.id),
                None => GroupMenuAction::Nothing,
            };
        },
        Some(_) => return GroupMenuAction::Nothing,
        None => {},
    }
    let labels = group_labels_of(groups);
    match find_label(&labels, c) {
        Some(i) => GroupMenuAction::Enter(i),
        None => match current {
            Some(g) => {
                let slabels = server_labels_of(g);
                match find_label(&slabels, c) {
                    Some(j) => GroupMenuAction::OpenServer(j),
                    None => GroupMenuAction::Nothing,
                }
            },
            None => GroupMenuAction::Nothing,
        },
    }
}

fn group_labels_of(groups: &Vec<Group>) -> (res: Vec<String>)
    ensures
        texts(res@) == group_labels(group_views(groups@)),
{
    let mut out: Vec<String> = Vec::new();
    let mut i: usize = 0;
    while i < groups.len()
        invariant
            i <= groups.len(),
            texts(out@) == group_labels(group_views(groups@.take(i as int))),
        decreases groups.len() - i,
    {
        let ghost before = out@;
        out.push(group_as_str(&groups[i]));
        proof {
            assert(group_views(groups@.take(i + 1)) =~= group_views(groups@.take(i as int)).push(groups@[i as int]@));
            assert(texts(out@) =~= texts(before).push(out@[i as int]@));
        }
        i = i + 1;
    }
    assert(groups@.take(groups.len() as int) =~= groups@);
    out
}

fn server_labels_of(g: &Group) -> (res: Vec<String>)
    ensures
        texts(res@) == server_labels(g@.servers),
{
    let mut out: Vec<String> = Vec::new();
    let mut j: usize = 0;
    while j < g.servers.len()
        invariant
            j <= g.servers.len(),
            texts(out@) == server_labels(g@.servers.take(j as int)),
        decreases g.servers.len() - j,
    {
        let ghost before = out@;
        out.push(sever_as_str(&g.servers[j]));
        proof {
            assert(g@.servers.take(j + 1) =~= g@.servers.take(j as int).push(g.servers@[j as int]@));
            assert(texts(out@) =~= texts(before).push(out@[j as int]@));
        }
        j = j + 1;
    }
    assert(g@.servers.take(g.servers.len() as int) =~= g@.servers);
    out
}

/// The menu labels of credentials.
pub open spec fn credential_labels(cs: Seq<Credentials>) -> Seq<Seq<char>> {
    cs.map_values(|c: Credentials| credential_label(c.name@, c.user@))
}

/// The menu of stored credentials to connect with, or `None` when there are
/// none and new credentials must be described.
pub fn credentials_menu(credentials: &Vec<Credentials>) -> (res: Option<Vec<String>>)
    ensures
        res is None <==> credentials@.len() == 0,
        res matches Some(v) ==> texts(v@) == credential_labels(credentials@),
{
    if credentials.len() == 0 {
        return None;
    }
    Some(credential_labels_of(credentials))
}

fn credential_labels_of(credentials: &Vec<Credentials>) -> (res: Vec<String>)
    ensures
        texts(res@) == credential_labels(credentials@),
{
    let mut out: Vec<String> = Vec::new();
    let mut i: usize = 0;
    while i < credentials.len()
        invariant
            i <= credentials.len(),
            texts(out@) == credential_labels(credentials@.take(i as int)),
        decreases credentials.len() - i,
    {
        let ghost before = out@;
        out.push(credential_as_str(&credentials[i]));
        proof {
            assert(credentials@.take(i + 1) =~= credentials@.take(i as int).push(credentials@[i as int]));
            assert(texts(out@) =~= texts(before).push(out@[i as int]@));
        }
        i = i + 1;
    }
    assert(credentials@.take(credentials.len() as int) =~= credentials@);
    out
}

/// The stored credentials whose label was chosen: the first with that label.
pub fn pick_credentials(credentials: &Vec<Credentials>, choice: &str) -> (res: Option<usize>)
    ensures
        match res {
            Some(i) => first_index(credential_labels(credentials@), choice@) == Some(i as int),
            None => first_index(credential_labels(credentials@), choice@) is None,
        },
        res matches Some(i) ==> i < credentials@.len() && credential_label(
            credentials@[i as int].name@,
            credentials@[i as int].user@,
        ) == choice@,
        res is None <==> forall|i: int|
            0 <= i < credentials@.len() ==> credential_label(credentials@[i].name@, credentials@[i].user@) != choice@,
{
    let labels = credential_labels_of(credentials);
    let res = find_label(&labels, choice);
    proof {
        lemma_first_index(credential_labels(credentials@), choice@);
        assert forall|i: int| 0 <= i < credentials@.len() implies #[trigger] credential_labels(credentials@)[i]
            == credential_label(credentials@[i].name@, credentials@[i].user@) by {}
        if res is None {
            assert forall|i: int| 0 <= i < credentials@.len() implies credential_label(
                credentials@[i].name@,
                credentials@[i].user@,
            ) != choice@ by {
                assert(credential_labels(credentials@)[i] != choice@);
            }
        } else {
            let k = res.unwrap() as int;
            assert(credential_labels(credentials@)[k] == choice@);
        }
    }
    res
}

/// Choosing a listed group's label enters a group with that label, the first
/// listed one, whatever the current group.
pub proof fn lemma_choose_listed_group(groups: Seq<GroupView>, current: Option<GroupView>, k: int)
    requires
        0 <= k < groups.len() <= usize::MAX,
    ensures
        ({
            let c = group_label(groups[k].name);
            &&& group_choice(groups, current, Some(c)) matches GroupMenuAction::Enter(i)
            &&& i <= k
            &&& group_label(groups[i as int].name) == c
        }),
{
    let c = group_label(groups[k].name);
    lemma_group_label_not_option(groups[k].name);
    lemma_first_index(group_labels(groups), c);
    assert(group_labels(groups)[k] == c);
    let i = first_index(group_labels(groups), c).unwrap();
    assert(group_labels(groups)[i] == group_label(groups[i].name));
    assert((i as usize) as int == i);
}

/// Inside a group, choosing the label of one of its servers opens a server
/// with that label, the first one.
pub proof fn lemma_choose_listed_server(groups: Seq<GroupView>, g: GroupView, k: int)
    requires
        0 <= k < g.servers.len() <= usize::MAX,
    ensures
        ({
            let c = server_label(g.servers[k].name);
            &&& group_choice(groups, Some(g), Some(c)) matches GroupMenuAction::OpenServer(j)
            &&& j <= k
            &&& server_label(g.servers[j as int].name) == c
        }),
{
    let c = server_label(g.servers[k].name);
    lemma_first_index(group_labels(groups), c);
    assert forall|j: int| 0 <= j < groups.len() implies group_labels(groups)[j] != c by {
        lemma_server_label_distinct(g.servers[k].name, groups[j].name);
    }
    lemma_server_label_distinct(g.servers[k].name, seq![]);
    lemma_first_index(server_labels(g.servers), c);
    assert(server_labels(g.servers)[k] == c);
    let j = first_index(server_labels(g.servers), c).unwrap();
    assert(server_labels(g.servers)[j] == server_label(g.servers[j].name));
    assert((j as usize) as int == j);
}

} // verus!
