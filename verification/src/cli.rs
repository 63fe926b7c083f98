//! The herdr command lines the board runs, and what it reads from them.

use vstd::prelude::*;

use crate::collect::names_view;

verus! {

/// The arguments of `herdr` that list agents; `session` names the session,
/// `None` the one that `HERDR_SESSION` points to.
pub open spec fn agent_list_argv(session: Option<Seq<char>>) -> Seq<Seq<char>> {
    match session {
        Some(name) => seq!["--session"@, name, "agent"@, "list"@],
        None => seq!["agent"@, "list"@],
    }
}

pub open spec fn args_view(args: Seq<&str>) -> Seq<Seq<char>> {
    args.map_values(|a: &str| a@)
}

/// Without `session`, herdr answers for the session that the environment
/// variable `HERDR_SESSION` points to.
pub fn agent_list_args<'a>(session: Option<&'a str>) -> (args: Vec<&'a str>)
    ensures
        args_view(args@) == agent_list_argv(
            match session {
                Some(name) => Some(name@),
                None => None,
            },
        ),
{
    let args = match session {
        Some(name) => vec!["--session", name, "agent", "list"],
        None => vec!["agent", "list"],
    };
    assert(args_view(args@) =~= agent_list_argv(
        match session {
            Some(name) => Some(name@),
            None => None,
        },
    ));
    args
}

/// Law: naming a session only puts `--session` and its name in front of the
/// arguments used for the starting session.
pub proof fn lemma_named_session_prefixes_args(name: Seq<char>)
    ensures
        agent_list_argv(Some(name)) == seq!["--session"@, name] + agent_list_argv(None),
{
    assert(agent_list_argv(Some(name)) =~= seq!["--session"@, name] + agent_list_argv(None));
}

/// One session of `herdr session list --json`.
#[derive(Debug, Clone)]
pub struct SessionEntry {
    pub name: String,
    pub running: bool,
}

/// The answer of `herdr session list --json`.
#[derive(Debug, Clone)]
pub struct SessionListResponse {
    pub sessions: Vec<SessionEntry>,
}

pub open spec fn is_running() -> spec_fn(SessionEntry) -> bool {
    |entry: SessionEntry| entry.running
}

/// Names of the running sessions, in the listed order.
pub open spec fn running_names(entries: Seq<SessionEntry>) -> Seq<Seq<char>> {
    entries.filter(is_running()).map_values(|entry: SessionEntry| entry.name@)
}

/// The running sessions of a session list; nothing when the list could not
/// be read (`None`).
pub fn running_session_names(listing: Option<SessionListResponse>) -> (names: Vec<String>)
    ensures
        names_view(names@) == match listing {
            Some(list) => running_names(list.sessions@),
            None => Seq::empty(),
        },
{
    let mut names: Vec<String> = Vec::new();
    match listing {
        None => {
            assert(names_view(names@) =~= Seq::<Seq<char>>::empty());
            names
        },
        Some(list) => {
            let ghost all = list.sessions@;
            let mut rest = list.sessions;
            let ghost mut seen: int = 0;
            proof {
                reveal(Seq::filter);
                assert(all.take(0) =~= Seq::<SessionEntry>::empty());
                assert(names_view(names@) =~= running_names(all.take(0)));
            }
            while rest.len() > 0
                invariant
                    0 <= seen <= all.len(),
                    rest@ == all.skip(seen),
                    names_view(names@) == running_names(all.take(seen)),
                decreases rest@.len(),
            {
                let entry = rest.remove(0);
                proof {
                    reveal(Seq::filter);
                    let before = all.take(seen);
                    assert(entry == all[seen]);
                    assert(all.take(seen + 1) =~= before.push(entry));
                    assert(before.push(entry).drop_last() =~= before);
                    let kept = before.filter(is_running());
                    if entry.running {
                        assert(before.push(entry).filter(is_running()) == kept.push(entry));
                        assert(kept.push(entry).map_values(|e: SessionEntry| e.name@) =~= kept.map_values(
                            |e: SessionEntry| e.name@,
                        ).push(entry.name@));
                    } else {
                        assert(before.push(entry).filter(is_running()) == kept);
                    }
                }
                let ghost before_names = names@;
                if entry.running {
                    names.push(entry.name);
                    assert(names_view(names@) =~= names_view(before_names).push(entry.name@));
                }
                proof {
                    seen = seen + 1;
                    assert(rest@ =~= all.skip(seen));
                }
            }
            assert(all.take(seen) =~= all);
            names
        },
    }
}

/// Law: the running sessions of two lists one after the other are those of
/// the first list followed by those of the second: no session is dropped or
/// reordered, however many there are.
pub proof fn lemma_running_names_concat(a: Seq<SessionEntry>, b: Seq<SessionEntry>)
    ensures
        running_names(a + b) == running_names(a) + running_names(b),
{
    broadcast use Seq::filter_distributes_over_add;

    let fa = a.filter(is_running());
    let fb = b.filter(is_running());
    assert((fa + fb).map_values(|e: SessionEntry| e.name@) =~= fa.map_values(
        |e: SessionEntry| e.name@,
    ) + fb.map_values(|e: SessionEntry| e.name@));
}

/// Law: a single session is listed, by its name, exactly when it runs.
pub proof fn lemma_running_names_single(e: SessionEntry)
    ensures
        running_names(seq![e]) == if e.running {
            seq![e.name@]
        } else {
            Seq::<Seq<char>>::empty()
        },
{
    reveal(Seq::filter);
    assert(seq![e].drop_last() =~= Seq::<SessionEntry>::empty());
    assert(Seq::<SessionEntry>::empty().filter(is_running()) =~= Seq::<SessionEntry>::empty());
    assert(seq![e].last() == e);
    if e.running {
        assert(seq![e].filter(is_running()) =~= seq![e]);
        assert(seq![e].map_values(|x: SessionEntry| x.name@) =~= seq![e.name@]);
    } else {
        assert(seq![e].filter(is_running()) =~= Seq::<SessionEntry>::empty());
        assert(running_names(seq![e]) =~= Seq::<Seq<char>>::empty());
    }
}

/// Law: every running session's name is in the result, and the result has
/// one name per running session.
pub proof fn lemma_running_names_complete(entries: Seq<SessionEntry>)
    ensures
        running_names(entries).len() == entries.filter(is_running()).len(),
        forall|i: int|
            0 <= i < entries.len() && (#[trigger] entries[i]).running ==> running_names(
                entries,
            ).contains(entries[i].name@),
{
    broadcast use Seq::lemma_filter_contains;

    let kept = entries.filter(is_running());
    assert forall|i: int|
        0 <= i < entries.len() && (#[trigger] entries[i]).running implies running_names(
        entries,
    ).contains(entries[i].name@) by {
        entries.lemma_filter_contains(is_running(), i);
        let j = choose|j: int| 0 <= j < kept.len() && kept[j] == entries[i];
        assert(running_names(entries)[j] == entries[i].name@);
    }
}

} // verus!
