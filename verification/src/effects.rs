//! What a plan does to the world outside the terminal.
//!
//! The effects of a plan are its actions other than printing, in order.
//! The laws below say, for each command, which effects its plan has.
use crate::dispatch::{
    add_plan, already_there, entry_notes, find_plan, finish_steps, gather_warnings, gathered,
    has_effect, issue_steps, list_plan, local_name, not_found, note, open_plan, opening,
    remove_plan, setup_plan, showing, showing_all, websocket_of, websocket_warning, write_steps,
    ActionModel,
};
use crate::display::url_of;
use crate::proxies::Entry;
use crate::sites::{
    found_name, has_site, lemma_local_names, lemma_site_index, listing_of, site_index, site_named,
    SiteModel,
};
use crate::writer::site_config;
use vstd::prelude::*;

verus! {

/// The actions of a plan that touch anything outside the terminal, in
/// order.
pub open spec fn effects(plan: Seq<ActionModel>) -> Seq<ActionModel>
    decreases plan.len(),
{
    if plan.len() == 0 {
        Seq::empty()
    } else if has_effect(plan.last()) {
        effects(plan.drop_last()).push(plan.last())
    } else {
        effects(plan.drop_last())
    }
}

/// The effects of a plan with one more action.
pub proof fn lemma_effects_push(plan: Seq<ActionModel>, action: ActionModel)
    ensures
        effects(plan.push(action)) == (if has_effect(action) {
            effects(plan).push(action)
        } else {
            effects(plan)
        }),
{
    assert(plan.push(action).drop_last() =~= plan);
}

/// The effects of two plans, one after the other.
pub proof fn lemma_effects_add(first: Seq<ActionModel>, second: Seq<ActionModel>)
    ensures
        effects(first + second) == effects(first) + effects(second),
    decreases second.len(),
{
    if second.len() == 0 {
        assert(first + second =~= first);
        assert(effects(first) + effects(second) =~= effects(first));
    } else {
        lemma_effects_add(first, second.drop_last());
        assert((first + second).drop_last() =~= first + second.drop_last());
        assert(effects(first + second) =~= effects(first) + effects(second));
    }
}

/// The effects of a plan of one action.
pub proof fn lemma_effects_one(action: ActionModel)
    ensures
        effects(seq![action]) == (if has_effect(action) {
            seq![action]
        } else {
            Seq::empty()
        }),
{
    lemma_effects_push(Seq::empty(), action);
    assert(Seq::<ActionModel>::empty().push(action) =~= seq![action]);
}

/// The effects of a plan of two actions.
pub proof fn lemma_effects_two(a: ActionModel, b: ActionModel)
    ensures
        effects(seq![a, b]) == effects(seq![a]) + effects(seq![b]),
{
    assert(seq![a, b] =~= seq![a] + seq![b]);
    lemma_effects_add(seq![a], seq![b]);
}

/// Warnings have no effects.
pub proof fn lemma_gather_warnings_idle(proxy: Seq<Seq<char>>, count: int)
    ensures
        effects(gather_warnings(proxy, count)) == Seq::<ActionModel>::empty(),
    decreases count,
{
    if count > 0 {
        lemma_gather_warnings_idle(proxy, count - 1);
        lemma_effects_push(
            gather_warnings(proxy, count - 1),
            crate::dispatch::warning(proxy[count - 1]),
        );
    }
}

/// Notes on entries have no effects.
pub proof fn lemma_entry_notes_idle(entries: Seq<Entry>, count: int)
    ensures
        effects(entry_notes(entries, count)) == Seq::<ActionModel>::empty(),
    decreases count,
{
    if count > 0 {
        lemma_entry_notes_idle(entries, count - 1);
        let first = ActionModel::Say("Location: "@ + entries[count - 1].0);
        let second = ActionModel::Say("Target: "@ + entries[count - 1].1);
        lemma_effects_push(entry_notes(entries, count - 1), first);
        lemma_effects_push(entry_notes(entries, count - 1).push(first), second);
    }
}

/// A note has no effects.
pub proof fn lemma_note_idle(verbose: bool, text: Seq<char>)
    ensures
        effects(note(verbose, text)) == Seq::<ActionModel>::empty(),
{
    lemma_effects_one(ActionModel::Say(text));
}

/// The warning about the websocket argument has no effects.
pub proof fn lemma_websocket_warning_idle(ws: Seq<char>)
    ensures
        effects(websocket_warning(ws)) == Seq::<ActionModel>::empty(),
{
    lemma_effects_one(crate::dispatch::warning(ws));
}

/// Showing sites has no effects.
pub proof fn lemma_showing_idle(sites: Seq<SiteModel>, names: Seq<Seq<char>>, count: int)
    ensures
        effects(showing_all(sites, names, count)) == Seq::<ActionModel>::empty(),
        count > 0 ==> effects(showing(sites, names[count - 1])) == Seq::<ActionModel>::empty(),
    decreases count,
{
    if count > 0 {
        lemma_showing_idle(sites, names, count - 1);
        let name = names[count - 1];
        match site_named(sites, name) {
            Some(site) => {
                lemma_effects_one(showing(sites, name)[0]);
                assert(showing(sites, name) =~= seq![showing(sites, name)[0]]);
            },
            None => {},
        }
        lemma_effects_add(showing_all(sites, names, count - 1), showing(sites, name));
    }
}

/// The only effect of opening a site is that the browser is opened.
pub proof fn lemma_effects_opening(name: Seq<char>)
    ensures
        effects(opening(name)) == seq![ActionModel::OpenBrowser { url: url_of(name) }],
{
    let a = ActionModel::Say(Seq::empty());
    let b = ActionModel::Say(" \u{26a1} Opening "@ + url_of(name));
    let c = ActionModel::OpenBrowser { url: url_of(name) };
    assert(opening(name) =~= seq![a].push(b).push(c));
    lemma_effects_one(a);
    lemma_effects_push(seq![a], b);
    lemma_effects_push(seq![a].push(b), c);
    assert(Seq::<ActionModel>::empty().push(c) =~= seq![c]);
}

/// Saying that a site is not there has no effects.
pub proof fn lemma_not_found_idle(wanted: Seq<char>)
    ensures
        effects(not_found(wanted)) == Seq::<ActionModel>::empty(),
{
    let a = not_found(wanted)[0];
    let b = not_found(wanted)[1];
    assert(not_found(wanted) =~= seq![a].push(b));
    lemma_effects_one(a);
    lemma_effects_push(seq![a], b);
}

/// The effects of setting a site up: its certificate is issued, its
/// configuration is written to the file named after it, and the proxy is
/// reloaded, each once and in this order; the browser is opened after that
/// if asked for.
pub proof fn law_effects_of_setup(
    server_name: Seq<char>,
    default_target: Seq<char>,
    ws: Seq<char>,
    proxy: Seq<Seq<char>>,
    open: bool,
    verbose: bool,
)
    ensures
        effects(setup_plan(server_name, default_target, ws, proxy, open, verbose)) == seq![
            ActionModel::IssueCertificate { name: local_name(server_name) },
            ActionModel::WriteConfig {
                file_name: local_name(server_name) + ".conf"@,
                content: site_config(
                    local_name(server_name),
                    gathered(default_target, proxy, proxy.len() as int),
                    websocket_of(ws),
                ),
            },
            ActionModel::Reload,
        ] + (if open {
            seq![ActionModel::OpenBrowser { url: url_of(local_name(server_name)) }]
        } else {
            Seq::empty()
        }),
{
    let name = local_name(server_name);
    let websocket = websocket_of(ws);
    let entries = gathered(default_target, proxy, proxy.len() as int);
    let first = issue_steps(name, ws, proxy, verbose);
    let second = write_steps(name, entries, websocket, verbose);
    let third = finish_steps(name, entries, websocket, open);
    let issue = ActionModel::IssueCertificate { name: name };
    let write = ActionModel::WriteConfig {
        file_name: name + ".conf"@,
        content: site_config(name, entries, websocket),
    };
    assert(effects(first) == seq![issue]) by {
        let a = websocket_warning(ws);
        let b = note(verbose, "No current configuration for server: "@ + name);
        let d = gather_warnings(proxy, proxy.len() as int);
        lemma_websocket_warning_idle(ws);
        lemma_note_idle(verbose, "No current configuration for server: "@ + name);
        lemma_effects_one(issue);
        lemma_gather_warnings_idle(proxy, proxy.len() as int);
        lemma_effects_add(a, b);
        lemma_effects_add(a + b, seq![issue]);
        lemma_effects_add(a + b + seq![issue], d);
        assert(effects(first) =~= seq![issue]);
    }
    assert(effects(second) == seq![write]) by {
        let a = if verbose {
            entry_notes(entries, entries.len() as int)
        } else {
            Seq::empty()
        };
        let c = note(verbose, ">> Wrote new configuration for server: "@ + name);
        lemma_entry_notes_idle(entries, entries.len() as int);
        lemma_effects_one(write);
        lemma_note_idle(verbose, ">> Wrote new configuration for server: "@ + name);
        lemma_effects_add(a, seq![write]);
        lemma_effects_add(a + seq![write], c);
        assert(effects(second) =~= seq![write]);
    }
    assert(effects(third) == seq![ActionModel::Reload] + (if open {
        seq![ActionModel::OpenBrowser { url: url_of(name) }]
    } else {
        Seq::empty()
    })) by {
        let show = third[1];
        let a = seq![ActionModel::Reload, show];
        let b = if open {
            opening(name)
        } else {
            Seq::empty()
        };
        lemma_effects_two(ActionModel::Reload, show);
        lemma_effects_one(ActionModel::Reload);
        lemma_effects_one(show);
        lemma_effects_opening(name);
        lemma_effects_add(a, b);
        assert(effects(a) =~= seq![ActionModel::Reload]);
    }
    lemma_effects_add(first, second);
    lemma_effects_add(first + second, third);
    assert(effects(first + second + third) =~= seq![issue, write, ActionModel::Reload] + (if open {
        seq![ActionModel::OpenBrowser { url: url_of(name) }]
    } else {
        Seq::empty()
    }));
}

/// Adding a site that is there already, without force, has no effects:
/// nothing is written, nothing is issued, and the proxy is not reloaded.
pub proof fn law_unforced_add_is_idle(
    sites: Seq<SiteModel>,
    server_name: Seq<char>,
    default_target: Seq<char>,
    ws: Seq<char>,
    proxy: Seq<Seq<char>>,
    open: bool,
    verbose: bool,
)
    requires
        found_name(listing_of(sites), server_name) is Some,
    ensures
        add_plan(sites, server_name, default_target, ws, proxy, false, open, verbose)
            == already_there(found_name(listing_of(sites), server_name).unwrap()),
        effects(add_plan(sites, server_name, default_target, ws, proxy, false, open, verbose))
            == Seq::<ActionModel>::empty(),
{
    let said = already_there(found_name(listing_of(sites), server_name).unwrap());
    assert(said =~= seq![said[0]].push(said[1]));
    lemma_effects_one(said[0]);
    lemma_effects_push(seq![said[0]], said[1]);
}

/// Adding a site with force, or one that is not there yet, has the effects
/// of setting it up: the configuration file named after the site is
/// written anew.
pub proof fn law_add_sets_up(
    sites: Seq<SiteModel>,
    server_name: Seq<char>,
    default_target: Seq<char>,
    ws: Seq<char>,
    proxy: Seq<Seq<char>>,
    force: bool,
    open: bool,
    verbose: bool,
)
    requires
        force || found_name(listing_of(sites), server_name) is None,
    ensures
        effects(add_plan(sites, server_name, default_target, ws, proxy, force, open, verbose))
            == effects(setup_plan(server_name, default_target, ws, proxy, open, verbose)),
{
    let setup = setup_plan(server_name, default_target, ws, proxy, open, verbose);
    if found_name(listing_of(sites), server_name) is None {
        let said = ActionModel::Say("Server name not found: "@ + server_name);
        lemma_effects_one(said);
        lemma_effects_add(seq![said], setup);
        assert(effects(seq![said]) + effects(setup) =~= effects(setup));
    }
}

/// A name that is found in a listing is the name of a site.
pub proof fn lemma_found_is_site(sites: Seq<SiteModel>, wanted: Seq<char>)
    requires
        found_name(listing_of(sites), wanted) is Some,
    ensures
        has_site(sites, found_name(listing_of(sites), wanted).unwrap()),
{
    let names = listing_of(sites);
    let name = found_name(names, wanted).unwrap();
    assert(names.contains(name));
    lemma_local_names(sites, sites.len() as int, name);
    let i = choose|i: int| 0 <= i < sites.len() && (#[trigger] sites[i]).name == name;
    lemma_site_index(sites, name, 0);
    if site_index(sites, name, 0) >= sites.len() {
        assert(sites[i].name != name);
    }
}

/// Removing a site that is not there has no effects: no file is removed
/// and the proxy is not reloaded.
pub proof fn law_remove_absent_is_idle(sites: Seq<SiteModel>, wanted: Seq<char>)
    requires
        found_name(listing_of(sites), wanted) is None,
    ensures
        remove_plan(sites, wanted) == seq![ActionModel::Say("Server name not found: "@ + wanted)],
        effects(remove_plan(sites, wanted)) == Seq::<ActionModel>::empty(),
{
    lemma_effects_one(ActionModel::Say("Server name not found: "@ + wanted));
}

/// Removing a site that is there removes its file and reloads the proxy,
/// in this order.
pub proof fn law_remove_present(sites: Seq<SiteModel>, wanted: Seq<char>)
    requires
        found_name(listing_of(sites), wanted) is Some,
    ensures
        site_named(sites, found_name(listing_of(sites), wanted).unwrap()) is Some,
        effects(remove_plan(sites, wanted)) == seq![
            ActionModel::RemoveFile {
                path: site_named(
                    sites,
                    found_name(listing_of(sites), wanted).unwrap(),
                ).unwrap().path,
            },
            ActionModel::Reload,
        ],
{
    lemma_found_is_site(sites, wanted);
    let plan = remove_plan(sites, wanted);
    assert(plan =~= seq![plan[0]].push(plan[1]).push(plan[2]));
    lemma_effects_one(plan[0]);
    lemma_effects_push(seq![plan[0]], plan[1]);
    lemma_effects_push(seq![plan[0]].push(plan[1]), plan[2]);
    assert(effects(plan) =~= seq![plan[1], plan[2]]);
}

/// Listing has no effects, finding has none but to open the browser if
/// asked for, and opening has none but to open the browser.
pub proof fn law_lookups_change_nothing(sites: Seq<SiteModel>, wanted: Seq<char>, open: bool)
    ensures
        effects(list_plan(sites)) == Seq::<ActionModel>::empty(),
        effects(find_plan(sites, wanted, open)) == (match found_name(listing_of(sites), wanted) {
            Some(name) => if open {
                seq![ActionModel::OpenBrowser { url: url_of(name) }]
            } else {
                Seq::empty()
            },
            None => Seq::empty(),
        }),
        effects(open_plan(sites, wanted)) == (match found_name(listing_of(sites), wanted) {
            Some(name) => seq![ActionModel::OpenBrowser { url: url_of(name) }],
            None => Seq::empty(),
        }),
{
    let names = listing_of(sites);
    lemma_showing_idle(sites, names, names.len() as int);
    lemma_effects_one(ActionModel::Say("No local server found."@));
    lemma_not_found_idle(wanted);
    match found_name(names, wanted) {
        Some(name) => {
            lemma_effects_opening(name);
            lemma_showing_idle(sites, seq![name], 1);
            let first = if open {
                opening(name)
            } else {
                Seq::empty()
            };
            lemma_effects_add(first, showing(sites, name));
            assert(effects(first) + effects(showing(sites, name)) =~= effects(first));
        },
        None => {},
    }
}

} // verus!
