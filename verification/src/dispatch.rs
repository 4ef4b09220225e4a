//! What each command has to do.
//!
//! A command is turned into a plan: the list of actions to carry out, in
//! order. Carrying them out (printing, running the certificate issuer,
//! writing and removing files, reloading the proxy, opening the browser)
//! is left to the caller; an action that fails ends the run.
use crate::cli::{Args, Commands, Shell};
use crate::display::{display_of, site_display, site_url, url_of, DisplayModel, SiteDisplay};
use crate::proxies::{has_key, lemma_with_entry_keeps, with_entry, Entry, ProxyMap};
use crate::proxy_arg::{invalid_proxy_warning, pair_text, parse_proxy_arg, parsed_proxy};
use crate::sites::{
    find_server_name, found_name, listing_of, site_named, SiteModel, SiteTable, LOCAL_SUFFIX,
};
use crate::text::{chars_of, ends_with, texts};
use crate::writer::{binding_text, render_site, site_config};
use vstd::prelude::*;
use vstd::string::*;

verus! {

/// One step of a plan, as text.
pub enum ActionModel {
    /// Print a line.
    Say(Seq<char>),
    /// Print an empty line and then a site: its address and its rows.
    Show(DisplayModel),
    /// Have the certificate of a site issued.
    IssueCertificate { name: Seq<char> },
    /// Write a file into the directory of the per-site files, replacing
    /// what is there.
    WriteConfig { file_name: Seq<char>, content: Seq<char> },
    /// Remove a file.
    RemoveFile { path: Seq<char> },
    /// Have the proxy load its configuration again.
    Reload,
    /// Open an address in the browser.
    OpenBrowser { url: Seq<char> },
    /// Print the completion script for a shell.
    Complete { shell: Shell },
}

/// One step of a plan.
#[derive(Clone, Debug, PartialEq, Eq)]
pub enum Action {
    /// Print a line.
    Say(String),
    /// Print an empty line and then a site: its address and its rows.
    Show(SiteDisplay),
    /// Have the certificate of a site issued.
    IssueCertificate { name: String },
    /// Write a file into the directory of the per-site files, replacing
    /// what is there.
    WriteConfig { file_name: String, content: String },
    /// Remove a file.
    RemoveFile { path: String },
    /// Have the proxy load its configuration again.
    Reload,
    /// Open an address in the browser.
    OpenBrowser { url: String },
    /// Print the completion script for a shell.
    Complete { shell: Shell },
}

impl View for Action {
    type V = ActionModel;

    open spec fn view(&self) -> ActionModel {
        match self {
            Action::Say(text) => ActionModel::Say(text@),
            Action::Show(display) => ActionModel::Show(display@),
            Action::IssueCertificate { name } => ActionModel::IssueCertificate { name: name@ },
            Action::WriteConfig { file_name, content } => ActionModel::WriteConfig {
                file_name: file_name@,
                content: content@,
            },
            Action::RemoveFile { path } => ActionModel::RemoveFile { path: path@ },
            Action::Reload => ActionModel::Reload,
            Action::OpenBrowser { url } => ActionModel::OpenBrowser { url: url@ },
            Action::Complete { shell } => ActionModel::Complete { shell: *shell },
        }
    }
}

/// A plan as text.
pub open spec fn models(plan: Seq<Action>) -> Seq<ActionModel> {
    plan.map_values(|a: Action| a@)
}

/// Whether an action touches anything outside the terminal: a file, the
/// certificate issuer, the proxy or the browser.
pub open spec fn has_effect(action: ActionModel) -> bool {
    !(action is Say || action is Show || action is Complete)
}

/// The steps that open a site in the browser.
pub open spec fn opening(name: Seq<char>) -> Seq<ActionModel> {
    seq![
        ActionModel::Say(Seq::empty()),
        ActionModel::Say(" \u{26a1} Opening "@ + url_of(name)),
        ActionModel::OpenBrowser { url: url_of(name) },
    ]
}

/// What is said when a site that was asked for is not there.
pub open spec fn not_found(wanted: Seq<char>) -> Seq<ActionModel> {
    seq![
        ActionModel::Say("\u{2757} Server name not found: "@ + wanted),
        ActionModel::Say("\u{2757}  Use the add command to create it."@),
    ]
}

/// What is said when a site that is to be added is there already.
pub open spec fn already_there(name: Seq<char>) -> Seq<ActionModel> {
    seq![
        ActionModel::Say("\u{2757} This server already exists: "@ + name),
        ActionModel::Say("\u{2757}  use --force to reconfigure"@),
    ]
}

/// The step that shows the site `name`.
pub open spec fn showing(sites: Seq<SiteModel>, name: Seq<char>) -> Seq<ActionModel> {
    match site_named(sites, name) {
        Some(site) => seq![ActionModel::Show(display_of(name, site.proxies))],
        None => Seq::empty(),
    }
}

/// The steps that show the first `count` of `names`.
pub open spec fn showing_all(sites: Seq<SiteModel>, names: Seq<Seq<char>>, count: int) -> Seq<
    ActionModel,
>
    decreases count,
{
    if count <= 0 {
        Seq::empty()
    } else {
        showing_all(sites, names, count - 1) + showing(sites, names[count - 1])
    }
}

/// The plan for listing.
pub open spec fn list_plan(sites: Seq<SiteModel>) -> Seq<ActionModel> {
    let names = listing_of(sites);
    if names.len() == 0 {
        seq![ActionModel::Say("No local server found."@)]
    } else {
        showing_all(sites, names, names.len() as int)
    }
}

/// The plan for opening a site.
pub open spec fn open_plan(sites: Seq<SiteModel>, wanted: Seq<char>) -> Seq<ActionModel> {
    match found_name(listing_of(sites), wanted) {
        Some(name) => opening(name),
        None => not_found(wanted),
    }
}

/// The plan for finding a site.
pub open spec fn find_plan(sites: Seq<SiteModel>, wanted: Seq<char>, open: bool) -> Seq<
    ActionModel,
> {
    match found_name(listing_of(sites), wanted) {
        Some(name) => (if open {
            opening(name)
        } else {
            Seq::empty()
        }) + showing(sites, name),
        None => not_found(wanted),
    }
}

/// The plan for removing a site: where it is found, its file is removed and
/// the proxy reloaded; where it is not, nothing is done but to say so.
pub open spec fn remove_plan(sites: Seq<SiteModel>, wanted: Seq<char>) -> Seq<ActionModel> {
    match found_name(listing_of(sites), wanted) {
        Some(name) => match site_named(sites, name) {
            Some(site) => seq![
                ActionModel::Say("Removing current configuration for: "@ + name),
                ActionModel::RemoveFile { path: site.path },
                ActionModel::Reload,
            ],
            None => seq![ActionModel::Say("Server name not found: "@ + wanted)],
        },
        None => seq![ActionModel::Say("Server name not found: "@ + wanted)],
    }
}

/// The name under which a site is added: the name that was given, with the
/// local domain behind it unless it ends with it.
pub open spec fn local_name(server_name: Seq<char>) -> Seq<char> {
    if LOCAL_SUFFIX@.is_suffix_of(server_name) {
        server_name
    } else {
        server_name + LOCAL_SUFFIX@
    }
}

/// The warning for an argument that could not be parsed.
pub open spec fn warning(arg: Seq<char>) -> ActionModel {
    ActionModel::Say("\u{2757} Invalid proxy: "@ + arg)
}

/// The websocket binding that the websocket argument stands for.
pub open spec fn websocket_of(ws: Seq<char>) -> Option<Entry> {
    if ws.len() == 0 {
        None
    } else {
        parsed_proxy(ws, false)
    }
}

/// The warning that the websocket argument gives rise to.
pub open spec fn websocket_warning(ws: Seq<char>) -> Seq<ActionModel> {
    if ws.len() > 0 && parsed_proxy(ws, false) is None {
        seq![warning(ws)]
    } else {
        Seq::empty()
    }
}

/// The mapping of a new site after the first `count` proxy arguments: the
/// root location with the default target, then each argument that parses,
/// in order.
pub open spec fn gathered(default_target: Seq<char>, proxy: Seq<Seq<char>>, count: int) -> Seq<
    Entry,
>
    decreases count,
{
    if count <= 0 {
        seq![("/"@, default_target)]
    } else {
        match parsed_proxy(proxy[count - 1], true) {
            Some((location, target)) => with_entry(
                gathered(default_target, proxy, count - 1),
                location,
                target,
            ),
            None => gathered(default_target, proxy, count - 1),
        }
    }
}

/// The warnings for those of the first `count` proxy arguments that do not
/// parse.
pub open spec fn gather_warnings(proxy: Seq<Seq<char>>, count: int) -> Seq<ActionModel>
    decreases count,
{
    if count <= 0 {
        Seq::empty()
    } else if parsed_proxy(proxy[count - 1], true) is None {
        gather_warnings(proxy, count - 1).push(warning(proxy[count - 1]))
    } else {
        gather_warnings(proxy, count - 1)
    }
}

/// What verbose output says of the first `count` entries.
pub open spec fn entry_notes(entries: Seq<Entry>, count: int) -> Seq<ActionModel>
    decreases count,
{
    if count <= 0 {
        Seq::empty()
    } else {
        entry_notes(entries, count - 1).push(
            ActionModel::Say("Location: "@ + entries[count - 1].0),
        ).push(ActionModel::Say("Target: "@ + entries[count - 1].1))
    }
}

/// A note that is said only in verbose output.
pub open spec fn note(verbose: bool, text: Seq<char>) -> Seq<ActionModel> {
    if verbose {
        seq![ActionModel::Say(text)]
    } else {
        Seq::empty()
    }
}

/// The mapping that is shown of a new site: its entries, and its websocket
/// location with the upstream group as target.
pub open spec fn shown_entries(entries: Seq<Entry>, websocket: Option<Entry>, name: Seq<char>) -> Seq<
    Entry,
> {
    match websocket {
        Some(ws) => with_entry(entries, ws.0, "ws-backend-"@ + name),
        None => entries,
    }
}

/// The first steps of setting a site up: the websocket argument is
/// parsed, the certificate is issued, and the proxy arguments are parsed.
pub open spec fn issue_steps(
    name: Seq<char>,
    ws: Seq<char>,
    proxy: Seq<Seq<char>>,
    verbose: bool,
) -> Seq<ActionModel> {
    websocket_warning(ws) + note(verbose, "No current configuration for server: "@ + name)
        + seq![ActionModel::IssueCertificate { name: name }] + gather_warnings(
        proxy,
        proxy.len() as int,
    )
}

/// The middle steps of setting a site up: its configuration is written to
/// the file named after it.
pub open spec fn write_steps(
    name: Seq<char>,
    entries: Seq<Entry>,
    websocket: Option<Entry>,
    verbose: bool,
) -> Seq<ActionModel> {
    (if verbose {
        entry_notes(entries, entries.len() as int)
    } else {
        Seq::empty()
    }) + seq![
        ActionModel::WriteConfig {
            file_name: name + ".conf"@,
            content: site_config(name, entries, websocket),
        },
    ] + note(verbose, ">> Wrote new configuration for server: "@ + name)
}

/// The last steps of setting a site up: the proxy is reloaded and the site
/// is shown, and opened if asked for.
pub open spec fn finish_steps(
    name: Seq<char>,
    entries: Seq<Entry>,
    websocket: Option<Entry>,
    open: bool,
) -> Seq<ActionModel> {
    seq![
        ActionModel::Reload,
        ActionModel::Show(display_of(name, shown_entries(entries, websocket, name))),
    ] + (if open {
        opening(name)
    } else {
        Seq::empty()
    })
}

/// The steps that set a site up, whether or not it was there before.
pub open spec fn setup_plan(
    server_name: Seq<char>,
    default_target: Seq<char>,
    ws: Seq<char>,
    proxy: Seq<Seq<char>>,
    open: bool,
    verbose: bool,
) -> Seq<ActionModel> {
    let name = local_name(server_name);
    let websocket = websocket_of(ws);
    let entries = gathered(default_target, proxy, proxy.len() as int);
    issue_steps(name, ws, proxy, verbose) + write_steps(name, entries, websocket, verbose)
        + finish_steps(name, entries, websocket, open)
}

/// The plan for adding a site. A site that is there already is left alone
/// unless `force` is set; else the site is set up.
pub open spec fn add_plan(
    sites: Seq<SiteModel>,
    server_name: Seq<char>,
    default_target: Seq<char>,
    ws: Seq<char>,
    proxy: Seq<Seq<char>>,
    force: bool,
    open: bool,
    verbose: bool,
) -> Seq<ActionModel> {
    match found_name(listing_of(sites), server_name) {
        Some(name) => if force {
            setup_plan(server_name, default_target, ws, proxy, open, verbose)
        } else {
            already_there(name)
        },
        None => seq![ActionModel::Say("Server name not found: "@ + server_name)] + setup_plan(
            server_name,
            default_target,
            ws,
            proxy,
            open,
            verbose,
        ),
    }
}

/// The plan for a command; no command stands for listing.
pub open spec fn plan_of(command: Option<Commands>, verbose: bool, sites: Seq<SiteModel>) -> Seq<
    ActionModel,
> {
    match command {
        None => list_plan(sites),
        Some(Commands::List) => list_plan(sites),
        Some(Commands::Find { server_name, open }) => find_plan(sites, server_name@, open),
        Some(Commands::Open { server_name }) => open_plan(sites, server_name@),
        Some(Commands::Add { server_name, default_target, ws, proxy, force, open }) => add_plan(
            sites,
            server_name@,
            default_target@,
            ws@,
            texts(proxy@),
            force,
            open,
            verbose,
        ),
        Some(Commands::Remove { server_name }) => remove_plan(sites, server_name@),
        Some(Commands::Reload) => seq![ActionModel::Reload],
        Some(Commands::Completion { shell }) => seq![ActionModel::Complete { shell: shell }],
    }
}

/// Appends one action.
fn push_action(out: &mut Vec<Action>, action: Action)
    ensures
        models(final(out)@) == models(old(out)@).push(action@),
{
    out.push(action);
    assert(models(out@) =~= models(old(out)@).push(action@));
}

/// Appends a line to say, made of two parts.
fn say(out: &mut Vec<Action>, head: &str, rest: &str)
    ensures
        models(final(out)@) == models(old(out)@).push(ActionModel::Say(head@ + rest@)),
{
    let mut text = String::from_str(head);
    text.append(rest);
    push_action(out, Action::Say(text));
}

/// Appends the steps that open a site in the browser.
fn push_opening(out: &mut Vec<Action>, name: &str)
    ensures
        models(final(out)@) == models(old(out)@) + opening(name@),
{
    push_action(out, Action::Say(String::new()));
    let url = site_url(name);
    say(out, " \u{26a1} Opening ", url.as_str());
    push_action(out, Action::OpenBrowser { url: url });
    assert(models(out@) =~= models(old(out)@) + opening(name@));
}

/// Appends what is said when a site that was asked for is not there.
fn push_not_found(out: &mut Vec<Action>, wanted: &str)
    ensures
        models(final(out)@) == models(old(out)@) + not_found(wanted@),
{
    say(out, "\u{2757} Server name not found: ", wanted);
    push_action(out, Action::Say(String::from_str("\u{2757}  Use the add command to create it.")));
    assert(models(out@) =~= models(old(out)@) + not_found(wanted@));
}

/// Appends the step that shows the site `name`.
fn push_showing(out: &mut Vec<Action>, table: &SiteTable, name: &str)
    ensures
        models(final(out)@) == models(old(out)@) + showing(table@, name@),
{
    match table.get(name) {
        Some(site) => {
            push_action(out, Action::Show(site_display(name, &site.proxies)));
            assert(models(out@) =~= models(old(out)@) + showing(table@, name@));
        },
        None => {
            assert(models(out@) =~= models(old(out)@) + showing(table@, name@));
        },
    }
}

/// The plan for listing the sites.
pub fn plan_list(table: &SiteTable) -> (plan: Vec<Action>)
    ensures
        models(plan@) == list_plan(table@),
{
    let names = table.listing();
    let mut out: Vec<Action> = Vec::new();
    if names.len() == 0 {
        push_action(&mut out, Action::Say(String::from_str("No local server found.")));
        assert(models(out@) =~= list_plan(table@));
        return out;
    }
    let mut i: usize = 0;
    assert(models(out@) =~= showing_all(table@, texts(names@), 0));
    while i < names.len()
        invariant
            i <= names@.len(),
            models(out@) == showing_all(table@, texts(names@), i as int),
        decreases names@.len() - i,
    {
        assert(texts(names@)[i as int] == names@[i as int]@);
        push_showing(&mut out, table, names[i].as_str());
        i += 1;
    }
    out
}

/// The plan for opening the site that answers to `server_name`.
pub fn plan_open(table: &SiteTable, server_name: &str) -> (plan: Vec<Action>)
    ensures
        models(plan@) == open_plan(table@, server_name@),
{
    let names = table.listing();
    let mut out: Vec<Action> = Vec::new();
    assert(models(out@) =~= Seq::<ActionModel>::empty());
    match find_server_name(server_name, names.as_slice()) {
        Some(name) => {
            push_opening(&mut out, name.as_str());
        },
        None => {
            push_not_found(&mut out, server_name);
        },
    }
    assert(models(out@) =~= open_plan(table@, server_name@));
    out
}

/// The plan for finding the site that answers to `server_name`, and for
/// opening it too if `open` is set.
pub fn plan_find(table: &SiteTable, server_name: &str, open: bool) -> (plan: Vec<Action>)
    ensures
        models(plan@) == find_plan(table@, server_name@, open),
{
    let names = table.listing();
    let mut out: Vec<Action> = Vec::new();
    assert(models(out@) =~= Seq::<ActionModel>::empty());
    match find_server_name(server_name, names.as_slice()) {
        Some(name) => {
            if open {
                push_opening(&mut out, name.as_str());
            }
            push_showing(&mut out, table, name.as_str());
        },
        None => {
            push_not_found(&mut out, server_name);
        },
    }
    assert(models(out@) =~= find_plan(table@, server_name@, open));
    out
}

/// The plan for removing the site that answers to `server_name`.
pub fn plan_remove(table: &SiteTable, server_name: &str) -> (plan: Vec<Action>)
    ensures
        models(plan@) == remove_plan(table@, server_name@),
{
    let names = table.listing();
    let mut out: Vec<Action> = Vec::new();
    assert(models(out@) =~= Seq::<ActionModel>::empty());
    match find_server_name(server_name, names.as_slice()) {
        Some(name) => {
            match table.get(name.as_str()) {
                Some(site) => {
                    say(&mut out, "Removing current configuration for: ", name.as_str());
                    push_action(&mut out, Action::RemoveFile { path: site.path.clone() });
                    push_action(&mut out, Action::Reload);
                },
                None => {
                    say(&mut out, "Server name not found: ", server_name);
                },
            }
        },
        None => {
            say(&mut out, "Server name not found: ", server_name);
        },
    }
    assert(models(out@) =~= remove_plan(table@, server_name@));
    out
}

/// The name under which a site is added.
pub fn local_site_name(server_name: &str) -> (r: String)
    ensures
        r@ == local_name(server_name@),
{
    let chars = chars_of(server_name);
    let suffix = chars_of(LOCAL_SUFFIX);
    let mut r = String::from_str(server_name);
    if !ends_with(chars.as_slice(), suffix.as_slice()) {
        r.append(LOCAL_SUFFIX);
    }
    r
}

/// The websocket binding that the websocket argument stands for; a
/// warning is appended where the argument does not parse.
fn websocket_binding(out: &mut Vec<Action>, ws: &str) -> (r: Option<(String, String)>)
    ensures
        pair_text(r) == websocket_of(ws@),
        models(final(out)@) == models(old(out)@) + websocket_warning(ws@),
{
    if ws.is_empty() {
        assert(models(out@) =~= models(old(out)@) + websocket_warning(ws@));
        None
    } else {
        let r = parse_proxy_arg(ws, false);
        if r.is_none() {
            push_action(out, Action::Say(invalid_proxy_warning(ws)));
        }
        assert(models(out@) =~= models(old(out)@) + websocket_warning(ws@));
        r
    }
}

/// Appends a note if verbose output was asked for.
fn push_note(out: &mut Vec<Action>, verbose: bool, head: &str, rest: &str)
    ensures
        models(final(out)@) == models(old(out)@) + note(verbose, head@ + rest@),
{
    if verbose {
        say(out, head, rest);
    }
    assert(models(out@) =~= models(old(out)@) + note(verbose, head@ + rest@));
}

/// The mapping of a new site; a warning is appended for each proxy
/// argument that does not parse.
fn gather(out: &mut Vec<Action>, default_target: &str, proxy: &Vec<String>) -> (proxies: ProxyMap)
    ensures
        proxies@ == gathered(default_target@, texts(proxy@), proxy@.len() as int),
        proxies.wf(),
        has_key(proxies@, "/"@),
        models(final(out)@) == models(old(out)@) + gather_warnings(
            texts(proxy@),
            proxy@.len() as int,
        ),
{
    let mut proxies = ProxyMap::new();
    proxies.insert(String::from_str("/"), String::from_str(default_target));
    assert(proxies@ =~= gathered(default_target@, texts(proxy@), 0));
    assert(models(out@) =~= models(old(out)@) + gather_warnings(texts(proxy@), 0));
    let mut i: usize = 0;
    while i < proxy.len()
        invariant
            i <= proxy@.len(),
            proxies@ == gathered(default_target@, texts(proxy@), i as int),
            proxies.wf(),
            has_key(proxies@, "/"@),
            models(out@) == models(old(out)@) + gather_warnings(texts(proxy@), i as int),
        decreases proxy@.len() - i,
    {
        assert(texts(proxy@)[i as int] == proxy@[i as int]@);
        match parse_proxy_arg(proxy[i].as_str(), true) {
            Some((location, target)) => {
                proof {
                    lemma_with_entry_keeps(proxies@, location@, target@, "/"@);
                }
                proxies.insert(location, target);
            },
            None => {
                push_action(out, Action::Say(invalid_proxy_warning(proxy[i].as_str())));
                assert(models(out@) =~= models(old(out)@) + gather_warnings(
                    texts(proxy@),
                    i + 1,
                ));
            },
        }
        i += 1;
    }
    proxies
}

/// Appends what verbose output says of a mapping.
fn push_entry_notes(out: &mut Vec<Action>, verbose: bool, proxies: &ProxyMap)
    ensures
        models(final(out)@) == models(old(out)@) + (if verbose {
            entry_notes(proxies@, proxies@.len() as int)
        } else {
            Seq::empty()
        }),
{
    if verbose {
        let mut i: usize = 0;
        assert(models(out@) =~= models(old(out)@) + entry_notes(proxies@, 0));
        while i < proxies.len()
            invariant
                i <= proxies@.len(),
                models(out@) == models(old(out)@) + entry_notes(proxies@, i as int),
            decreases proxies@.len() - i,
        {
            say(out, "Location: ", proxies.location(i).as_str());
            say(out, "Target: ", proxies.target(i).as_str());
            assert(models(out@) =~= models(old(out)@) + entry_notes(proxies@, i + 1));
            i += 1;
        }
    } else {
        assert(models(out@) =~= models(old(out)@) + Seq::<ActionModel>::empty());
    }
}

/// Appends the first steps of setting a site up, and hands out the
/// websocket binding and the mapping of the site.
fn push_issue_steps(
    out: &mut Vec<Action>,
    name: &str,
    default_target: &str,
    ws: &str,
    proxy: &Vec<String>,
    verbose: bool,
) -> (r: (Option<(String, String)>, ProxyMap))
    ensures
        pair_text(r.0) == websocket_of(ws@),
        r.1@ == gathered(default_target@, texts(proxy@), proxy@.len() as int),
        r.1.wf(),
        has_key(r.1@, "/"@),
        models(final(out)@) == models(old(out)@) + issue_steps(name@, ws@, texts(proxy@), verbose),
{
    let ghost start = models(out@);
    let websocket = websocket_binding(out, ws);
    let ghost a = websocket_warning(ws@);
    assert(models(out@) == start + a);
    push_note(out, verbose, "No current configuration for server: ", name);
    let ghost b = note(verbose, "No current configuration for server: "@ + name@);
    assert(models(out@) =~= start + (a + b));
    push_action(out, Action::IssueCertificate { name: String::from_str(name) });
    let ghost c = seq![ActionModel::IssueCertificate { name: name@ }];
    assert(models(out@) =~= start + (a + b + c));
    let proxies = gather(out, default_target, proxy);
    let ghost d = gather_warnings(texts(proxy@), proxy@.len() as int);
    assert(models(out@) =~= start + (a + b + c + d));
    (websocket, proxies)
}

/// Appends the middle steps of setting a site up.
fn push_write_steps(
    out: &mut Vec<Action>,
    name: &str,
    proxies: &ProxyMap,
    websocket: &Option<(String, String)>,
    verbose: bool,
)
    requires
        proxies.wf(),
        has_key(proxies@, "/"@),
    ensures
        models(final(out)@) == models(old(out)@) + write_steps(
            name@,
            proxies@,
            pair_text(*websocket),
            verbose,
        ),
{
    let ghost start = models(out@);
    push_entry_notes(out, verbose, proxies);
    let ghost a = if verbose {
        entry_notes(proxies@, proxies@.len() as int)
    } else {
        Seq::empty()
    };
    assert(models(out@) == start + a);
    let content = render_site(name, proxies, websocket);
    assert(binding_text(*websocket) == pair_text(*websocket));
    let mut file_name = String::from_str(name);
    file_name.append(".conf");
    push_action(out, Action::WriteConfig { file_name: file_name, content: content });
    let ghost b = seq![
        ActionModel::WriteConfig {
            file_name: name@ + ".conf"@,
            content: site_config(name@, proxies@, pair_text(*websocket)),
        },
    ];
    assert(models(out@) =~= start + (a + b));
    push_note(out, verbose, ">> Wrote new configuration for server: ", name);
    let ghost c = note(verbose, ">> Wrote new configuration for server: "@ + name@);
    assert(models(out@) =~= start + (a + b + c));
}

/// Appends the last steps of setting a site up.
fn push_finish_steps(
    out: &mut Vec<Action>,
    name: &str,
    proxies: ProxyMap,
    websocket: &Option<(String, String)>,
    open: bool,
)
    requires
        proxies.wf(),
    ensures
        models(final(out)@) == models(old(out)@) + finish_steps(
            name@,
            proxies@,
            pair_text(*websocket),
            open,
        ),
{
    let ghost start = models(out@);
    let ghost entries = proxies@;
    let mut proxies = proxies;
    push_action(out, Action::Reload);
    match websocket {
        Some((location, _)) => {
            let mut upstream = String::from_str("ws-backend-");
            upstream.append(name);
            proxies.insert(location.clone(), upstream);
        },
        None => {},
    }
    assert(proxies@ == shown_entries(entries, pair_text(*websocket), name@));
    push_action(out, Action::Show(site_display(name, &proxies)));
    let ghost a = seq![
        ActionModel::Reload,
        ActionModel::Show(display_of(name@, shown_entries(entries, pair_text(*websocket), name@))),
    ];
    assert(models(out@) =~= start + a);
    if open {
        push_opening(out, name);
        assert(models(out@) =~= start + (a + opening(name@)));
    } else {
        assert(models(out@) =~= start + (a + Seq::<ActionModel>::empty()));
    }
}

/// Appends the steps that set a site up.
fn push_setup(
    out: &mut Vec<Action>,
    server_name: &str,
    default_target: &str,
    ws: &str,
    proxy: &Vec<String>,
    open: bool,
    verbose: bool,
)
    ensures
        models(final(out)@) == models(old(out)@) + setup_plan(
            server_name@,
            default_target@,
            ws@,
            texts(proxy@),
            open,
            verbose,
        ),
{
    let ghost start = models(out@);
    let name = local_site_name(server_name);
    let (websocket, proxies) = push_issue_steps(
        out,
        name.as_str(),
        default_target,
        ws,
        proxy,
        verbose,
    );
    let ghost a = issue_steps(name@, ws@, texts(proxy@), verbose);
    let ghost entries = proxies@;
    push_write_steps(out, name.as_str(), &proxies, &websocket, verbose);
    let ghost b = write_steps(name@, entries, pair_text(websocket), verbose);
    assert(models(out@) =~= start + (a + b));
    push_finish_steps(out, name.as_str(), proxies, &websocket, open);
    let ghost c = finish_steps(name@, entries, pair_text(websocket), open);
    assert(models(out@) =~= start + (a + b + c));
}

/// The plan for adding the site `server_name`.
///
/// A site that is there already is left alone unless `force` is set. Else
/// its certificate is issued, its configuration is written with the
/// default target at the root location, the proxy arguments that parse,
/// and the websocket binding, the proxy is reloaded, and the site is
/// shown, and opened if `open` is set.
pub fn plan_add(
    table: &SiteTable,
    server_name: &str,
    default_target: &str,
    ws: &str,
    proxy: &Vec<String>,
    force: bool,
    open: bool,
    verbose: bool,
) -> (plan: Vec<Action>)
    ensures
        models(plan@) == add_plan(
            table@,
            server_name@,
            default_target@,
            ws@,
            texts(proxy@),
            force,
            open,
            verbose,
        ),
{
    let names = table.listing();
    let mut out: Vec<Action> = Vec::new();
    assert(models(out@) =~= Seq::<ActionModel>::empty());
    match find_server_name(server_name, names.as_slice()) {
        Some(name) => {
            if !force {
                say(&mut out, "\u{2757} This server already exists: ", name.as_str());
                push_action(
                    &mut out,
                    Action::Say(String::from_str("\u{2757}  use --force to reconfigure")),
                );
                assert(models(out@) =~= already_there(name@));
                return out;
            }
        },
        None => {
            say(&mut out, "Server name not found: ", server_name);
        },
    }
    push_setup(&mut out, server_name, default_target, ws, proxy, open, verbose);
    assert(models(out@) =~= add_plan(
        table@,
        server_name@,
        default_target@,
        ws@,
        texts(proxy@),
        force,
        open,
        verbose,
    ));
    out
}

/// The plan for the command of `args`, given the sites that were
/// discovered.
pub fn plan(args: &Args, table: &SiteTable) -> (plan: Vec<Action>)
    ensures
        models(plan@) == plan_of(args.command, args.verbose > 0, table@),
{
    let verbose = args.is_verbose();
    match &args.command {
        None => plan_list(table),
        Some(Commands::List) => plan_list(table),
        Some(Commands::Find { server_name, open }) => plan_find(table, server_name.as_str(), *open),
        Some(Commands::Open { server_name }) => plan_open(table, server_name.as_str()),
        Some(Commands::Add { server_name, default_target, ws, proxy, force, open }) => plan_add(
            table,
            server_name.as_str(),
            default_target.as_str(),
            ws.as_str(),
            proxy,
            *force,
            *open,
            verbose,
        ),
        Some(Commands::Remove { server_name }) => plan_remove(table, server_name.as_str()),
        Some(Commands::Reload) => {
            let mut out: Vec<Action> = Vec::new();
            push_action(&mut out, Action::Reload);
            assert(models(out@) =~= seq![ActionModel::Reload]);
            out
        },
        Some(Commands::Completion { shell }) => {
            let mut out: Vec<Action> = Vec::new();
            push_action(&mut out, Action::Complete { shell: *shell });
            assert(models(out@) =~= seq![ActionModel::Complete { shell: *shell }]);
            out
        },
    }
}

} // verus!
