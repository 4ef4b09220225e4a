//! The sites that were discovered: each with its name, the file that
//! defines it, and its mapping from location to target.
use crate::pattern::text_of;
use crate::proxies::{distinct_keys, Entry, ProxyMap};
use crate::reader::{scan_config, scanned, ScanModel, SiteScan};
use crate::text::{
    chars_of, comes_before, ends_with, lemma_precedes_irreflexive, lemma_precedes_total,
    lemma_precedes_transitive, precedes, texts,
};
use vstd::prelude::*;
use vstd::string::*;

verus! {

/// The domain under which local sites live.
pub const LOCAL_SUFFIX: &'static str = ".localdev";

/// A site as text.
pub struct SiteModel {
    /// The server name.
    pub name: Seq<char>,
    /// The file that defines the site.
    pub path: Seq<char>,
    /// The targets, by location.
    pub proxies: Seq<Entry>,
}

/// A site.
#[derive(Clone, Debug, PartialEq, Eq)]
pub struct Site {
    /// The server name.
    pub name: String,
    /// The file that defines the site.
    pub path: String,
    /// The targets, by location.
    pub proxies: ProxyMap,
}

impl View for Site {
    type V = SiteModel;

    open spec fn view(&self) -> SiteModel {
        SiteModel { name: self.name@, path: self.path@, proxies: self.proxies@ }
    }
}

/// The index of the first site at or after `from` with the name `name`, or
/// the number of sites if there is none.
pub open spec fn site_index(sites: Seq<SiteModel>, name: Seq<char>, from: int) -> int
    decreases sites.len() - from,
{
    if 0 <= from < sites.len() && sites[from].name != name {
        site_index(sites, name, from + 1)
    } else {
        from
    }
}

/// Whether there is a site with the name `name`.
pub open spec fn has_site(sites: Seq<SiteModel>, name: Seq<char>) -> bool {
    site_index(sites, name, 0) < sites.len()
}

/// The site with the name `name`.
pub open spec fn site_named(sites: Seq<SiteModel>, name: Seq<char>) -> Option<SiteModel> {
    if has_site(sites, name) {
        Some(sites[site_index(sites, name, 0)])
    } else {
        None
    }
}

/// The sites after `path` was recorded as the file of `name`: a site that
/// is there keeps its place and its mapping; a new one goes to the end,
/// with an empty mapping.
pub open spec fn with_path(sites: Seq<SiteModel>, name: Seq<char>, path: Seq<char>) -> Seq<
    SiteModel,
> {
    let at = site_index(sites, name, 0);
    if at < sites.len() {
        sites.update(at, SiteModel { path: path, ..sites[at] })
    } else {
        sites.push(SiteModel { name: name, path: path, proxies: Seq::empty() })
    }
}

/// The sites after `name` was given the mapping `proxies`: a site that is
/// there keeps its place and its file; a new one goes to the end, with no
/// file.
pub open spec fn with_proxies(sites: Seq<SiteModel>, name: Seq<char>, proxies: Seq<Entry>) -> Seq<
    SiteModel,
> {
    let at = site_index(sites, name, 0);
    if at < sites.len() {
        sites.update(at, SiteModel { proxies: proxies, ..sites[at] })
    } else {
        sites.push(SiteModel { name: name, path: Seq::empty(), proxies: proxies })
    }
}

/// The sites after `path` was recorded as the file of the first `count` of
/// `names`.
pub open spec fn with_paths(
    sites: Seq<SiteModel>,
    names: Seq<Seq<char>>,
    path: Seq<char>,
    count: int,
) -> Seq<SiteModel>
    decreases count,
{
    if count <= 0 {
        sites
    } else {
        with_path(with_paths(sites, names, path, count - 1), names[count - 1], path)
    }
}

/// The sites after a file was taken in: `path` is recorded as the file of
/// every server name that the file holds, and the last of them gets the
/// mapping that was read from the file.
pub open spec fn absorbed(sites: Seq<SiteModel>, path: Seq<char>, scan: ScanModel) -> Seq<
    SiteModel,
> {
    let recorded = with_paths(sites, scan.names, path, scan.names.len() as int);
    if scan.names.len() > 0 {
        with_proxies(recorded, scan.names.last(), scan.proxies)
    } else {
        recorded
    }
}

/// No name occurs twice, and no site has two targets for a location.
pub open spec fn valid_sites(sites: Seq<SiteModel>) -> bool {
    &&& forall|i: int, j: int|
        0 <= i < j < sites.len() ==> (#[trigger] sites[i]).name != (#[trigger] sites[j]).name
    &&& forall|i: int| 0 <= i < sites.len() ==> distinct_keys((#[trigger] sites[i]).proxies)
}

/// `site_index` finds the first site with the name, if there is one.
pub proof fn lemma_site_index(sites: Seq<SiteModel>, name: Seq<char>, from: int)
    requires
        0 <= from <= sites.len(),
    ensures
        from <= site_index(sites, name, from) <= sites.len(),
        forall|j: int| from <= j < site_index(sites, name, from) ==> (#[trigger] sites[j]).name != name,
        site_index(sites, name, from) < sites.len() ==> sites[site_index(sites, name, from)].name
            == name,
    decreases sites.len() - from,
{
    if from < sites.len() && sites[from].name != name {
        lemma_site_index(sites, name, from + 1);
    }
}

/// Recording a file keeps the sites valid and makes the site present.
pub proof fn lemma_with_path(sites: Seq<SiteModel>, name: Seq<char>, path: Seq<char>)
    requires
        valid_sites(sites),
    ensures
        valid_sites(with_path(sites, name, path)),
        has_site(with_path(sites, name, path), name),
        site_index(with_path(sites, name, path), name, 0) == site_index(sites, name, 0),
        with_path(sites, name, path).len() >= sites.len(),
{
    let after = with_path(sites, name, path);
    let at = site_index(sites, name, 0);
    lemma_site_index(sites, name, 0);
    assert forall|i: int, j: int| 0 <= i < j < after.len() implies (#[trigger] after[i]).name != (
    #[trigger] after[j]).name by {
        if at < sites.len() {
            assert(sites[i].name != sites[j].name);
        } else if j < sites.len() {
            assert(sites[i].name != sites[j].name);
        } else {
            assert(sites[i].name != name);
        }
    }
    assert forall|i: int| 0 <= i < after.len() implies distinct_keys(
        (#[trigger] after[i]).proxies,
    ) by {
        if i < sites.len() {
            assert(distinct_keys(sites[i].proxies));
        }
    }
    lemma_site_index(after, name, 0);
    if site_index(after, name, 0) < at {
        assert(sites[site_index(after, name, 0)].name != name);
    }
    assert(after[at].name == name);
}

/// Giving a site a mapping keeps the sites valid.
pub proof fn lemma_with_proxies(sites: Seq<SiteModel>, name: Seq<char>, proxies: Seq<Entry>)
    requires
        valid_sites(sites),
        distinct_keys(proxies),
    ensures
        valid_sites(with_proxies(sites, name, proxies)),
{
    let after = with_proxies(sites, name, proxies);
    let at = site_index(sites, name, 0);
    lemma_site_index(sites, name, 0);
    assert forall|i: int, j: int| 0 <= i < j < after.len() implies (#[trigger] after[i]).name != (
    #[trigger] after[j]).name by {
        if at < sites.len() {
            assert(sites[i].name != sites[j].name);
        } else if j < sites.len() {
            assert(sites[i].name != sites[j].name);
        } else {
            assert(sites[i].name != name);
        }
    }
    assert forall|i: int| 0 <= i < after.len() implies distinct_keys(
        (#[trigger] after[i]).proxies,
    ) by {
        if i < sites.len() && i != at {
            assert(distinct_keys(sites[i].proxies));
        }
    }
}

/// The index of the first name at or after `from` that `name` does not
/// come after, or the number of names if there is none.
pub open spec fn rank(list: Seq<Seq<char>>, name: Seq<char>, from: int) -> int
    decreases list.len() - from,
{
    if 0 <= from < list.len() && precedes(list[from], name) {
        rank(list, name, from + 1)
    } else {
        from
    }
}

/// An ordered list after `name` was put in at its place, unless it is there
/// already.
pub open spec fn inserted(list: Seq<Seq<char>>, name: Seq<char>) -> Seq<Seq<char>> {
    let at = rank(list, name, 0);
    if at < list.len() && list[at] == name {
        list
    } else {
        list.insert(at, name)
    }
}

/// Every name comes strictly before the names after it.
pub open spec fn increasing(list: Seq<Seq<char>>) -> bool {
    forall|i: int, j: int| 0 <= i < j < list.len() ==> precedes(#[trigger] list[i], #[trigger] list[j])
}

/// `rank` stops at the first name that does not come before `name`.
pub proof fn lemma_rank(list: Seq<Seq<char>>, name: Seq<char>, from: int)
    requires
        0 <= from <= list.len(),
    ensures
        from <= rank(list, name, from) <= list.len(),
        forall|j: int| from <= j < rank(list, name, from) ==> precedes(#[trigger] list[j], name),
        rank(list, name, from) < list.len() ==> !precedes(list[rank(list, name, from)], name),
    decreases list.len() - from,
{
    if from < list.len() && precedes(list[from], name) {
        lemma_rank(list, name, from + 1);
    }
}

/// Putting a name into an increasing list leaves it increasing, and the
/// list then holds the name and what it held before, nothing else.
pub proof fn lemma_inserted(list: Seq<Seq<char>>, name: Seq<char>)
    requires
        increasing(list),
    ensures
        increasing(inserted(list, name)),
        forall|other: Seq<char>|
            inserted(list, name).contains(other) <==> (list.contains(other) || other == name),
{
    let at = rank(list, name, 0);
    let after = inserted(list, name);
    lemma_rank(list, name, 0);
    if at < list.len() && list[at] == name {
        assert(list.contains(name));
    } else {
        assert forall|j: int| at <= j < list.len() implies precedes(name, #[trigger] list[j]) by {
            if !precedes(name, list[at]) {
                assert(name.take(0) =~= list[at].take(0));
                lemma_precedes_total(name, list[at], 0);
            }
            if j > at {
                assert(precedes(list[at], list[j]));
                lemma_precedes_transitive(name, list[at], list[j], 0);
            }
        }
        assert forall|i: int, j: int| 0 <= i < j < after.len() implies precedes(
            #[trigger] after[i],
            #[trigger] after[j],
        ) by {
            if j < at {
                assert(precedes(list[i], list[j]));
            } else if j == at {
                assert(precedes(list[i], name));
            } else if i < at {
                assert(precedes(list[i], name));
                assert(precedes(name, list[j - 1]));
                lemma_precedes_transitive(list[i], name, list[j - 1], 0);
            } else if i == at {
                assert(precedes(name, list[j - 1]));
            } else {
                assert(precedes(list[i - 1], list[j - 1]));
            }
        }
        assert forall|other: Seq<char>| after.contains(other) <==> (list.contains(other) || other
            == name) by {
            if after.contains(other) {
                let k = choose|k: int| 0 <= k < after.len() && after[k] == other;
                if k < at {
                    assert(list[k] == other);
                } else if k > at {
                    assert(list[k - 1] == other);
                }
            }
            if list.contains(other) {
                let k = choose|k: int| 0 <= k < list.len() && list[k] == other;
                if k < at {
                    assert(after[k] == other);
                } else {
                    assert(after[k + 1] == other);
                }
            }
            if other == name {
                assert(after[at] == name);
            }
        }
    }
}

/// The names among the first `count` sites that end with the local domain,
/// in increasing order and each once.
pub open spec fn local_names(sites: Seq<SiteModel>, count: int) -> Seq<Seq<char>>
    decreases count,
{
    if count <= 0 {
        Seq::empty()
    } else if LOCAL_SUFFIX@.is_suffix_of(sites[count - 1].name) {
        inserted(local_names(sites, count - 1), sites[count - 1].name)
    } else {
        local_names(sites, count - 1)
    }
}

/// The listing: the names of the sites that end with the local domain, in
/// increasing order and each once.
pub open spec fn listing_of(sites: Seq<SiteModel>) -> Seq<Seq<char>> {
    local_names(sites, sites.len() as int)
}

/// Whether one of the first `count` sites has the name `name`.
pub open spec fn named_among(sites: Seq<SiteModel>, count: int, name: Seq<char>) -> bool {
    exists|i: int| 0 <= i < count && (#[trigger] sites[i]).name == name
}

/// The names among the first `count` sites are in increasing order, and
/// `name` is one of them exactly if it ends with the local domain and is
/// the name of one of those sites.
pub proof fn lemma_local_names(sites: Seq<SiteModel>, count: int, name: Seq<char>)
    requires
        0 <= count <= sites.len(),
    ensures
        increasing(local_names(sites, count)),
        local_names(sites, count).contains(name) <==> (LOCAL_SUFFIX@.is_suffix_of(name)
            && named_among(sites, count, name)),
    decreases count,
{
    if count > 0 {
        lemma_local_names(sites, count - 1, name);
        let before = local_names(sites, count - 1);
        let last = sites[count - 1].name;
        if LOCAL_SUFFIX@.is_suffix_of(last) {
            lemma_inserted(before, last);
        }
        if named_among(sites, count - 1, name) {
            let i = choose|i: int| 0 <= i < count - 1 && (#[trigger] sites[i]).name == name;
            assert(sites[i].name == name);
        }
        if named_among(sites, count, name) {
            let i = choose|i: int| 0 <= i < count && (#[trigger] sites[i]).name == name;
            if i < count - 1 {
                assert(named_among(sites, count - 1, name));
            }
        }
        if last == name {
            assert(sites[count - 1].name == name);
        }
    }
}

/// The listing is in strictly increasing order, and it holds exactly the
/// names of the sites that end with the local domain.
pub proof fn law_listing(sites: Seq<SiteModel>)
    ensures
        increasing(listing_of(sites)),
        forall|name: Seq<char>|
            #[trigger] listing_of(sites).contains(name) <==> (LOCAL_SUFFIX@.is_suffix_of(name)
                && named_among(sites, sites.len() as int, name)),
{
    lemma_local_names(sites, sites.len() as int, Seq::empty());
    assert forall|name: Seq<char>|
        #[trigger] listing_of(sites).contains(name) <==> (LOCAL_SUFFIX@.is_suffix_of(name)
            && named_among(sites, sites.len() as int, name)) by {
        lemma_local_names(sites, sites.len() as int, name);
    }
}

/// An increasing list holds no name twice.
pub proof fn law_increasing_is_distinct(list: Seq<Seq<char>>)
    requires
        increasing(list),
    ensures
        forall|i: int, j: int| 0 <= i < j < list.len() ==> list[i] != list[j],
{
    assert forall|i: int, j: int| 0 <= i < j < list.len() implies list[i] != list[j] by {
        lemma_precedes_irreflexive(list[i], 0);
        assert(precedes(list[i], list[j]));
    }
}

/// The name that answers to `wanted`: `wanted` itself if it is among the
/// names; else `wanted` with the local domain behind it, if that is among
/// them; else none. The order of the names plays no part.
pub open spec fn found_name(names: Seq<Seq<char>>, wanted: Seq<char>) -> Option<Seq<char>> {
    if names.contains(wanted) {
        Some(wanted)
    } else if names.contains(wanted + LOCAL_SUFFIX@) {
        Some(wanted + LOCAL_SUFFIX@)
    } else {
        None
    }
}

/// Whether `wanted` is among `names`.
pub fn holds_name(names: &[String], wanted: &String) -> (r: bool)
    ensures
        r == texts(names@).contains(wanted@),
{
    let mut i: usize = 0;
    while i < names.len()
        invariant
            i <= names@.len(),
            forall|j: int| 0 <= j < i ==> texts(names@)[j] != wanted@,
        decreases names@.len() - i,
    {
        assert(texts(names@)[i as int] == names@[i as int]@);
        if names[i] == *wanted {
            return true;
        }
        i += 1;
    }
    false
}

/// Finds `server_name` among `server_names`: the literal name is tried
/// first, then the name with the local domain behind it.
pub fn find_server_name(server_name: &str, server_names: &[String]) -> (r: Option<String>)
    ensures
        text_of(r) == found_name(texts(server_names@), server_name@),
{
    let plain = String::from_str(server_name);
    if holds_name(server_names, &plain) {
        return Some(plain);
    }
    let mut local = String::from_str(server_name);
    local.append(LOCAL_SUFFIX);
    if holds_name(server_names, &local) {
        return Some(local);
    }
    None
}

/// The sites that were discovered.
#[derive(Clone, Debug)]
pub struct SiteTable {
    sites: Vec<Site>,
}

impl View for SiteTable {
    type V = Seq<SiteModel>;

    /// The sites, in the order in which their names were first met.
    closed spec fn view(&self) -> Seq<SiteModel> {
        self.sites@.map_values(|s: Site| s@)
    }
}

impl SiteTable {
    /// No name occurs twice, and no site has two targets for a location.
    pub open spec fn wf(&self) -> bool {
        valid_sites(self@)
    }

    /// No sites.
    pub fn new() -> (r: SiteTable)
        ensures
            r@ == Seq::<SiteModel>::empty(),
            r.wf(),
    {
        SiteTable { sites: Vec::new() }
    }

    /// The number of sites.
    pub fn len(&self) -> (n: usize)
        ensures
            n == self@.len(),
    {
        self.sites.len()
    }

    /// The site at `index`.
    pub fn site(&self, index: usize) -> (r: &Site)
        requires
            index < self@.len(),
        ensures
            r@ == self@[index as int],
    {
        &self.sites[index]
    }

    /// The index of the site with the name `name`, or the number of sites.
    pub fn position(&self, name: &str) -> (r: usize)
        ensures
            r == site_index(self@, name@, 0),
            r <= self@.len(),
    {
        let wanted = String::from_str(name);
        let mut i: usize = 0;
        while i < self.sites.len() && self.sites[i].name != wanted
            invariant
                i <= self.sites.len(),
                wanted@ == name@,
                site_index(self@, name@, i as int) == site_index(self@, name@, 0),
            decreases self.sites.len() - i,
        {
            i += 1;
        }
        i
    }

    /// The site with the name `name`.
    pub fn get(&self, name: &str) -> (r: Option<&Site>)
        ensures
            match r {
                Some(site) => site_named(self@, name@) == Some(site@),
                None => site_named(self@, name@) is None,
            },
    {
        let at = self.position(name);
        if at < self.sites.len() {
            Some(&self.sites[at])
        } else {
            None
        }
    }

    /// Records `path` as the file of the site `name`.
    pub fn record_path(&mut self, name: &str, path: &str)
        requires
            old(self).wf(),
        ensures
            final(self)@ == with_path(old(self)@, name@, path@),
            final(self).wf(),
    {
        let at = self.position(name);
        proof {
            lemma_with_path(self@, name@, path@);
        }
        if at < self.sites.len() {
            let site = self.sites.remove(at);
            let renewed = Site { name: site.name, path: String::from_str(path), proxies: site.proxies };
            self.sites.insert(at, renewed);
            assert(self@ =~= with_path(old(self)@, name@, path@));
        } else {
            self.sites.push(
                Site {
                    name: String::from_str(name),
                    path: String::from_str(path),
                    proxies: ProxyMap::new(),
                },
            );
            assert(self@ =~= with_path(old(self)@, name@, path@));
        }
    }

    /// Gives the site `name` the mapping `proxies`.
    pub fn set_proxies(&mut self, name: &str, proxies: ProxyMap)
        requires
            old(self).wf(),
            proxies.wf(),
        ensures
            final(self)@ == with_proxies(old(self)@, name@, proxies@),
            final(self).wf(),
    {
        let at = self.position(name);
        proof {
            lemma_with_proxies(self@, name@, proxies@);
        }
        if at < self.sites.len() {
            let site = self.sites.remove(at);
            let renewed = Site { name: site.name, path: site.path, proxies: proxies };
            self.sites.insert(at, renewed);
            assert(self@ =~= with_proxies(old(self)@, name@, proxies@));
        } else {
            self.sites.push(Site { name: String::from_str(name), path: String::new(), proxies: proxies });
            assert(self@ =~= with_proxies(old(self)@, name@, proxies@));
        }
    }

    /// Takes in what was read from the file `path`.
    pub fn absorb(&mut self, path: &str, scan: SiteScan)
        requires
            old(self).wf(),
            scan.wf(),
        ensures
            final(self)@ == absorbed(old(self)@, path@, scan@),
            final(self).wf(),
    {
        let mut i: usize = 0;
        while i < scan.names.len()
            invariant
                i <= scan.names@.len(),
                scan.wf(),
                self.wf(),
                self@ == with_paths(old(self)@, scan@.names, path@, i as int),
            decreases scan.names@.len() - i,
        {
            assert(scan@.names[i as int] == scan.names@[i as int]@);
            self.record_path(scan.names[i].as_str(), path);
            i += 1;
        }
        if scan.names.len() > 0 {
            let last = scan.names[scan.names.len() - 1].clone();
            assert(last@ == scan@.names.last());
            self.set_proxies(last.as_str(), scan.proxies);
        }
    }

    /// Reads the configuration file `path`, whose text is `content`, and
    /// takes in the sites that it defines.
    pub fn read_file(&mut self, path: &str, content: &str)
        requires
            old(self).wf(),
        ensures
            final(self)@ == absorbed(old(self)@, path@, scanned(content@)),
            final(self).wf(),
    {
        let scan = scan_config(content);
        self.absorb(path, scan);
    }

    /// The listing: the names that end with the local domain, in
    /// increasing order and each once.
    pub fn listing(&self) -> (r: Vec<String>)
        ensures
            texts(r@) == listing_of(self@),
    {
        let suffix = chars_of(LOCAL_SUFFIX);
        let mut r: Vec<String> = Vec::new();
        let mut i: usize = 0;
        assert(texts(r@) =~= Seq::<Seq<char>>::empty());
        while i < self.sites.len()
            invariant
                i <= self.sites@.len(),
                suffix@ == LOCAL_SUFFIX@,
                texts(r@) == local_names(self@, i as int),
            decreases self.sites@.len() - i,
        {
            let name = chars_of(self.sites[i].name.as_str());
            assert(self@[i as int].name == name@);
            if ends_with(name.as_slice(), suffix.as_slice()) {
                insert_name(&mut r, &self.sites[i].name);
            }
            i += 1;
        }
        r
    }
}

/// Whether the name at `at` comes before `wanted`.
fn name_comes_before(list: &Vec<String>, at: usize, wanted: &[char]) -> (r: bool)
    requires
        at < list@.len(),
    ensures
        r == precedes(texts(list@)[at as int], wanted@),
{
    let here = chars_of(list[at].as_str());
    comes_before(here.as_slice(), wanted)
}

/// Puts `name` into an ordered list at its place, unless it is there
/// already.
pub fn insert_name(list: &mut Vec<String>, name: &String)
    ensures
        texts(final(list)@) == inserted(texts(old(list)@), name@),
{
    let wanted = chars_of(name.as_str());
    let mut at: usize = 0;
    while at < list.len() && name_comes_before(list, at, wanted.as_slice())
        invariant
            at <= list@.len(),
            wanted@ == name@,
            list@ == old(list)@,
            rank(texts(list@), name@, at as int) == rank(texts(list@), name@, 0),
        decreases list@.len() - at,
    {
        at += 1;
    }
    if at < list.len() {
        assert(texts(list@)[at as int] == list@[at as int]@);
    }
    if at < list.len() && list[at] == *name {
    } else {
        list.insert(at, name.clone());
        assert(texts(list@) =~= texts(old(list)@).insert(at as int, name@));
    }
}

} // verus!
