//! What is shown of a site, and the texts that are handed to the outside:
//! the site's address and the command that issues its certificate.
use crate::proxies::{distinct_keys, Entry, ProxyMap};
use crate::text::{
    chars_of, comes_before, lemma_precedes_total, lemma_precedes_transitive, precedes, string_of,
    strip, strip_of, trim, CharClass,
};
use vstd::prelude::*;
use vstd::string::*;
use vstd::utf8::encode_utf8;

verus! {

/// The address of a site.
pub open spec fn url_of(name: Seq<char>) -> Seq<char> {
    "https://"@ + name
}

/// The address of the site `name`.
pub fn site_url(name: &str) -> (r: String)
    ensures
        r@ == url_of(name@),
{
    let mut r = String::from_str("https://");
    r.append(name);
    r
}

/// The shell command that issues the certificate of a site into a
/// directory.
pub open spec fn certificate_command_of(directory: Seq<char>, name: Seq<char>) -> Seq<char> {
    "mkcert -cert-file "@ + directory + "/"@ + name + ".pem -key-file "@ + directory + "/"@ + name
        + "-key.pem "@ + name
}

/// The shell command that issues the certificate of the site `name`: the
/// certificate goes to `<directory>/<name>.pem`, its key to
/// `<directory>/<name>-key.pem`.
pub fn certificate_command(directory: &str, name: &str) -> (r: String)
    ensures
        r@ == certificate_command_of(directory@, name@),
{
    let mut r = String::from_str("mkcert -cert-file ");
    r.append(directory);
    r.append("/");
    r.append(name);
    r.append(".pem -key-file ");
    r.append(directory);
    r.append("/");
    r.append(name);
    r.append("-key.pem ");
    r.append(name);
    r
}

/// The index of the first entry at or after `from` whose location does not
/// come before `key`, or the number of entries if there is none.
pub open spec fn entry_rank(list: Seq<Entry>, key: Seq<char>, from: int) -> int
    decreases list.len() - from,
{
    if 0 <= from < list.len() && precedes(list[from].0, key) {
        entry_rank(list, key, from + 1)
    } else {
        from
    }
}

/// An ordered list of entries after `entry` was put in at its place.
pub open spec fn placed(list: Seq<Entry>, entry: Entry) -> Seq<Entry> {
    list.insert(entry_rank(list, entry.0, 0), entry)
}

/// The first `count` entries in the order of their locations.
pub open spec fn by_location(entries: Seq<Entry>, count: int) -> Seq<Entry>
    decreases count,
{
    if count <= 0 {
        Seq::empty()
    } else {
        placed(by_location(entries, count - 1), entries[count - 1])
    }
}

/// The length in bytes of a location as it is stored.
pub open spec fn byte_length(location: Seq<char>) -> usize {
    encode_utf8(location).len() as usize
}

/// The greatest byte length among the locations of the first `count`
/// entries.
pub open spec fn widest(entries: Seq<Entry>, count: int) -> usize
    decreases count,
{
    if count <= 0 {
        0
    } else if byte_length(entries[count - 1].0) > widest(entries, count - 1) {
        byte_length(entries[count - 1].0)
    } else {
        widest(entries, count - 1)
    }
}

/// `s` without whitespace and then without slashes at both ends.
pub open spec fn bare(s: Seq<char>) -> Seq<char> {
    strip(trim(s), CharClass::Only('/'))
}

/// `s` with spaces behind it up to `width` characters.
pub open spec fn padded(s: Seq<char>, width: int) -> Seq<char> {
    if s.len() >= width {
        s
    } else {
        s + Seq::new((width - s.len()) as nat, |i: int| ' ')
    }
}

/// The row that is shown for an entry: the bare location behind a slash,
/// padded to `width` characters after the slash, and the bare target.
pub open spec fn row_of(entry: Entry, width: int) -> Entry {
    ("/"@ + padded(bare(entry.0), width), bare(entry.1))
}

/// The rows of the first `count` of `ordered`.
pub open spec fn rows_of(ordered: Seq<Entry>, width: int, count: int) -> Seq<Entry>
    decreases count,
{
    if count <= 0 {
        Seq::empty()
    } else {
        rows_of(ordered, width, count - 1).push(row_of(ordered[count - 1], width))
    }
}

/// What is shown of a site, as text.
pub struct DisplayModel {
    /// The address of the site.
    pub url: Seq<char>,
    /// One row per location: the location and its target.
    pub rows: Seq<Entry>,
}

/// What is shown of the site `name` with the mapping `entries`: its
/// address, and a row for each location, in the order of the locations,
/// all locations padded to the byte length of the longest.
pub open spec fn display_of(name: Seq<char>, entries: Seq<Entry>) -> DisplayModel {
    let ordered = by_location(entries, entries.len() as int);
    DisplayModel {
        url: url_of(name),
        rows: rows_of(ordered, widest(entries, entries.len() as int) as int, ordered.len() as int),
    }
}

/// Every location comes strictly before the locations after it.
pub open spec fn ordered_by_location(list: Seq<Entry>) -> bool {
    forall|i: int, j: int|
        0 <= i < j < list.len() ==> precedes((#[trigger] list[i]).0, (#[trigger] list[j]).0)
}

/// `entry_rank` stops at the first location that does not come before
/// `key`.
pub proof fn lemma_entry_rank(list: Seq<Entry>, key: Seq<char>, from: int)
    requires
        0 <= from <= list.len(),
    ensures
        from <= entry_rank(list, key, from) <= list.len(),
        forall|j: int|
            from <= j < entry_rank(list, key, from) ==> precedes((#[trigger] list[j]).0, key),
        entry_rank(list, key, from) < list.len() ==> !precedes(
            list[entry_rank(list, key, from)].0,
            key,
        ),
    decreases list.len() - from,
{
    if from < list.len() && precedes(list[from].0, key) {
        lemma_entry_rank(list, key, from + 1);
    }
}

/// Whether one of the first `count` entries is `entry`.
pub open spec fn among(entries: Seq<Entry>, count: int, entry: Entry) -> bool {
    exists|i: int| 0 <= i < count && #[trigger] entries[i] == entry
}

/// Putting an entry with a new location into an ordered list leaves it
/// ordered; the list then holds the entry and what it held before.
pub proof fn lemma_placed(list: Seq<Entry>, entry: Entry, other: Entry)
    requires
        ordered_by_location(list),
        forall|k: int| 0 <= k < list.len() ==> (#[trigger] list[k]).0 != entry.0,
    ensures
        ordered_by_location(placed(list, entry)),
        placed(list, entry).len() == list.len() + 1,
        placed(list, entry).contains(other) <==> (list.contains(other) || other == entry),
{
    let at = entry_rank(list, entry.0, 0);
    let after = placed(list, entry);
    lemma_entry_rank(list, entry.0, 0);
    assert forall|j: int| at <= j < list.len() implies precedes(entry.0, (#[trigger] list[j]).0) by {
        if !precedes(entry.0, list[at].0) {
            assert(entry.0.take(0) =~= list[at].0.take(0));
            lemma_precedes_total(entry.0, list[at].0, 0);
        }
        if j > at {
            assert(precedes(list[at].0, list[j].0));
            lemma_precedes_transitive(entry.0, list[at].0, list[j].0, 0);
        }
    }
    assert forall|i: int, j: int| 0 <= i < j < after.len() implies precedes(
        (#[trigger] after[i]).0,
        (#[trigger] after[j]).0,
    ) by {
        if j < at {
            assert(precedes(list[i].0, list[j].0));
        } else if j == at {
            assert(precedes(list[i].0, entry.0));
        } else if i < at {
            assert(precedes(list[i].0, entry.0));
            assert(precedes(entry.0, list[j - 1].0));
            lemma_precedes_transitive(list[i].0, entry.0, list[j - 1].0, 0);
        } else if i == at {
            assert(precedes(entry.0, list[j - 1].0));
        } else {
            assert(precedes(list[i - 1].0, list[j - 1].0));
        }
    }
    if after.contains(other) {
        let k = choose|k: int| 0 <= k < after.len() && after[k] == other;
        if k < at {
            assert(list[k] == other);
        } else if k > at {
            assert(list[k - 1] == other);
        }
    }
    if list.contains(other) {
        let k = choose|k: int| 0 <= k < list.len() && list[k] == other;
        if k < at {
            assert(after[k] == other);
        } else {
            assert(after[k + 1] == other);
        }
    }
    if other == entry {
        assert(after[at] == entry);
    }
}

/// The first `count` entries of a mapping, put in order, are in strictly
/// increasing order of location, as many as before, and `entry` is among
/// them exactly if it was among the first `count`.
pub proof fn lemma_by_location(entries: Seq<Entry>, count: int, entry: Entry)
    requires
        distinct_keys(entries),
        0 <= count <= entries.len(),
    ensures
        ordered_by_location(by_location(entries, count)),
        by_location(entries, count).len() == count,
        by_location(entries, count).contains(entry) <==> among(entries, count, entry),
    decreases count,
{
    if count > 0 {
        let before = by_location(entries, count - 1);
        let last = entries[count - 1];
        lemma_by_location(entries, count - 1, entry);
        assert forall|k: int| 0 <= k < before.len() implies (#[trigger] before[k]).0 != last.0 by {
            lemma_by_location(entries, count - 1, before[k]);
            assert(before.contains(before[k]));
            let i = choose|i: int| 0 <= i < count - 1 && #[trigger] entries[i] == before[k];
            assert(entries[i].0 != entries[count - 1].0);
        }
        lemma_placed(before, last, entry);
        if among(entries, count - 1, entry) {
            let i = choose|i: int| 0 <= i < count - 1 && #[trigger] entries[i] == entry;
            assert(entries[i] == entry);
        }
        if among(entries, count, entry) {
            let i = choose|i: int| 0 <= i < count && #[trigger] entries[i] == entry;
            if i < count - 1 {
                assert(among(entries, count - 1, entry));
            }
        }
        if last == entry {
            assert(entries[count - 1] == entry);
        }
    }
}

/// The rows of a site are shown in strictly increasing order of location,
/// one for each entry of its mapping.
pub proof fn law_rows_follow_locations(entries: Seq<Entry>)
    requires
        distinct_keys(entries),
    ensures
        ordered_by_location(by_location(entries, entries.len() as int)),
        by_location(entries, entries.len() as int).len() == entries.len(),
        forall|entry: Entry| #[trigger]
            by_location(entries, entries.len() as int).contains(entry) <==> entries.contains(entry),
{
    let n = entries.len() as int;
    lemma_by_location(entries, n, (Seq::empty(), Seq::empty()));
    assert forall|entry: Entry| #[trigger]
        by_location(entries, n).contains(entry) <==> entries.contains(entry) by {
        lemma_by_location(entries, n, entry);
        if among(entries, n, entry) {
            let i = choose|i: int| 0 <= i < n && #[trigger] entries[i] == entry;
            assert(entries[i] == entry);
        }
        if entries.contains(entry) {
            let i = choose|i: int| 0 <= i < entries.len() && entries[i] == entry;
            assert(entries[i] == entry);
        }
    }
}

/// What is shown of a site.
#[derive(Clone, Debug, PartialEq, Eq)]
pub struct SiteDisplay {
    /// The address of the site.
    pub url: String,
    /// One row per location: the location and its target.
    pub rows: Vec<(String, String)>,
}

/// The text of a list of pairs.
pub open spec fn pair_texts(v: Seq<(String, String)>) -> Seq<Entry> {
    v.map_values(|e: (String, String)| (e.0@, e.1@))
}

impl View for SiteDisplay {
    type V = DisplayModel;

    open spec fn view(&self) -> DisplayModel {
        DisplayModel { url: self.url@, rows: pair_texts(self.rows@) }
    }
}

/// Whether the location at `at` comes before `wanted`.
fn location_comes_before(list: &Vec<(String, String)>, at: usize, wanted: &[char]) -> (r: bool)
    requires
        at < list@.len(),
    ensures
        r == precedes(pair_texts(list@)[at as int].0, wanted@),
{
    let here = chars_of(list[at].0.as_str());
    comes_before(here.as_slice(), wanted)
}

/// The entries of a mapping in the order of their locations.
pub fn sorted_entries(proxies: &ProxyMap) -> (r: Vec<(String, String)>)
    ensures
        pair_texts(r@) == by_location(proxies@, proxies@.len() as int),
{
    let mut r: Vec<(String, String)> = Vec::new();
    let mut i: usize = 0;
    assert(pair_texts(r@) =~= Seq::<Entry>::empty());
    while i < proxies.len()
        invariant
            i <= proxies@.len(),
            pair_texts(r@) == by_location(proxies@, i as int),
        decreases proxies@.len() - i,
    {
        let location = proxies.location(i).clone();
        let target = proxies.target(i).clone();
        let wanted = chars_of(location.as_str());
        let ghost before = r@;
        let mut at: usize = 0;
        while at < r.len() && location_comes_before(&r, at, wanted.as_slice())
            invariant
                at <= r@.len(),
                r@ == before,
                wanted@ == location@,
                entry_rank(pair_texts(r@), location@, at as int) == entry_rank(
                    pair_texts(r@),
                    location@,
                    0,
                ),
            decreases r@.len() - at,
        {
            at += 1;
        }
        r.insert(at, (location, target));
        assert(pair_texts(r@) =~= pair_texts(before).insert(
            at as int,
            (location@, target@),
        ));
        i += 1;
    }
    r
}

/// The greatest byte length among the locations of a mapping.
pub fn widest_location(proxies: &ProxyMap) -> (r: usize)
    ensures
        r == widest(proxies@, proxies@.len() as int),
{
    let mut r: usize = 0;
    let mut i: usize = 0;
    while i < proxies.len()
        invariant
            i <= proxies@.len(),
            r == widest(proxies@, i as int),
        decreases proxies@.len() - i,
    {
        let n = proxies.location(i).as_str().len();
        if n > r {
            r = n;
        }
        i += 1;
    }
    r
}

/// `s` without whitespace and then without slashes at both ends.
pub fn bare_text(s: &str) -> (r: Vec<char>)
    ensures
        r@ == bare(s@),
{
    let chars = chars_of(s);
    let trimmed = strip_of(chars.as_slice(), CharClass::Whitespace);
    strip_of(trimmed.as_slice(), CharClass::Only('/'))
}

/// The row that is shown for an entry.
pub fn row(location: &str, target: &str, width: usize) -> (r: (String, String))
    ensures
        (r.0@, r.1@) == row_of((location@, target@), width as int),
{
    let mut shown = bare_text(location);
    let ghost start = shown@;
    let mut k: usize = shown.len();
    while k < width
        invariant
            shown@.len() == k,
            start.len() <= k,
            k <= width || k == start.len(),
            shown@ == start + Seq::new((k - start.len()) as nat, |i: int| ' '),
        decreases width - k,
    {
        shown.push(' ');
        k += 1;
        assert(shown@ =~= start + Seq::new((k - start.len()) as nat, |i: int| ' '));
    }
    assert(shown@ =~= padded(start, width as int));
    let mut first = String::from_str("/");
    let tail = string_of(shown.as_slice());
    first.append(tail.as_str());
    let second = bare_text(target);
    (first, string_of(second.as_slice()))
}

/// What is shown of the site `name` with the mapping `proxies`.
pub fn site_display(name: &str, proxies: &ProxyMap) -> (r: SiteDisplay)
    ensures
        r@ == display_of(name@, proxies@),
{
    let ordered = sorted_entries(proxies);
    let width = widest_location(proxies);
    let mut rows: Vec<(String, String)> = Vec::new();
    let mut i: usize = 0;
    assert(pair_texts(rows@) =~= Seq::<Entry>::empty());
    while i < ordered.len()
        invariant
            i <= ordered@.len(),
            pair_texts(rows@) == rows_of(pair_texts(ordered@), width as int, i as int),
        decreases ordered@.len() - i,
    {
        let shown = row(ordered[i].0.as_str(), ordered[i].1.as_str(), width);
        assert(pair_texts(ordered@)[i as int] == (ordered@[i as int].0@, ordered@[i as int].1@));
        assert(pair_texts(rows@.push(shown)) =~= pair_texts(rows@).push((shown.0@, shown.1@)));
        rows.push(shown);
        i += 1;
    }
    SiteDisplay { url: site_url(name), rows: rows }
}

} // verus!
