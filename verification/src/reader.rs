//! Reading a site's configuration file.
//!
//! A file is read line by line. Three kinds of line matter: the one that
//! names the server, the one that opens a location block, and the one that
//! passes the open location on to a target. A line that holds nothing but a
//! closing brace closes the open location.
use crate::pattern::{capture, first_group, text_of};
use crate::proxies::{with_entry, Entry, ProxyMap};
use crate::text::{
    chars_of, lines, lines_of, same_text, second_word, second_word_of, starts_with, string_of,
    strip_end, strip_end_of, strip_start_of, texts, trim_start, views, CharClass,
};
use vstd::prelude::*;
use vstd::string::*;

verus! {

/// The expression that captures the name from a `server_name` line: all up
/// to the last semicolon.
pub const SERVER_NAME_PATTERN: &'static str = "server_name\\s+(.*)\\s*;";

/// The expression that captures the path from a `location` line: all up to
/// the last opening brace.
pub const LOCATION_PATTERN: &'static str = "location\\s+(.*)\\s*\\{";

/// What has been read of a file so far.
pub struct ScanModel {
    /// Every server name met, in the order of the lines; the last one is
    /// the name of the file's server.
    pub names: Seq<Seq<char>>,
    /// The location whose block is open.
    pub open_location: Option<Seq<char>>,
    /// The targets found, by location.
    pub proxies: Seq<Entry>,
}

/// The state before the first line.
pub open spec fn nothing_read() -> ScanModel {
    ScanModel { names: Seq::empty(), open_location: None, proxies: Seq::empty() }
}

/// Whether a line names the server.
pub open spec fn names_server(line: Seq<char>) -> bool {
    "server_name"@.is_prefix_of(line)
}

/// Whether a line opens a location block.
pub open spec fn opens_location(line: Seq<char>) -> bool {
    "location"@.is_prefix_of(line)
}

/// Whether a line passes the open location on to a target.
pub open spec fn passes_on(line: Seq<char>) -> bool {
    "proxy_pass"@.is_prefix_of(line)
}

/// Whether a line holds a closing brace and, after it, nothing but
/// whitespace.
pub open spec fn closes_block(line: Seq<char>) -> bool {
    strip_end(line, CharClass::Whitespace) == "}"@
}

/// The target that a `proxy_pass` line names: its second word, without
/// trailing semicolons.
pub open spec fn target_of(line: Seq<char>) -> Option<Seq<char>> {
    match second_word(line) {
        Some(word) => Some(strip_end(word, CharClass::Only(';'))),
        None => None,
    }
}

/// The state after one more line. `line` is the line without its leading
/// whitespace; `name` and `location` are what the two expressions capture
/// from it.
///
/// A name that was captured from a `server_name` line is recorded. A path
/// that was captured from a `location` line becomes the open location. A
/// `proxy_pass` line gives the open location its target; with no location
/// open, or no second word on the line, it changes nothing. A closing brace
/// leaves no location open.
pub open spec fn scan_step(
    state: ScanModel,
    line: Seq<char>,
    name: Option<Seq<char>>,
    location: Option<Seq<char>>,
) -> ScanModel {
    if names_server(line) {
        match name {
            Some(n) => ScanModel { names: state.names.push(n), ..state },
            None => state,
        }
    } else if opens_location(line) {
        match location {
            Some(l) => ScanModel { open_location: Some(l), ..state },
            None => state,
        }
    } else if passes_on(line) {
        match (state.open_location, target_of(line)) {
            (Some(l), Some(t)) => ScanModel { proxies: with_entry(state.proxies, l, t), ..state },
            _ => state,
        }
    } else if closes_block(line) {
        ScanModel { open_location: None, ..state }
    } else {
        state
    }
}

/// The state after the first `count` of `all`.
pub open spec fn scan_lines(all: Seq<Seq<char>>, count: int) -> ScanModel
    decreases count,
{
    if count <= 0 {
        nothing_read()
    } else {
        let line = trim_start(all[count - 1]);
        scan_step(
            scan_lines(all, count - 1),
            line,
            first_group(SERVER_NAME_PATTERN@, line),
            first_group(LOCATION_PATTERN@, line),
        )
    }
}

/// What a whole file holds.
pub open spec fn scanned(content: Seq<char>) -> ScanModel {
    scan_lines(lines(content), lines(content).len() as int)
}

/// What has been read of a file so far.
#[derive(Clone, Debug, PartialEq, Eq)]
pub struct SiteScan {
    /// Every server name met, in the order of the lines.
    pub names: Vec<String>,
    /// The location whose block is open.
    pub open_location: Option<String>,
    /// The targets found, by location.
    pub proxies: ProxyMap,
}

impl View for SiteScan {
    type V = ScanModel;

    open spec fn view(&self) -> ScanModel {
        ScanModel {
            names: texts(self.names@),
            open_location: text_of(self.open_location),
            proxies: self.proxies@,
        }
    }
}

impl SiteScan {
    /// No location has two targets.
    pub open spec fn wf(&self) -> bool {
        self.proxies.wf()
    }

    /// The state before the first line.
    pub fn new() -> (r: SiteScan)
        ensures
            r@ == nothing_read(),
            r.wf(),
    {
        let r = SiteScan { names: Vec::new(), open_location: None, proxies: ProxyMap::new() };
        assert(texts(r.names@) =~= Seq::<Seq<char>>::empty());
        r
    }

    /// The name of the file's server: the last one met.
    pub fn server_name(&self) -> (r: Option<&String>)
        ensures
            match r {
                Some(n) => self@.names.len() > 0 && n@ == self@.names.last(),
                None => self@.names.len() == 0,
            },
    {
        if self.names.len() > 0 {
            Some(&self.names[self.names.len() - 1])
        } else {
            None
        }
    }

    /// Takes in one more line. `line` is the line without its leading
    /// whitespace; `name` and `location` are what the two expressions
    /// captured from it.
    pub fn apply_line(&mut self, line: &[char], name: Option<String>, location: Option<String>)
        requires
            old(self).wf(),
        ensures
            final(self)@ == scan_step(old(self)@, line@, text_of(name), text_of(location)),
            final(self).wf(),
    {
        let server_name = chars_of("server_name");
        let location_word = chars_of("location");
        let proxy_pass = chars_of("proxy_pass");
        if starts_with(line, server_name.as_slice()) {
            match name {
                Some(n) => {
                    assert(texts(self.names@.push(n)) =~= texts(self.names@).push(n@));
                    self.names.push(n);
                },
                None => {},
            }
        } else if starts_with(line, location_word.as_slice()) {
            match location {
                Some(l) => {
                    self.open_location = Some(l);
                },
                None => {},
            }
        } else if starts_with(line, proxy_pass.as_slice()) {
            let open = self.open_location.clone();
            match (open, second_word_of(line)) {
                (Some(l), Some(word)) => {
                    let target = strip_end_of(word.as_slice(), CharClass::Only(';'));
                    self.proxies.insert(l, string_of(target.as_slice()));
                },
                _ => {},
            }
        } else {
            let brace = chars_of("}");
            let rest = strip_end_of(line, CharClass::Whitespace);
            if same_text(rest.as_slice(), brace.as_slice()) {
                self.open_location = None;
            }
        }
    }
}

/// Reads a whole configuration file.
pub fn scan_config(content: &str) -> (scan: SiteScan)
    ensures
        scan@ == scanned(content@),
        scan.wf(),
{
    let chars = chars_of(content);
    let all = lines_of(chars.as_slice());
    let server_name = chars_of("server_name");
    let location_word = chars_of("location");
    let mut scan = SiteScan::new();
    let mut i: usize = 0;
    while i < all.len()
        invariant
            i <= all@.len(),
            views(all@) == lines(content@),
            server_name@ == "server_name"@,
            location_word@ == "location"@,
            scan@ == scan_lines(lines(content@), i as int),
            scan.wf(),
        decreases all@.len() - i,
    {
        let line = strip_start_of(all[i].as_slice(), CharClass::Whitespace);
        assert(line@ == trim_start(lines(content@)[i as int])) by {
            assert(views(all@)[i as int] == all@[i as int]@);
        }
        let text = string_of(line.as_slice());
        let name = if starts_with(line.as_slice(), server_name.as_slice()) {
            capture(SERVER_NAME_PATTERN, text.as_str())
        } else {
            None
        };
        let location = if starts_with(line.as_slice(), location_word.as_slice()) {
            capture(LOCATION_PATTERN, text.as_str())
        } else {
            None
        };
        scan.apply_line(line.as_slice(), name, location);
        i += 1;
    }
    scan
}

} // verus!
