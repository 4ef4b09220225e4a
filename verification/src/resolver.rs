//! Finding the directory that holds the per-site files.
//!
//! The root configuration names it in a line of the form
//! `include <directory>/*`. Exactly one such directory has to be named.
use crate::pattern::{capture, first_group, text_of};
use crate::text::{
    chars_of, lines, lines_of, starts_with, string_of, strip_start_of, texts, trim_start, views,
    CharClass,
};
use vstd::prelude::*;
use vstd::string::*;

verus! {

/// The expression that captures the directory from an include line.
pub const INCLUDE_PATTERN: &'static str = "include\\s+([a-zA-Z0-9]+)/\\*";

/// The first of the root configuration files that is looked for.
pub const DEFAULT_ROOT: &'static str = "/etc/nginx/nginx.conf";

/// The second of the root configuration files that is looked for.
pub const LOCAL_ROOT: &'static str = "/usr/local/etc/nginx/nginx.conf";

/// Whether a line, after leading whitespace, starts with the include
/// keyword.
pub open spec fn is_include_line(line: Seq<char>) -> bool {
    "include"@.is_prefix_of(trim_start(line))
}

/// The directory that a line puts forward, where `captured` is what the
/// expression captures from the line.
pub open spec fn candidate_of(line: Seq<char>, captured: Option<Seq<char>>) -> Option<Seq<char>> {
    if is_include_line(line) {
        captured
    } else {
        None
    }
}

/// The directories that the first `count` of `all` put forward, in order.
pub open spec fn candidates(all: Seq<Seq<char>>, count: int) -> Seq<Seq<char>>
    decreases count,
{
    if count <= 0 {
        Seq::empty()
    } else {
        let line = all[count - 1];
        match candidate_of(line, first_group(INCLUDE_PATTERN@, line)) {
            Some(directory) => candidates(all, count - 1).push(directory),
            None => candidates(all, count - 1),
        }
    }
}

/// The directories that a root configuration puts forward, in order.
pub open spec fn include_candidates(content: Seq<char>) -> Seq<Seq<char>> {
    candidates(lines(content), lines(content).len() as int)
}

/// Why no directory was chosen.
#[derive(Clone, Debug, PartialEq, Eq)]
pub enum DiscoveryError {
    /// No line puts a directory forward.
    NoCandidate,
    /// More than one directory was put forward; all of them are listed.
    Ambiguous(Vec<String>),
}

/// A failed discovery as text.
pub enum DiscoveryFailure {
    /// No line puts a directory forward.
    NoCandidate,
    /// More than one directory was put forward.
    Ambiguous(Seq<Seq<char>>),
}

/// The outcome of a discovery as text.
pub open spec fn outcome_text(r: Result<String, DiscoveryError>) -> Result<
    Seq<char>,
    DiscoveryFailure,
> {
    match r {
        Ok(directory) => Ok(directory@),
        Err(DiscoveryError::NoCandidate) => Err(DiscoveryFailure::NoCandidate),
        Err(DiscoveryError::Ambiguous(all)) => Err(DiscoveryFailure::Ambiguous(texts(all@))),
    }
}

/// The choice among the candidates: the only one, if there is exactly one.
pub open spec fn chosen(found: Seq<Seq<char>>) -> Result<Seq<char>, DiscoveryFailure> {
    if found.len() == 1 {
        Ok(found[0])
    } else if found.len() == 0 {
        Err(DiscoveryFailure::NoCandidate)
    } else {
        Err(DiscoveryFailure::Ambiguous(found))
    }
}

/// The root configuration files to look for: the one that was asked for, or
/// else the two usual places.
pub open spec fn root_candidates(asked: Option<Seq<char>>) -> Seq<Seq<char>> {
    match asked {
        Some(path) => seq![path],
        None => seq![DEFAULT_ROOT@, LOCAL_ROOT@],
    }
}

/// The root configuration files to look for, in the order in which they
/// are tried.
pub fn root_config_candidates(asked: Option<&str>) -> (r: Vec<String>)
    ensures
        texts(r@) == root_candidates(
            match asked {
                Some(path) => Some(path@),
                None => None,
            },
        ),
{
    let mut r: Vec<String> = Vec::new();
    match asked {
        Some(path) => {
            r.push(String::from_str(path));
        },
        None => {
            r.push(String::from_str(DEFAULT_ROOT));
            r.push(String::from_str(LOCAL_ROOT));
        },
    }
    assert(texts(r@) =~= root_candidates(
        match asked {
            Some(path) => Some(path@),
            None => None,
        },
    ));
    r
}

/// The index of the first file that is there, given for each file whether
/// it exists and is a regular file.
pub fn first_existing(present: &[bool]) -> (r: Option<usize>)
    ensures
        match r {
            Some(i) => i < present@.len() && present@[i as int] && forall|j: int|
                0 <= j < i ==> !present@[j],
            None => forall|j: int| 0 <= j < present@.len() ==> !present@[j],
        },
{
    let mut i: usize = 0;
    while i < present.len()
        invariant
            i <= present@.len(),
            forall|j: int| 0 <= j < i ==> !present@[j],
        decreases present@.len() - i,
    {
        if present[i] {
            return Some(i);
        }
        i += 1;
    }
    None
}

/// The directory that one line puts forward, where `captured` is what the
/// expression captured from the line.
pub fn line_candidate(line: &[char], captured: Option<String>) -> (r: Option<String>)
    ensures
        text_of(r) == candidate_of(line@, text_of(captured)),
{
    let keyword = chars_of("include");
    let trimmed = strip_start_of(line, CharClass::Whitespace);
    if starts_with(trimmed.as_slice(), keyword.as_slice()) {
        captured
    } else {
        None
    }
}

/// The directories that a root configuration puts forward, in the order of
/// its lines.
pub fn find_candidates(content: &str) -> (found: Vec<String>)
    ensures
        texts(found@) == include_candidates(content@),
{
    let chars = chars_of(content);
    let all = lines_of(chars.as_slice());
    let keyword = chars_of("include");
    let mut found: Vec<String> = Vec::new();
    let mut i: usize = 0;
    assert(texts(found@) =~= Seq::<Seq<char>>::empty());
    while i < all.len()
        invariant
            i <= all@.len(),
            views(all@) == lines(content@),
            keyword@ == "include"@,
            texts(found@) == candidates(lines(content@), i as int),
        decreases all@.len() - i,
    {
        let line = &all[i];
        assert(views(all@)[i as int] == line@);
        let trimmed = strip_start_of(line.as_slice(), CharClass::Whitespace);
        let captured = if starts_with(trimmed.as_slice(), keyword.as_slice()) {
            let text = string_of(line.as_slice());
            capture(INCLUDE_PATTERN, text.as_str())
        } else {
            None
        };
        match line_candidate(line.as_slice(), captured) {
            Some(directory) => {
                assert(texts(found@.push(directory)) =~= texts(found@).push(directory@));
                found.push(directory);
            },
            None => {},
        }
        i += 1;
    }
    found
}

/// Chooses among the candidates: the only one, if there is exactly one.
pub fn choose_directory(found: Vec<String>) -> (r: Result<String, DiscoveryError>)
    ensures
        outcome_text(r) == chosen(texts(found@)),
{
    let mut found = found;
    if found.len() == 1 {
        match found.pop() {
            Some(directory) => Ok(directory),
            None => Err(DiscoveryError::NoCandidate),
        }
    } else if found.len() == 0 {
        Err(DiscoveryError::NoCandidate)
    } else {
        Err(DiscoveryError::Ambiguous(found))
    }
}

/// Finds the directory of the per-site files from the text of the root
/// configuration: the one directory that its include lines put forward.
pub fn resolve_include_dir(content: &str) -> (r: Result<String, DiscoveryError>)
    ensures
        outcome_text(r) == chosen(include_candidates(content@)),
{
    choose_directory(find_candidates(content))
}

/// What is reported when no directory was chosen: a heading, then the
/// candidates, one per line.
pub open spec fn failure_report(failure: DiscoveryFailure) -> Seq<Seq<char>> {
    match failure {
        DiscoveryFailure::NoCandidate => seq!["Found more than one potential directory!"@],
        DiscoveryFailure::Ambiguous(all) => seq!["Found more than one potential directory!"@] + all,
    }
}

impl DiscoveryError {
    /// The failure as text.
    pub open spec fn view(&self) -> DiscoveryFailure {
        match self {
            DiscoveryError::NoCandidate => DiscoveryFailure::NoCandidate,
            DiscoveryError::Ambiguous(all) => DiscoveryFailure::Ambiguous(texts(all@)),
        }
    }

    /// The lines to report.
    pub fn report(&self) -> (r: Vec<String>)
        ensures
            texts(r@) == failure_report(self.view()),
    {
        let mut r: Vec<String> = Vec::new();
        r.push(String::from_str("Found more than one potential directory!"));
        match self {
            DiscoveryError::NoCandidate => {},
            DiscoveryError::Ambiguous(all) => {
                let mut i: usize = 0;
                while i < all.len()
                    invariant
                        i <= all@.len(),
                        r@.len() == i + 1,
                        r@[0]@ == "Found more than one potential directory!"@,
                        forall|j: int| 0 <= j < i ==> r@[j + 1]@ == all@[j]@,
                    decreases all@.len() - i,
                {
                    r.push(all[i].clone());
                    i += 1;
                }
            },
        }
        assert(texts(r@) =~= failure_report(self.view()));
        r
    }

    /// The exit status that goes with the failure.
    pub fn exit_code(&self) -> (r: i32)
        ensures
            r == 1,
    {
        1
    }
}

} // verus!
