//! Proxy arguments: `location=target` or `location:target`.
use crate::pattern::{capture, first_group, text_of};
use crate::text::{
    chars_of, lemma_run_end, run_end, split_once, split_once_of, starts_with, string_of, strip_of,
    trim, CharClass,
};
use vstd::prelude::*;
use vstd::string::*;

verus! {

/// The expression that recognises a target given as a bare port: an optional
/// colon, then digits and whatever follows them.
pub const PORT_PATTERN: &'static str = "^:?([0-9]+.*)$";

/// The two sides of an argument: split at the first `=`, or, where there is
/// no `=`, at the first `:`.
pub open spec fn delimited(arg: Seq<char>) -> Option<(Seq<char>, Seq<char>)> {
    if split_once(arg, '=') is Some {
        split_once(arg, '=')
    } else {
        split_once(arg, ':')
    }
}

/// A location made to start with a slash.
pub open spec fn rooted(location: Seq<char>) -> Seq<char> {
    if "/"@.is_prefix_of(location) {
        location
    } else {
        "/"@ + location
    }
}

/// The target after expansion: where `port` was captured from it, the local
/// host at that port, with the protocol in front if asked for; else the
/// target itself.
pub open spec fn expanded_target(
    target: Seq<char>,
    port: Option<Seq<char>>,
    with_protocol: bool,
) -> Seq<char> {
    match port {
        Some(p) => if with_protocol {
            "http://localhost:"@ + p
        } else {
            "localhost:"@ + p
        },
        None => target,
    }
}

/// The location and target that an argument stands for.
pub open spec fn parsed_proxy(arg: Seq<char>, with_protocol: bool) -> Option<
    (Seq<char>, Seq<char>),
> {
    match delimited(arg) {
        Some((location, target)) => Some(
            (
                rooted(trim(location)),
                expanded_target(
                    trim(target),
                    first_group(PORT_PATTERN@, trim(target)),
                    with_protocol,
                ),
            ),
        ),
        None => None,
    }
}

/// The characters of an optional pair of strings.
pub open spec fn pair_text(r: Option<(String, String)>) -> Option<(Seq<char>, Seq<char>)> {
    match r {
        Some((a, b)) => Some((a@, b@)),
        None => None,
    }
}

/// Puts a slash in front of a location that does not start with one.
pub fn root_location(location: &[char]) -> (r: String)
    ensures
        r@ == rooted(location@),
        r@.len() > 0,
        r@[0] == '/',
{
    proof {
        reveal_strlit("/");
    }
    let slash = chars_of("/");
    if starts_with(location, slash.as_slice()) {
        assert(location@.subrange(0, 1)[0] == '/');
        string_of(location)
    } else {
        let mut r = String::from_str("/");
        let tail = string_of(location);
        r.append(tail.as_str());
        r
    }
}

/// Expands a target from which `port` was captured.
pub fn expand_target(target: String, port: Option<String>, with_protocol: bool) -> (r: String)
    ensures
        r@ == expanded_target(target@, text_of(port), with_protocol),
{
    match port {
        Some(p) => {
            let mut r = if with_protocol {
                String::from_str("http://localhost:")
            } else {
                String::from_str("localhost:")
            };
            r.append(p.as_str());
            r
        },
        None => target,
    }
}

/// Splits an argument at its delimiter.
pub fn split_argument(arg: &[char]) -> (r: Option<(Vec<char>, Vec<char>)>)
    ensures
        match r {
            Some((left, right)) => delimited(arg@) == Some((left@, right@)),
            None => delimited(arg@) is None,
        },
{
    match split_once_of(arg, '=') {
        Some(pair) => Some(pair),
        None => split_once_of(arg, ':'),
    }
}

/// Parses a proxy argument into its location and its target.
///
/// The argument is split at the first `=`, or else at the first `:`; with
/// neither there is no result. The location is trimmed and made to start
/// with a slash. The target is trimmed, and a bare port is expanded to the
/// local host at that port, with `http://` in front if `with_protocol`.
pub fn parse_proxy_arg(arg: &str, with_protocol: bool) -> (r: Option<(String, String)>)
    ensures
        pair_text(r) == parsed_proxy(arg@, with_protocol),
{
    let chars = chars_of(arg);
    match split_argument(chars.as_slice()) {
        Some((left, right)) => {
            let location = strip_of(left.as_slice(), CharClass::Whitespace);
            let target = strip_of(right.as_slice(), CharClass::Whitespace);
            let target = string_of(target.as_slice());
            let port = capture(PORT_PATTERN, target.as_str());
            Some((root_location(location.as_slice()), expand_target(target, port, with_protocol)))
        },
        None => None,
    }
}

/// The warning for an argument that could not be parsed.
pub fn invalid_proxy_warning(arg: &str) -> (r: String)
    ensures
        r@ == "\u{2757} Invalid proxy: "@ + arg@,
{
    let mut r = String::from_str("\u{2757} Invalid proxy: ");
    r.append(arg);
    r
}

/// A character occurs in a text exactly if the run of other characters from
/// the start ends before the end of the text.
pub proof fn lemma_split_once_some(s: Seq<char>, delimiter: char)
    ensures
        split_once(s, delimiter) is Some <==> s.contains(delimiter),
{
    let class = CharClass::Only(delimiter);
    lemma_run_end(s, class, false, 0);
    let at = run_end(s, class, false, 0);
    if at < s.len() {
        assert(s[at] == delimiter);
    } else {
        assert forall|i: int| 0 <= i < s.len() implies s[i] != delimiter by {
            assert(class.has(s[i]) == false);
        }
    }
}

/// Every argument that holds `=` or `:` parses, and its location starts with
/// a slash; its target is the expansion of the trimmed right-hand side by
/// what the port expression captures from it.
pub proof fn law_delimited_argument_parses(arg: Seq<char>, with_protocol: bool)
    requires
        arg.contains('=') || arg.contains(':'),
    ensures
        delimited(arg) is Some,
        parsed_proxy(arg, with_protocol) is Some,
        ({
            let (location, target) = parsed_proxy(arg, with_protocol).unwrap();
            let given = trim(delimited(arg).unwrap().1);
            &&& location.len() > 0
            &&& location[0] == '/'
            &&& match first_group(PORT_PATTERN@, given) {
                Some(port) => target == (if with_protocol {
                    "http://localhost:"@ + port
                } else {
                    "localhost:"@ + port
                }),
                None => target == given,
            }
        }),
{
    lemma_split_once_some(arg, '=');
    lemma_split_once_some(arg, ':');
    reveal_strlit("/");
    let location = trim(delimited(arg).unwrap().0);
    if "/"@.is_prefix_of(location) {
        assert(location.subrange(0, 1)[0] == '/');
    }
}

/// An argument with neither `=` nor `:` has no result.
pub proof fn law_undelimited_argument_fails(arg: Seq<char>, with_protocol: bool)
    ensures
        parsed_proxy(arg, with_protocol) is None <==> !arg.contains('=') && !arg.contains(':'),
{
    lemma_split_once_some(arg, '=');
    lemma_split_once_some(arg, ':');
}

} // verus!
