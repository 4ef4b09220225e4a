//! Reading back what was written.
//!
//! The text that `writer` gives for a site without a websocket is split
//! into its lines here, and the lines are read as `reader` reads them. What
//! the two expressions capture from a line is left open: the laws hold for
//! every pair of capture functions that give back the server name from the
//! `server_name` line and some path from each `location` line.
use crate::dispatch::{list_plan, showing_all, ActionModel};
use crate::display::display_of;
use crate::proxies::{key_index, lemma_key_index, with_entry, Entry};
use crate::reader::scanned;
use crate::sites::{
    absorbed, listing_of, local_names, rank, site_index, site_named, with_path, with_paths,
    SiteModel, LOCAL_SUFFIX,
};
use crate::writer::{
    http_block, https_block, leading_slash, location_blocks, location_header, proxy_block,
    proxy_blocks, site_config, trailing_slash,
};
use crate::reader::{
    closes_block, names_server, nothing_read, opens_location, passes_on, scan_lines, scan_step,
    target_of, ScanModel, LOCATION_PATTERN, SERVER_NAME_PATTERN,
};
use crate::pattern::first_group;
use crate::text::{
    is_whitespace, lemma_run_end_unique, lemma_run_start, lines, run_start, second_word,
    strip_end,
    trim_start, without_carriage_return, CharClass,
};
use vstd::prelude::*;

verus! {

/// What an expression captures from a line.
pub type Capture = spec_fn(Seq<char>) -> Option<Seq<char>>;

/// The text made of `all`, each line followed by a line feed.
pub open spec fn joined(all: Seq<Seq<char>>) -> Seq<char>
    decreases all.len(),
{
    if all.len() == 0 {
        Seq::empty()
    } else {
        joined(all.drop_last()) + all.last() + seq!['\n']
    }
}

/// Whether a text holds neither a line feed nor a carriage return.
pub open spec fn is_line(s: Seq<char>) -> bool {
    forall|i: int| 0 <= i < s.len() ==> s[i] != '\n' && s[i] != '\r'
}

/// Joining two lists of lines joins their texts.
pub proof fn lemma_joined_add(a: Seq<Seq<char>>, b: Seq<Seq<char>>)
    ensures
        joined(a + b) == joined(a) + joined(b),
    decreases b.len(),
{
    if b.len() == 0 {
        assert(a + b =~= a);
        assert(joined(a) + joined(b) =~= joined(a));
    } else {
        lemma_joined_add(a, b.drop_last());
        assert((a + b).drop_last() =~= a + b.drop_last());
        assert(joined(a + b) =~= joined(a) + joined(b));
    }
}

/// The text of one line.
pub proof fn lemma_joined_one(line: Seq<char>)
    ensures
        joined(seq![line]) == line + seq!['\n'],
{
    assert(seq![line].drop_last() =~= Seq::<Seq<char>>::empty());
    assert(joined(Seq::<Seq<char>>::empty()) =~= Seq::<char>::empty());
    assert(seq![line].last() == line);
    assert(joined(seq![line]) =~= line + seq!['\n']);
}

/// The first line of a text that starts with a line and a line feed.
pub proof fn lemma_lines_first(line: Seq<char>, rest: Seq<char>)
    requires
        is_line(line),
    ensures
        lines(line + seq!['\n'] + rest) == seq![line] + lines(rest),
{
    let s = line + seq!['\n'] + rest;
    let at = line.len() as int;
    assert forall|j: int| 0 <= j < at implies CharClass::Only('\n').has(#[trigger] s[j]) == false by {
        assert(s[j] == line[j]);
    }
    assert(s[at] == '\n');
    lemma_run_end_unique(s, CharClass::Only('\n'), false, 0, at);
    assert(s.take(at) =~= line);
    assert(without_carriage_return(line) == line);
    assert(s.skip(at + 1) =~= rest);
}

/// Splitting the text of a list of lines gives the lines back.
pub proof fn lemma_lines_joined(all: Seq<Seq<char>>)
    requires
        forall|i: int| 0 <= i < all.len() ==> is_line(#[trigger] all[i]),
    ensures
        lines(joined(all)) == all,
    decreases all.len(),
{
    if all.len() > 0 {
        let first = all[0];
        let rest = all.skip(1);
        assert(all =~= seq![first] + rest);
        lemma_joined_add(seq![first], rest);
        lemma_joined_one(first);
        assert forall|i: int| 0 <= i < rest.len() implies is_line(#[trigger] rest[i]) by {
            assert(rest[i] == all[i + 1]);
        }
        lemma_lines_joined(rest);
        lemma_lines_first(first, joined(rest));
        assert(joined(all) == first + seq!['\n'] + joined(rest));
    } else {
        assert(lines(joined(all)) =~= all);
    }
}

/// The state after the first `count` of `all` were read from `state` on,
/// where `names` and `locations` say what the two expressions capture.
pub open spec fn scan_with(
    state: ScanModel,
    all: Seq<Seq<char>>,
    names: Capture,
    locations: Capture,
    count: int,
) -> ScanModel
    decreases count,
{
    if count <= 0 {
        state
    } else {
        let line = trim_start(all[count - 1]);
        scan_step(
            scan_with(state, all, names, locations, count - 1),
            line,
            names(line),
            locations(line),
        )
    }
}

/// The state after all of `all` were read from `state` on.
pub open spec fn scan_all(
    state: ScanModel,
    all: Seq<Seq<char>>,
    names: Capture,
    locations: Capture,
) -> ScanModel {
    scan_with(state, all, names, locations, all.len() as int)
}

/// What the server-name expression captures.
pub open spec fn captured_name() -> Capture {
    |line: Seq<char>| first_group(SERVER_NAME_PATTERN@, line)
}

/// What the location expression captures.
pub open spec fn captured_location() -> Capture {
    |line: Seq<char>| first_group(LOCATION_PATTERN@, line)
}

/// Reading a file is reading its lines with what the two expressions
/// capture.
pub proof fn lemma_scan_lines_is_scan_with(all: Seq<Seq<char>>, count: int)
    ensures
        scan_lines(all, count) == scan_with(
            nothing_read(),
            all,
            captured_name(),
            captured_location(),
            count,
        ),
    decreases count,
{
    if count > 0 {
        lemma_scan_lines_is_scan_with(all, count - 1);
    }
}

/// Reading a prefix of a list reads the same from the longer list.
pub proof fn lemma_scan_prefix(
    state: ScanModel,
    a: Seq<Seq<char>>,
    b: Seq<Seq<char>>,
    names: Capture,
    locations: Capture,
    count: int,
)
    requires
        0 <= count <= a.len(),
    ensures
        scan_with(state, a + b, names, locations, count) == scan_with(
            state,
            a,
            names,
            locations,
            count,
        ),
    decreases count,
{
    if count > 0 {
        lemma_scan_prefix(state, a, b, names, locations, count - 1);
        assert((a + b)[count - 1] == a[count - 1]);
    }
}

/// Reading two lists, one after the other, is reading the second from the
/// state that the first leaves.
pub proof fn lemma_scan_add(
    state: ScanModel,
    a: Seq<Seq<char>>,
    b: Seq<Seq<char>>,
    names: Capture,
    locations: Capture,
    count: int,
)
    requires
        0 <= count <= b.len(),
    ensures
        scan_with(state, a + b, names, locations, a.len() + count) == scan_with(
            scan_all(state, a, names, locations),
            b,
            names,
            locations,
            count,
        ),
    decreases count,
{
    if count > 0 {
        lemma_scan_add(state, a, b, names, locations, count - 1);
        assert((a + b)[a.len() + count - 1] == b[count - 1]);
    } else {
        lemma_scan_prefix(state, a, b, names, locations, a.len() as int);
    }
}

/// A line without leading whitespace is its own trimmed form; with `indent`
/// whitespace characters in front of something else, the trimmed form
/// starts after them.
pub proof fn lemma_trim_indent(line: Seq<char>, indent: int)
    requires
        0 <= indent <= line.len(),
        forall|j: int| 0 <= j < indent ==> is_whitespace(#[trigger] line[j]),
        indent < line.len() ==> !is_whitespace(line[indent]),
    ensures
        trim_start(line) == line.skip(indent),
{
    lemma_run_end_unique(line, CharClass::Whitespace, true, 0, indent);
}

/// Whether the start of a trimmed line shows that it is none of the lines
/// that the reader acts on.
pub open spec fn other_head(line: Seq<char>) -> bool {
    &&& line.len() >= 2
    &&& line[0] != '}'
    &&& !(line[0] == 's' && line[1] == 'e' && line.len() >= 11)
    &&& !(line[0] == 'l' && line[1] == 'o')
    &&& !(line[0] == 'p' && line[1] == 'r')
}

/// A line with another start leaves the state as it is.
pub proof fn lemma_other_line(
    state: ScanModel,
    line: Seq<char>,
    name: Option<Seq<char>>,
    location: Option<Seq<char>>,
)
    requires
        other_head(line),
    ensures
        scan_step(state, line, name, location) == state,
{
    lemma_keyword_heads(line);
}

/// The `server_name` line of a site.
pub open spec fn server_name_line(name: Seq<char>) -> Seq<char> {
    "  server_name "@ + name + ";"@
}

/// The line that opens the block of a location.
pub open spec fn location_line(location: Seq<char>) -> Seq<char> {
    "  location "@ + leading_slash(location) + location + trailing_slash(location) + " {"@
}

/// The line that passes a location on to a target.
pub open spec fn pass_line(target: Seq<char>) -> Seq<char> {
    "      proxy_pass "@ + target + trailing_slash(target) + ";"@
}

/// The three lines of the block of an entry.
pub open spec fn block_lines(entry: Entry) -> Seq<Seq<char>> {
    seq![location_line(entry.0), pass_line(entry.1), "  }"@]
}

/// The lines of the blocks of the first `count` entries.
pub open spec fn blocks_lines(entries: Seq<Entry>, count: int) -> Seq<Seq<char>>
    decreases count,
{
    if count <= 0 {
        Seq::empty()
    } else {
        blocks_lines(entries, count - 1) + block_lines(entries[count - 1])
    }
}

/// The lines before the blocks in the server block for plain HTTP.
pub open spec fn http_head(name: Seq<char>) -> Seq<Seq<char>> {
    seq!["server {"@, "  listen 80;"@, "  listen [::]:80;"@, server_name_line(name)]
}

/// The lines before the `server_name` line in the server block for TLS.
pub open spec fn https_head() -> Seq<Seq<char>> {
    seq!["server {"@, "  listen 443 ssl;"@]
}

/// The lines between the `server_name` line and the blocks in the server
/// block for TLS.
pub open spec fn https_settings(name: Seq<char>) -> Seq<Seq<char>> {
    seq![
        "  ssl_certificate      "@ + name + ".pem;"@,
        "  ssl_certificate_key  "@ + name + "-key.pem;"@,
        "  ssl_session_cache    shared:SSL:1m;"@,
        "  ssl_session_timeout  5m;"@,
        "  ssl_ciphers  HIGH:!aNULL:!MD5;"@,
        "  ssl_prefer_server_ciphers  on;"@,
    ]
}

/// The lines of the server block for plain HTTP.
pub open spec fn http_lines(name: Seq<char>, entries: Seq<Entry>) -> Seq<Seq<char>> {
    http_head(name) + blocks_lines(entries, entries.len() as int) + seq!["}"@]
}

/// The lines of the server block for TLS.
pub open spec fn https_lines(name: Seq<char>, entries: Seq<Entry>) -> Seq<Seq<char>> {
    https_head() + seq![server_name_line(name)] + https_settings(name) + blocks_lines(
        entries,
        entries.len() as int,
    ) + seq!["}"@]
}

/// The lines of the file of a site without a websocket.
pub open spec fn site_lines(name: Seq<char>, entries: Seq<Entry>) -> Seq<Seq<char>> {
    http_lines(name, entries) + https_lines(name, entries)
}

/// A text that is a line and then a line feed.
pub proof fn lemma_line_feed(full: Seq<char>, line: Seq<char>)
    requires
        full.len() == line.len() + 1,
        forall|i: int| 0 <= i < line.len() ==> full[i] == line[i],
        full[line.len() as int] == '\n',
    ensures
        full == line + seq!['\n'],
{
    assert(full =~= line + seq!['\n']);
}

/// The text of a list with one more line.
pub proof fn lemma_joined_push(all: Seq<Seq<char>>, line: Seq<char>)
    ensures
        joined(all.push(line)) == joined(all) + line + seq!['\n'],
{
    assert(all.push(line).drop_last() =~= all);
}

/// The short texts that end a line in the writer are the short texts here
/// and a line feed.
pub proof fn lemma_line_ends()
    ensures
        " {\n"@ == " {"@ + seq!['\n'],
        ";\n"@ == ";"@ + seq!['\n'],
        "  }\n"@ == "  }"@ + seq!['\n'],
        "}\n"@ == "}"@ + seq!['\n'],
        ".pem;\n"@ == ".pem;"@ + seq!['\n'],
        "-key.pem;\n"@ == "-key.pem;"@ + seq!['\n'],
{
    reveal_strlit(" {\n");
    reveal_strlit(" {");
    reveal_strlit(";\n");
    reveal_strlit(";");
    reveal_strlit("  }\n");
    reveal_strlit("  }");
    reveal_strlit("}\n");
    reveal_strlit("}");
    reveal_strlit(".pem;\n");
    reveal_strlit(".pem;");
    reveal_strlit("-key.pem;\n");
    reveal_strlit("-key.pem;");
    lemma_line_feed(" {\n"@, " {"@);
    lemma_line_feed(";\n"@, ";"@);
    lemma_line_feed("  }\n"@, "  }"@);
    lemma_line_feed("}\n"@, "}"@);
    lemma_line_feed(".pem;\n"@, ".pem;"@);
    lemma_line_feed("-key.pem;\n"@, "-key.pem;"@);
}

/// The fixed lines of the server block for plain HTTP.
pub proof fn lemma_http_fixed()
    ensures
        "server {\n"@ == "server {"@ + seq!['\n'],
        "  listen 80;\n"@ == "  listen 80;"@ + seq!['\n'],
        "  listen [::]:80;\n"@ == "  listen [::]:80;"@ + seq!['\n'],
        "  listen 443 ssl;\n"@ == "  listen 443 ssl;"@ + seq!['\n'],
{
    reveal_strlit("server {\n");
    reveal_strlit("server {");
    reveal_strlit("  listen 80;\n");
    reveal_strlit("  listen 80;");
    reveal_strlit("  listen [::]:80;\n");
    reveal_strlit("  listen [::]:80;");
    reveal_strlit("  listen 443 ssl;\n");
    reveal_strlit("  listen 443 ssl;");
    lemma_line_feed("server {\n"@, "server {"@);
    lemma_line_feed("  listen 80;\n"@, "  listen 80;"@);
    lemma_line_feed("  listen [::]:80;\n"@, "  listen [::]:80;"@);
    lemma_line_feed("  listen 443 ssl;\n"@, "  listen 443 ssl;"@);
}

/// The fixed lines of the settings for TLS.
pub proof fn lemma_https_fixed()
    ensures
        "  ssl_session_cache    shared:SSL:1m;\n"@ == "  ssl_session_cache    shared:SSL:1m;"@
            + seq!['\n'],
        "  ssl_session_timeout  5m;\n"@ == "  ssl_session_timeout  5m;"@ + seq!['\n'],
        "  ssl_ciphers  HIGH:!aNULL:!MD5;\n"@ == "  ssl_ciphers  HIGH:!aNULL:!MD5;"@ + seq!['\n'],
        "  ssl_prefer_server_ciphers  on;\n"@ == "  ssl_prefer_server_ciphers  on;"@ + seq!['\n'],
{
    reveal_strlit("  ssl_session_cache    shared:SSL:1m;\n");
    reveal_strlit("  ssl_session_cache    shared:SSL:1m;");
    reveal_strlit("  ssl_session_timeout  5m;\n");
    reveal_strlit("  ssl_session_timeout  5m;");
    reveal_strlit("  ssl_ciphers  HIGH:!aNULL:!MD5;\n");
    reveal_strlit("  ssl_ciphers  HIGH:!aNULL:!MD5;");
    reveal_strlit("  ssl_prefer_server_ciphers  on;\n");
    reveal_strlit("  ssl_prefer_server_ciphers  on;");
    lemma_line_feed(
        "  ssl_session_cache    shared:SSL:1m;\n"@,
        "  ssl_session_cache    shared:SSL:1m;"@,
    );
    lemma_line_feed("  ssl_session_timeout  5m;\n"@, "  ssl_session_timeout  5m;"@);
    lemma_line_feed("  ssl_ciphers  HIGH:!aNULL:!MD5;\n"@, "  ssl_ciphers  HIGH:!aNULL:!MD5;"@);
    lemma_line_feed("  ssl_prefer_server_ciphers  on;\n"@, "  ssl_prefer_server_ciphers  on;"@);
}

/// The block of an entry is the text of its three lines.
pub proof fn lemma_block_text(entry: Entry)
    ensures
        proxy_block(entry.0, entry.1) == joined(block_lines(entry)),
{
    lemma_line_ends();
    let a = location_line(entry.0);
    let b = pass_line(entry.1);
    let c = "  }"@;
    let nl = seq!['\n'];
    assert(block_lines(entry) =~= Seq::<Seq<char>>::empty().push(a).push(b).push(c));
    lemma_joined_push(Seq::empty(), a);
    lemma_joined_push(Seq::<Seq<char>>::empty().push(a), b);
    lemma_joined_push(Seq::<Seq<char>>::empty().push(a).push(b), c);
    assert(joined(Seq::<Seq<char>>::empty()) =~= Seq::<char>::empty());
    assert(location_header(entry.0, false) =~= a + nl);
    assert(proxy_block(entry.0, entry.1) =~= a + nl + b + nl + c + nl);
    assert(joined(block_lines(entry)) =~= a + nl + b + nl + c + nl);
}

/// The blocks of the entries are the text of their lines.
pub proof fn lemma_blocks_text(entries: Seq<Entry>, count: int)
    requires
        0 <= count <= entries.len(),
    ensures
        proxy_blocks(entries, count) == joined(blocks_lines(entries, count)),
    decreases count,
{
    if count > 0 {
        lemma_blocks_text(entries, count - 1);
        lemma_block_text(entries[count - 1]);
        lemma_joined_add(blocks_lines(entries, count - 1), block_lines(entries[count - 1]));
    } else {
        assert(joined(Seq::<Seq<char>>::empty()) =~= Seq::<char>::empty());
    }
}

/// The server block for plain HTTP is the text of its lines.
pub proof fn lemma_http_text(name: Seq<char>, entries: Seq<Entry>)
    ensures
        http_block(name, entries, None) == joined(http_lines(name, entries)),
{
    lemma_line_ends();
    lemma_http_fixed();
    let nl = seq!['\n'];
    let blocks = blocks_lines(entries, entries.len() as int);
    let e = Seq::<Seq<char>>::empty();
    let l0 = "server {"@;
    let l1 = "  listen 80;"@;
    let l2 = "  listen [::]:80;"@;
    let l3 = server_name_line(name);
    lemma_blocks_text(entries, entries.len() as int);
    assert(http_head(name) =~= e.push(l0).push(l1).push(l2).push(l3));
    lemma_joined_push(e, l0);
    lemma_joined_push(e.push(l0), l1);
    lemma_joined_push(e.push(l0).push(l1), l2);
    lemma_joined_push(e.push(l0).push(l1).push(l2), l3);
    assert(joined(e) =~= Seq::<char>::empty());
    let head = l0 + nl + l1 + nl + l2 + nl + l3 + nl;
    assert(joined(http_head(name)) =~= head);
    lemma_joined_one("}"@);
    lemma_joined_add(http_head(name), blocks);
    lemma_joined_add(http_head(name) + blocks, seq!["}"@]);
    assert(location_blocks(name, entries, None) =~= proxy_blocks(entries, entries.len() as int));
    assert("  server_name "@ + name + ";\n"@ =~= l3 + nl);
    assert(http_block(name, entries, None) =~= head + proxy_blocks(entries, entries.len() as int)
        + ("}"@ + nl));
}

/// The first lines of the server block for TLS are the text before the
/// settings.
pub proof fn lemma_https_head_text(name: Seq<char>)
    ensures
        "server {\n"@ + "  listen 443 ssl;\n"@ + "  server_name "@ + name + ";\n"@ == joined(
            https_head() + seq![server_name_line(name)],
        ),
{
    lemma_line_ends();
    lemma_http_fixed();
    let nl = seq!['\n'];
    let e = Seq::<Seq<char>>::empty();
    let h0 = "server {"@;
    let h1 = "  listen 443 ssl;"@;
    let n = server_name_line(name);
    assert(joined(e) =~= Seq::<char>::empty());
    assert(https_head() + seq![n] =~= e.push(h0).push(h1).push(n));
    lemma_joined_push(e, h0);
    lemma_joined_push(e.push(h0), h1);
    lemma_joined_push(e.push(h0).push(h1), n);
    assert(joined(e.push(h0).push(h1).push(n)) =~= h0 + nl + h1 + nl + n + nl);
    assert("server {\n"@ + "  listen 443 ssl;\n"@ + "  server_name "@ + name + ";\n"@ =~= h0 + nl
        + h1 + nl + n + nl);
}

/// The text of the first two settings for TLS.
pub proof fn lemma_https_names_text(name: Seq<char>, before: Seq<char>)
    ensures
        before + "  ssl_certificate      "@ + name + ".pem;\n"@ + "  ssl_certificate_key  "@ + name
            + "-key.pem;\n"@ == before + joined(
            seq![
                "  ssl_certificate      "@ + name + ".pem;"@,
                "  ssl_certificate_key  "@ + name + "-key.pem;"@,
            ],
        ),
{
    lemma_line_ends();
    let nl = seq!['\n'];
    let e = Seq::<Seq<char>>::empty();
    let s0 = "  ssl_certificate      "@ + name + ".pem;"@;
    let s1 = "  ssl_certificate_key  "@ + name + "-key.pem;"@;
    assert(joined(e) =~= Seq::<char>::empty());
    assert(seq![s0, s1] =~= e.push(s0).push(s1));
    lemma_joined_push(e, s0);
    lemma_joined_push(e.push(s0), s1);
    assert(joined(e.push(s0).push(s1)) =~= s0 + nl + s1 + nl);
    assert(before + "  ssl_certificate      "@ + name + ".pem;\n"@ + "  ssl_certificate_key  "@
        + name + "-key.pem;\n"@ =~= before + (s0 + nl + s1 + nl));
}

/// The text of the last four settings for TLS.
pub proof fn lemma_https_fixed_text(before: Seq<char>)
    ensures
        before + "  ssl_session_cache    shared:SSL:1m;\n"@ + "  ssl_session_timeout  5m;\n"@
            + "  ssl_ciphers  HIGH:!aNULL:!MD5;\n"@ + "  ssl_prefer_server_ciphers  on;\n"@
            == before + joined(
            seq![
                "  ssl_session_cache    shared:SSL:1m;"@,
                "  ssl_session_timeout  5m;"@,
                "  ssl_ciphers  HIGH:!aNULL:!MD5;"@,
                "  ssl_prefer_server_ciphers  on;"@,
            ],
        ),
{
    lemma_https_fixed();
    let nl = seq!['\n'];
    let e = Seq::<Seq<char>>::empty();
    let s2 = "  ssl_session_cache    shared:SSL:1m;"@;
    let s3 = "  ssl_session_timeout  5m;"@;
    let s4 = "  ssl_ciphers  HIGH:!aNULL:!MD5;"@;
    let s5 = "  ssl_prefer_server_ciphers  on;"@;
    assert(joined(e) =~= Seq::<char>::empty());
    assert(seq![s2, s3, s4, s5] =~= e.push(s2).push(s3).push(s4).push(s5));
    lemma_joined_push(e, s2);
    lemma_joined_push(e.push(s2), s3);
    lemma_joined_push(e.push(s2).push(s3), s4);
    lemma_joined_push(e.push(s2).push(s3).push(s4), s5);
    assert(joined(e.push(s2).push(s3).push(s4).push(s5)) =~= s2 + nl + s3 + nl + s4 + nl + s5 + nl);
    assert(before + (s2 + nl) + (s3 + nl) + (s4 + nl) + (s5 + nl) =~= before + (s2 + nl + s3 + nl
        + s4 + nl + s5 + nl));
}

/// The server block for TLS is the text of its lines.
pub proof fn lemma_https_text(name: Seq<char>, entries: Seq<Entry>)
    ensures
        https_block(name, entries, None) == joined(https_lines(name, entries)),
{
    let blocks = blocks_lines(entries, entries.len() as int);
    let n = server_name_line(name);
    let first = seq![
        "  ssl_certificate      "@ + name + ".pem;"@,
        "  ssl_certificate_key  "@ + name + "-key.pem;"@,
    ];
    let second = seq![
        "  ssl_session_cache    shared:SSL:1m;"@,
        "  ssl_session_timeout  5m;"@,
        "  ssl_ciphers  HIGH:!aNULL:!MD5;"@,
        "  ssl_prefer_server_ciphers  on;"@,
    ];
    let head_lines = https_head() + seq![n];
    let head = "server {\n"@ + "  listen 443 ssl;\n"@ + "  server_name "@ + name + ";\n"@;
    lemma_https_head_text(name);
    lemma_https_names_text(name, head);
    let named = head + "  ssl_certificate      "@ + name + ".pem;\n"@
        + "  ssl_certificate_key  "@ + name + "-key.pem;\n"@;
    lemma_https_fixed_text(named);
    let settled = named + "  ssl_session_cache    shared:SSL:1m;\n"@
        + "  ssl_session_timeout  5m;\n"@ + "  ssl_ciphers  HIGH:!aNULL:!MD5;\n"@
        + "  ssl_prefer_server_ciphers  on;\n"@;
    assert(https_settings(name) =~= first + second);
    lemma_joined_add(head_lines, first);
    lemma_joined_add(head_lines + first, second);
    assert(settled == joined(head_lines + first + second));
    lemma_blocks_text(entries, entries.len() as int);
    lemma_joined_add(head_lines + first + second, blocks);
    lemma_line_ends_brace();
    lemma_joined_one("}"@);
    lemma_joined_add(head_lines + first + second + blocks, seq!["}"@]);
    assert(https_lines(name, entries) =~= head_lines + first + second + blocks + seq!["}"@]);
    assert(location_blocks(name, entries, None) =~= proxy_blocks(entries, entries.len() as int));
    assert(https_block(name, entries, None) == settled + location_blocks(name, entries, None)
        + "}\n"@);
}

/// The closing brace and a line feed.
pub proof fn lemma_line_ends_brace()
    ensures
        "}\n"@ == "}"@ + seq!['\n'],
{
    lemma_line_ends();
}

/// The file of a site without a websocket is the text of its lines.
pub proof fn lemma_site_text(name: Seq<char>, entries: Seq<Entry>)
    ensures
        site_config(name, entries, None) == joined(site_lines(name, entries)),
{
    lemma_http_text(name, entries);
    lemma_https_text(name, entries);
    lemma_joined_add(http_lines(name, entries), https_lines(name, entries));
    assert(site_config(name, entries, None) =~= http_block(name, entries, None) + https_block(
        name,
        entries,
        None,
    ));
}

/// Whether every text of a list is a line.
pub open spec fn all_lines(all: Seq<Seq<char>>) -> bool {
    forall|i: int| 0 <= i < all.len() ==> is_line(#[trigger] all[i])
}

/// Two lines, one after the other, are a line.
pub proof fn lemma_is_line_add(a: Seq<char>, b: Seq<char>)
    requires
        is_line(a),
        is_line(b),
    ensures
        is_line(a + b),
{
    assert forall|i: int| 0 <= i < (a + b).len() implies (a + b)[i] != '\n' && (a + b)[i]
        != '\r' by {
        if i < a.len() {
            assert((a + b)[i] == a[i]);
        } else {
            assert((a + b)[i] == b[i - a.len()]);
        }
    }
}

/// Two lists of lines, one after the other, are a list of lines.
pub proof fn lemma_all_lines_add(a: Seq<Seq<char>>, b: Seq<Seq<char>>)
    requires
        all_lines(a),
        all_lines(b),
    ensures
        all_lines(a + b),
{
    assert forall|i: int| 0 <= i < (a + b).len() implies is_line(#[trigger] (a + b)[i]) by {
        if i < a.len() {
            assert((a + b)[i] == a[i]);
        } else {
            assert((a + b)[i] == b[i - a.len()]);
        }
    }
}

/// The short fixed texts of the writer are lines.
pub proof fn lemma_short_texts_are_lines()
    ensures
        is_line("  server_name "@),
        is_line(";"@),
        is_line("  location "@),
        is_line(" {"@),
        is_line("/"@),
        is_line("      proxy_pass "@),
        is_line("  }"@),
        is_line("}"@),
        is_line(".pem;"@),
        is_line("-key.pem;"@),
{
    reveal_strlit("  server_name ");
    reveal_strlit(";");
    reveal_strlit("  location ");
    reveal_strlit(" {");
    reveal_strlit("/");
    reveal_strlit("      proxy_pass ");
    reveal_strlit("  }");
    reveal_strlit("}");
    reveal_strlit(".pem;");
    reveal_strlit("-key.pem;");
}

/// The fixed lines of the server blocks are lines.
pub proof fn lemma_fixed_lines_are_lines()
    ensures
        is_line("server {"@),
        is_line("  listen 80;"@),
        is_line("  listen [::]:80;"@),
        is_line("  listen 443 ssl;"@),
        is_line("  ssl_certificate      "@),
        is_line("  ssl_certificate_key  "@),
        is_line("  ssl_session_cache    shared:SSL:1m;"@),
        is_line("  ssl_session_timeout  5m;"@),
        is_line("  ssl_ciphers  HIGH:!aNULL:!MD5;"@),
        is_line("  ssl_prefer_server_ciphers  on;"@),
{
    reveal_strlit("server {");
    reveal_strlit("  listen 80;");
    reveal_strlit("  listen [::]:80;");
    reveal_strlit("  listen 443 ssl;");
    reveal_strlit("  ssl_certificate      ");
    reveal_strlit("  ssl_certificate_key  ");
    reveal_strlit("  ssl_session_cache    shared:SSL:1m;");
    reveal_strlit("  ssl_session_timeout  5m;");
    reveal_strlit("  ssl_ciphers  HIGH:!aNULL:!MD5;");
    reveal_strlit("  ssl_prefer_server_ciphers  on;");
}

/// The three lines of a block are lines.
pub proof fn lemma_block_lines_are_lines(entry: Entry)
    requires
        is_line(entry.0),
        is_line(entry.1),
    ensures
        all_lines(block_lines(entry)),
{
    lemma_short_texts_are_lines();
    let empty = Seq::<char>::empty();
    assert(is_line(empty));
    assert(is_line(leading_slash(entry.0)));
    assert(is_line(trailing_slash(entry.0)));
    assert(is_line(trailing_slash(entry.1)));
    lemma_is_line_add("  location "@, leading_slash(entry.0));
    lemma_is_line_add("  location "@ + leading_slash(entry.0), entry.0);
    lemma_is_line_add("  location "@ + leading_slash(entry.0) + entry.0, trailing_slash(entry.0));
    lemma_is_line_add(
        "  location "@ + leading_slash(entry.0) + entry.0 + trailing_slash(entry.0),
        " {"@,
    );
    lemma_is_line_add("      proxy_pass "@, entry.1);
    lemma_is_line_add("      proxy_pass "@ + entry.1, trailing_slash(entry.1));
    lemma_is_line_add("      proxy_pass "@ + entry.1 + trailing_slash(entry.1), ";"@);
}

/// Whether every location and every target of a mapping is a line.
pub open spec fn entries_are_lines(entries: Seq<Entry>) -> bool {
    forall|i: int|
        0 <= i < entries.len() ==> is_line((#[trigger] entries[i]).0) && is_line(entries[i].1)
}

/// The lines of the blocks are lines.
pub proof fn lemma_blocks_lines_are_lines(entries: Seq<Entry>, count: int)
    requires
        entries_are_lines(entries),
        0 <= count <= entries.len(),
    ensures
        all_lines(blocks_lines(entries, count)),
    decreases count,
{
    if count > 0 {
        lemma_blocks_lines_are_lines(entries, count - 1);
        assert(is_line(entries[count - 1].0));
        lemma_block_lines_are_lines(entries[count - 1]);
        lemma_all_lines_add(blocks_lines(entries, count - 1), block_lines(entries[count - 1]));
    }
}

/// The lines of the file of a site are lines, so that splitting the file
/// gives them back.
pub proof fn lemma_site_lines_split(name: Seq<char>, entries: Seq<Entry>)
    requires
        is_line(name),
        entries_are_lines(entries),
    ensures
        lines(site_config(name, entries, None)) == site_lines(name, entries),
{
    lemma_short_texts_are_lines();
    lemma_fixed_lines_are_lines();
    let blocks = blocks_lines(entries, entries.len() as int);
    lemma_blocks_lines_are_lines(entries, entries.len() as int);
    lemma_is_line_add("  server_name "@, name);
    lemma_is_line_add("  server_name "@ + name, ";"@);
    lemma_is_line_add("  ssl_certificate      "@, name);
    lemma_is_line_add("  ssl_certificate      "@ + name, ".pem;"@);
    lemma_is_line_add("  ssl_certificate_key  "@, name);
    lemma_is_line_add("  ssl_certificate_key  "@ + name, "-key.pem;"@);
    assert(all_lines(http_head(name)));
    assert(all_lines(https_head()));
    assert(all_lines(seq![server_name_line(name)]));
    assert(all_lines(https_settings(name)));
    assert(all_lines(seq!["}"@]));
    lemma_all_lines_add(http_head(name), blocks);
    lemma_all_lines_add(http_head(name) + blocks, seq!["}"@]);
    lemma_all_lines_add(https_head(), seq![server_name_line(name)]);
    lemma_all_lines_add(https_head() + seq![server_name_line(name)], https_settings(name));
    lemma_all_lines_add(
        https_head() + seq![server_name_line(name)] + https_settings(name),
        blocks,
    );
    lemma_all_lines_add(
        https_head() + seq![server_name_line(name)] + https_settings(name) + blocks,
        seq!["}"@],
    );
    lemma_all_lines_add(http_lines(name, entries), https_lines(name, entries));
    lemma_site_text(name, entries);
    lemma_lines_joined(site_lines(name, entries));
}

/// How a line that the reader acts on starts.
pub proof fn lemma_keyword_heads(line: Seq<char>)
    ensures
        names_server(line) ==> line.len() >= 11 && line[0] == 's' && line[1] == 'e',
        opens_location(line) ==> line.len() >= 8 && line[0] == 'l' && line[1] == 'o',
        passes_on(line) ==> line.len() >= 10 && line[0] == 'p' && line[1] == 'r',
        closes_block(line) ==> line.len() >= 1 && line[0] == '}',
{
    reveal_strlit("server_name");
    reveal_strlit("location");
    reveal_strlit("proxy_pass");
    reveal_strlit("}");
    if names_server(line) {
        assert(line.subrange(0, 11)[0] == 's');
        assert(line.subrange(0, 11)[1] == 'e');
    }
    if opens_location(line) {
        assert(line.subrange(0, 8)[0] == 'l');
        assert(line.subrange(0, 8)[1] == 'o');
    }
    if passes_on(line) {
        assert(line.subrange(0, 10)[0] == 'p');
        assert(line.subrange(0, 10)[1] == 'r');
    }
    if closes_block(line) {
        let kept = strip_end(line, CharClass::Whitespace);
        lemma_run_start(line, CharClass::Whitespace, line.len() as int);
        let k = run_start(line, CharClass::Whitespace, line.len() as int);
        assert(kept == line.take(k));
        assert(kept.len() == 1);
        assert(line.take(k).len() == k);
        assert(line.take(k)[0] == line[0]);
    }
}

/// Whether a line is one that the reader passes over, as its start shows.
pub open spec fn passed_over(line: Seq<char>) -> bool {
    other_head(trim_start(line))
}

/// Lines that are passed over leave the state as it is.
pub proof fn lemma_scan_passed(
    state: ScanModel,
    all: Seq<Seq<char>>,
    names: Capture,
    locations: Capture,
    count: int,
)
    requires
        forall|i: int| 0 <= i < all.len() ==> passed_over(#[trigger] all[i]),
        0 <= count <= all.len(),
    ensures
        scan_with(state, all, names, locations, count) == state,
    decreases count,
{
    if count > 0 {
        lemma_scan_passed(state, all, names, locations, count - 1);
        let line = trim_start(all[count - 1]);
        assert(passed_over(all[count - 1]));
        lemma_other_line(state, line, names(line), locations(line));
    }
}

/// Reading one line is one step.
pub proof fn lemma_scan_one(state: ScanModel, line: Seq<char>, names: Capture, locations: Capture)
    ensures
        scan_all(state, seq![line], names, locations) == scan_step(
            state,
            trim_start(line),
            names(trim_start(line)),
            locations(trim_start(line)),
        ),
{
    reveal_with_fuel(scan_with, 2);
    assert(seq![line][0] == line);
}

/// The `server_name` line without its indentation.
pub open spec fn trimmed_name_line(name: Seq<char>) -> Seq<char> {
    "server_name "@ + name + ";"@
}

/// The line that opens the block of a location, without its indentation.
pub open spec fn trimmed_location_line(location: Seq<char>) -> Seq<char> {
    "location "@ + leading_slash(location) + location + trailing_slash(location) + " {"@
}

/// The line that passes a location on, without its indentation.
pub open spec fn trimmed_pass_line(target: Seq<char>) -> Seq<char> {
    "proxy_pass "@ + target + trailing_slash(target) + ";"@
}

/// The reader sees the `server_name` line without its indentation, and as
/// a line that names the server.
pub proof fn lemma_name_line(name: Seq<char>)
    ensures
        trim_start(server_name_line(name)) == trimmed_name_line(name),
        names_server(trimmed_name_line(name)),
{
    reveal_strlit("  server_name ");
    reveal_strlit("server_name ");
    reveal_strlit("server_name");
    let line = server_name_line(name);
    lemma_trim_indent(line, 2);
    assert(line.skip(2) =~= trimmed_name_line(name));
    assert("server_name"@ =~= trimmed_name_line(name).subrange(0, 11));
}

/// The reader sees the line that opens a block without its indentation,
/// and as a line that opens a location.
pub proof fn lemma_location_line(location: Seq<char>)
    ensures
        trim_start(location_line(location)) == trimmed_location_line(location),
        opens_location(trimmed_location_line(location)),
        !names_server(trimmed_location_line(location)),
{
    reveal_strlit("  location ");
    reveal_strlit("location ");
    reveal_strlit("location");
    let line = location_line(location);
    lemma_trim_indent(line, 2);
    assert(line.skip(2) =~= trimmed_location_line(location));
    assert("location"@ =~= trimmed_location_line(location).subrange(0, 8));
    lemma_keyword_heads(trimmed_location_line(location));
}

/// Whether a text holds no whitespace.
pub open spec fn no_whitespace(s: Seq<char>) -> bool {
    forall|i: int| 0 <= i < s.len() ==> !is_whitespace(#[trigger] s[i])
}

/// The reader sees the line that passes a location on without its
/// indentation, as a line that passes on, and with the target that was
/// written.
pub proof fn lemma_pass_line(target: Seq<char>)
    requires
        no_whitespace(target),
    ensures
        trim_start(pass_line(target)) == trimmed_pass_line(target),
        passes_on(trimmed_pass_line(target)),
        !names_server(trimmed_pass_line(target)),
        !opens_location(trimmed_pass_line(target)),
        target_of(trimmed_pass_line(target)) == Some(target + trailing_slash(target)),
{
    reveal_strlit("      proxy_pass ");
    reveal_strlit("proxy_pass ");
    reveal_strlit("proxy_pass");
    reveal_strlit("/");
    reveal_strlit(";");
    let line = pass_line(target);
    let p = trimmed_pass_line(target);
    let ws = CharClass::Whitespace;
    lemma_trim_indent(line, 6);
    assert(line.skip(6) =~= p);
    assert("proxy_pass"@ =~= p.subrange(0, 10));
    lemma_keyword_heads(p);
    let written = target + trailing_slash(target);
    let word = written + ";"@;
    assert(p =~= "proxy_pass "@ + word);
    assert(written.len() > 0 && written.last() == '/') by {
        if "/"@.is_suffix_of(target) {
            assert(target.subrange(target.len() - 1, target.len() as int)[0] == '/');
            assert(written =~= target);
        }
    }
    assert forall|j: int| 11 <= j < p.len() implies !is_whitespace(#[trigger] p[j]) by {
        assert(p[j] == word[j - 11]);
        if j - 11 < target.len() {
            assert(word[j - 11] == target[j - 11]);
        }
    }
    lemma_run_end_unique(p, ws, true, 0, 0);
    lemma_run_end_unique(p, ws, false, 0, 10);
    lemma_run_end_unique(p, ws, true, 10, 11);
    lemma_run_end_unique(p, ws, false, 11, p.len() as int);
    assert(p.subrange(11, p.len() as int) =~= word);
    assert(second_word(p) == Some(word));
    let semicolon = CharClass::Only(';');
    reveal_with_fuel(run_start, 3);
    assert(word[word.len() - 1] == ';');
    assert(word[word.len() - 2] == '/');
    assert(run_start(word, semicolon, word.len() as int) == word.len() - 1);
    assert(word.take(word.len() - 1) =~= written);
}

/// The reader sees a closing brace, indented or not, as a line that closes
/// a block and nothing else.
pub proof fn lemma_brace_lines()
    ensures
        trim_start("  }"@) == "}"@,
        trim_start("}"@) == "}"@,
        closes_block("}"@),
        !names_server("}"@),
        !opens_location("}"@),
        !passes_on("}"@),
{
    reveal_strlit("  }");
    reveal_strlit("}");
    lemma_trim_indent("  }"@, 2);
    lemma_trim_indent("}"@, 0);
    assert("  }"@.skip(2) =~= "}"@);
    assert("}"@.skip(0) =~= "}"@);
    lemma_keyword_heads("}"@);
    reveal_with_fuel(run_start, 2);
    assert("}"@.take(1) =~= "}"@);
}

/// Reading two lists, one after the other.
pub proof fn lemma_scan_all_add(
    state: ScanModel,
    a: Seq<Seq<char>>,
    b: Seq<Seq<char>>,
    names: Capture,
    locations: Capture,
)
    ensures
        scan_all(state, a + b, names, locations) == scan_all(
            scan_all(state, a, names, locations),
            b,
            names,
            locations,
        ),
{
    lemma_scan_add(state, a, b, names, locations, b.len() as int);
}

/// The fixed lines of the server blocks are passed over.
pub proof fn lemma_fixed_lines_passed()
    ensures
        passed_over("server {"@),
        passed_over("  listen 80;"@),
        passed_over("  listen [::]:80;"@),
        passed_over("  listen 443 ssl;"@),
        passed_over("  ssl_session_cache    shared:SSL:1m;"@),
        passed_over("  ssl_session_timeout  5m;"@),
        passed_over("  ssl_ciphers  HIGH:!aNULL:!MD5;"@),
        passed_over("  ssl_prefer_server_ciphers  on;"@),
{
    reveal_strlit("server {");
    reveal_strlit("  listen 80;");
    reveal_strlit("  listen [::]:80;");
    reveal_strlit("  listen 443 ssl;");
    reveal_strlit("  ssl_session_cache    shared:SSL:1m;");
    reveal_strlit("  ssl_session_timeout  5m;");
    reveal_strlit("  ssl_ciphers  HIGH:!aNULL:!MD5;");
    reveal_strlit("  ssl_prefer_server_ciphers  on;");
    lemma_trim_indent("server {"@, 0);
    lemma_trim_indent("  listen 80;"@, 2);
    lemma_trim_indent("  listen [::]:80;"@, 2);
    lemma_trim_indent("  listen 443 ssl;"@, 2);
    lemma_trim_indent("  ssl_session_cache    shared:SSL:1m;"@, 2);
    lemma_trim_indent("  ssl_session_timeout  5m;"@, 2);
    lemma_trim_indent("  ssl_ciphers  HIGH:!aNULL:!MD5;"@, 2);
    lemma_trim_indent("  ssl_prefer_server_ciphers  on;"@, 2);
}

/// The two lines that name the certificate and its key are passed over.
pub proof fn lemma_certificate_lines_passed(name: Seq<char>)
    ensures
        passed_over("  ssl_certificate      "@ + name + ".pem;"@),
        passed_over("  ssl_certificate_key  "@ + name + "-key.pem;"@),
{
    reveal_strlit("  ssl_certificate      ");
    reveal_strlit("  ssl_certificate_key  ");
    lemma_trim_indent("  ssl_certificate      "@ + name + ".pem;"@, 2);
    lemma_trim_indent("  ssl_certificate_key  "@ + name + "-key.pem;"@, 2);
}

/// Reading the `server_name` line records the name that was captured.
pub proof fn lemma_name_scan(state: ScanModel, name: Seq<char>, names: Capture, locations: Capture)
    requires
        names(trimmed_name_line(name)) == Some(name),
    ensures
        scan_all(state, seq![server_name_line(name)], names, locations) == (ScanModel {
            names: state.names.push(name),
            ..state
        }),
{
    lemma_name_line(name);
    lemma_scan_one(state, server_name_line(name), names, locations);
}

/// Reading a closing brace leaves no location open.
pub proof fn lemma_brace_scan(state: ScanModel, names: Capture, locations: Capture)
    ensures
        scan_all(state, seq!["}"@], names, locations) == (ScanModel {
            open_location: None,
            ..state
        }),
{
    lemma_brace_lines();
    lemma_scan_one(state, "}"@, names, locations);
}

/// Reading the three lines of a block gives the captured path the target
/// that was written, and leaves no location open.
pub proof fn lemma_block_scan(state: ScanModel, entry: Entry, names: Capture, locations: Capture)
    requires
        locations(trimmed_location_line(entry.0)) is Some,
        no_whitespace(entry.1),
    ensures
        scan_all(state, block_lines(entry), names, locations) == (ScanModel {
            names: state.names,
            open_location: None,
            proxies: with_entry(
                state.proxies,
                locations(trimmed_location_line(entry.0)).unwrap(),
                entry.1 + trailing_slash(entry.1),
            ),
        }),
{
    let a = location_line(entry.0);
    let b = pass_line(entry.1);
    let c = "  }"@;
    lemma_location_line(entry.0);
    lemma_pass_line(entry.1);
    lemma_brace_lines();
    assert(block_lines(entry) =~= seq![a] + seq![b] + seq![c]);
    lemma_scan_all_add(state, seq![a] + seq![b], seq![c], names, locations);
    lemma_scan_all_add(state, seq![a], seq![b], names, locations);
    lemma_scan_one(state, a, names, locations);
    let opened = scan_all(state, seq![a], names, locations);
    lemma_scan_one(opened, b, names, locations);
    let passed = scan_all(opened, seq![b], names, locations);
    lemma_scan_one(passed, c, names, locations);
}

/// The mapping that is read back from the blocks of the first `count`
/// entries, starting from `start`: each path that was captured gets the
/// target that was written, ended with a slash.
pub open spec fn read_back(
    start: Seq<Entry>,
    entries: Seq<Entry>,
    locations: Capture,
    count: int,
) -> Seq<Entry>
    decreases count,
{
    if count <= 0 {
        start
    } else {
        with_entry(
            read_back(start, entries, locations, count - 1),
            locations(trimmed_location_line(entries[count - 1].0)).unwrap(),
            entries[count - 1].1 + trailing_slash(entries[count - 1].1),
        )
    }
}

/// Whether the blocks of a mapping can be read back: a path is captured
/// from each line that opens a block, and no target holds whitespace.
pub open spec fn readable(entries: Seq<Entry>, locations: Capture) -> bool {
    forall|i: int|
        0 <= i < entries.len() ==> locations(trimmed_location_line((#[trigger] entries[i]).0))
            is Some && no_whitespace(entries[i].1)
}

/// Reading the blocks of the first `count` entries.
pub proof fn lemma_blocks_scan(
    state: ScanModel,
    entries: Seq<Entry>,
    names: Capture,
    locations: Capture,
    count: int,
)
    requires
        readable(entries, locations),
        state.open_location is None,
        0 <= count <= entries.len(),
    ensures
        scan_all(state, blocks_lines(entries, count), names, locations) == (ScanModel {
            names: state.names,
            open_location: None,
            proxies: read_back(state.proxies, entries, locations, count),
        }),
    decreases count,
{
    if count > 0 {
        lemma_blocks_scan(state, entries, names, locations, count - 1);
        let before = scan_all(state, blocks_lines(entries, count - 1), names, locations);
        assert(no_whitespace(entries[count - 1].1));
        lemma_block_scan(before, entries[count - 1], names, locations);
        lemma_scan_all_add(
            state,
            blocks_lines(entries, count - 1),
            block_lines(entries[count - 1]),
            names,
            locations,
        );
    }
}

/// Whether a site can be read back: its name is a line and is captured
/// from the `server_name` line, its locations are lines, and its blocks
/// are readable.
pub open spec fn reads_back(
    name: Seq<char>,
    entries: Seq<Entry>,
    names: Capture,
    locations: Capture,
) -> bool {
    &&& is_line(name)
    &&& names(trimmed_name_line(name)) == Some(name)
    &&& forall|i: int| 0 <= i < entries.len() ==> is_line((#[trigger] entries[i]).0)
    &&& readable(entries, locations)
}

/// Reading the server block for plain HTTP records the name once and reads
/// the blocks.
pub proof fn lemma_http_scan(
    state: ScanModel,
    name: Seq<char>,
    entries: Seq<Entry>,
    names: Capture,
    locations: Capture,
)
    requires
        reads_back(name, entries, names, locations),
        state.open_location is None,
    ensures
        scan_all(state, http_lines(name, entries), names, locations) == (ScanModel {
            names: state.names.push(name),
            open_location: None,
            proxies: read_back(state.proxies, entries, locations, entries.len() as int),
        }),
{
    let fixed = seq!["server {"@, "  listen 80;"@, "  listen [::]:80;"@];
    let named = seq![server_name_line(name)];
    let blocks = blocks_lines(entries, entries.len() as int);
    let brace = seq!["}"@];
    lemma_fixed_lines_passed();
    lemma_scan_passed(state, fixed, names, locations, 3);
    lemma_name_scan(state, name, names, locations);
    let s2 = scan_all(state, named, names, locations);
    lemma_blocks_scan(s2, entries, names, locations, entries.len() as int);
    let s3 = scan_all(s2, blocks, names, locations);
    lemma_brace_scan(s3, names, locations);
    assert(http_lines(name, entries) =~= fixed + named + blocks + brace);
    lemma_scan_all_add(state, fixed, named, names, locations);
    lemma_scan_all_add(state, fixed + named, blocks, names, locations);
    lemma_scan_all_add(state, fixed + named + blocks, brace, names, locations);
}

/// Reading the server block for TLS records the name once and reads the
/// blocks.
pub proof fn lemma_https_scan(
    state: ScanModel,
    name: Seq<char>,
    entries: Seq<Entry>,
    names: Capture,
    locations: Capture,
)
    requires
        reads_back(name, entries, names, locations),
        state.open_location is None,
    ensures
        scan_all(state, https_lines(name, entries), names, locations) == (ScanModel {
            names: state.names.push(name),
            open_location: None,
            proxies: read_back(state.proxies, entries, locations, entries.len() as int),
        }),
{
    let named = seq![server_name_line(name)];
    let settings = https_settings(name);
    let blocks = blocks_lines(entries, entries.len() as int);
    let brace = seq!["}"@];
    lemma_fixed_lines_passed();
    lemma_certificate_lines_passed(name);
    lemma_scan_passed(state, https_head(), names, locations, 2);
    lemma_name_scan(state, name, names, locations);
    let s2 = scan_all(state, named, names, locations);
    lemma_scan_passed(s2, settings, names, locations, 6);
    lemma_blocks_scan(s2, entries, names, locations, entries.len() as int);
    let s3 = scan_all(s2, blocks, names, locations);
    lemma_brace_scan(s3, names, locations);
    lemma_scan_all_add(state, https_head(), named, names, locations);
    lemma_scan_all_add(state, https_head() + named, settings, names, locations);
    lemma_scan_all_add(state, https_head() + named + settings, blocks, names, locations);
    lemma_scan_all_add(state, https_head() + named + settings + blocks, brace, names, locations);
}

/// A text without whitespace is a line.
pub proof fn lemma_no_whitespace_is_line(s: Seq<char>)
    requires
        no_whitespace(s),
    ensures
        is_line(s),
{
    assert forall|i: int| 0 <= i < s.len() implies s[i] != '\n' && s[i] != '\r' by {
        assert(!is_whitespace(s[i]));
    }
}

/// What is read back from the file of a site without a websocket: the name
/// twice, once for each server block, no open location, and the mapping
/// that the blocks give, read twice.
pub open spec fn read_site(name: Seq<char>, entries: Seq<Entry>, locations: Capture) -> ScanModel {
    let once = read_back(Seq::empty(), entries, locations, entries.len() as int);
    ScanModel {
        names: seq![name, name],
        open_location: None,
        proxies: read_back(once, entries, locations, entries.len() as int),
    }
}

/// Writing a site and reading the text back gives the site: the same
/// server name, and for each location the path that was captured from its
/// line, with the target that was written, ended with a slash. This holds
/// whatever the two expressions capture elsewhere, as long as they give
/// the name back from the `server_name` line and some path from each line
/// that opens a block, and as long as the name and the locations hold no
/// line break and the targets no whitespace.
pub proof fn law_written_site_reads_back(
    name: Seq<char>,
    entries: Seq<Entry>,
    names: Capture,
    locations: Capture,
)
    requires
        reads_back(name, entries, names, locations),
    ensures
        lines(site_config(name, entries, None)) == site_lines(name, entries),
        scan_all(
            nothing_read(),
            lines(site_config(name, entries, None)),
            names,
            locations,
        ) == read_site(name, entries, locations),
{
    assert(entries_are_lines(entries)) by {
        assert forall|i: int| 0 <= i < entries.len() implies is_line((#[trigger] entries[i]).0)
            && is_line(entries[i].1) by {
            assert(no_whitespace(entries[i].1));
            lemma_no_whitespace_is_line(entries[i].1);
        }
    }
    lemma_site_lines_split(name, entries);
    let start = nothing_read();
    lemma_http_scan(start, name, entries, names, locations);
    let half = scan_all(start, http_lines(name, entries), names, locations);
    lemma_https_scan(half, name, entries, names, locations);
    lemma_scan_all_add(start, http_lines(name, entries), https_lines(name, entries), names, locations);
    assert(Seq::<Seq<char>>::empty().push(name).push(name) =~= seq![name, name]);
}

/// The same for the reader itself: where the two expressions of the reader
/// capture the name and a path from the lines of the written file, the
/// reader reads the site back.
pub proof fn law_written_site_is_scanned(name: Seq<char>, entries: Seq<Entry>)
    ensures
        reads_back(name, entries, captured_name(), captured_location()) ==> scanned(
            site_config(name, entries, None),
        ) == read_site(name, entries, captured_location()),
{
    if reads_back(name, entries, captured_name(), captured_location()) {
        law_written_site_reads_back(name, entries, captured_name(), captured_location());
        let all = lines(site_config(name, entries, None));
        lemma_scan_lines_is_scan_with(all, all.len() as int);
    }
}

/// A file that names its server twice gives one site, with the mapping
/// that was read; where the name ends with the local domain, the listing
/// holds it once and listing shows the site once.
pub proof fn law_one_site_from_one_file(name: Seq<char>, path: Seq<char>, proxies: Seq<Entry>)
    ensures
        ({
            let read = ScanModel { names: seq![name, name], open_location: None, proxies: proxies };
            let sites = absorbed(Seq::empty(), path, read);
            &&& sites == seq![SiteModel { name: name, path: path, proxies: proxies }]
            &&& LOCAL_SUFFIX@.is_suffix_of(name) ==> listing_of(sites) == seq![name] && list_plan(
                sites,
            ) == seq![ActionModel::Show(display_of(name, proxies))]
        }),
{
    let read = ScanModel { names: seq![name, name], open_location: None, proxies: proxies };
    let none = Seq::<SiteModel>::empty();
    let first = with_path(none, name, path);
    assert(first =~= seq![SiteModel { name: name, path: path, proxies: Seq::empty() }]);
    reveal_with_fuel(site_index, 2);
    let second = with_path(first, name, path);
    assert(second =~= first);
    reveal_with_fuel(with_paths, 3);
    assert(with_paths(none, read.names, path, 2) == second);
    let sites = absorbed(none, path, read);
    assert(sites =~= seq![SiteModel { name: name, path: path, proxies: proxies }]);
    if LOCAL_SUFFIX@.is_suffix_of(name) {
        reveal_with_fuel(local_names, 2);
        assert(rank(Seq::<Seq<char>>::empty(), name, 0) == 0);
        assert(listing_of(sites) =~= seq![name]);
        reveal_with_fuel(showing_all, 2);
        assert(site_named(sites, name) == Some(sites[0]));
        assert(list_plan(sites) =~= seq![ActionModel::Show(display_of(name, proxies))]);
    }
}

/// The entry that is read back for the entry at `index`: the path that was
/// captured from its line, and the target that was written, ended with a
/// slash.
pub open spec fn read_entry(entries: Seq<Entry>, locations: Capture, index: int) -> Entry {
    (
        locations(trimmed_location_line(entries[index].0)).unwrap(),
        entries[index].1 + trailing_slash(entries[index].1),
    )
}

/// The entries that are read back for the first `count` entries, one for
/// each, in order.
pub open spec fn read_entries(entries: Seq<Entry>, locations: Capture, count: int) -> Seq<Entry> {
    Seq::new(count as nat, |i: int| read_entry(entries, locations, i))
}

/// Whether different entries give different paths when they are read back.
pub open spec fn distinct_paths(entries: Seq<Entry>, locations: Capture) -> bool {
    forall|i: int, j: int|
        0 <= i < j < entries.len() ==> #[trigger] read_entry(entries, locations, i).0
            != #[trigger] read_entry(entries, locations, j).0
}

/// Where different entries give different paths, the blocks read once give
/// one entry for each entry that was written, in order.
pub proof fn lemma_read_once(entries: Seq<Entry>, locations: Capture, count: int)
    requires
        distinct_paths(entries, locations),
        0 <= count <= entries.len(),
    ensures
        read_back(Seq::empty(), entries, locations, count) == read_entries(
            entries,
            locations,
            count,
        ),
    decreases count,
{
    if count > 0 {
        lemma_read_once(entries, locations, count - 1);
        let before = read_entries(entries, locations, count - 1);
        let last = read_entry(entries, locations, count - 1);
        lemma_key_index(before, last.0, 0);
        let at = key_index(before, last.0, 0);
        if at < before.len() {
            assert(before[at] == read_entry(entries, locations, at));
            assert(read_entry(entries, locations, at).0 != read_entry(entries, locations, count - 1).0);
        }
        assert(before.push(last) =~= read_entries(entries, locations, count));
    } else {
        assert(read_entries(entries, locations, count) =~= Seq::<Entry>::empty());
    }
}

/// Where different entries give different paths, reading the blocks a
/// second time changes nothing.
pub proof fn lemma_read_again(entries: Seq<Entry>, locations: Capture, count: int)
    requires
        distinct_paths(entries, locations),
        0 <= count <= entries.len(),
    ensures
        read_back(
            read_entries(entries, locations, entries.len() as int),
            entries,
            locations,
            count,
        ) == read_entries(entries, locations, entries.len() as int),
    decreases count,
{
    if count > 0 {
        lemma_read_again(entries, locations, count - 1);
        let all = read_entries(entries, locations, entries.len() as int);
        let this = read_entry(entries, locations, count - 1);
        lemma_key_index(all, this.0, 0);
        let at = key_index(all, this.0, 0);
        assert(all[count - 1] == this);
        if at < count - 1 {
            assert(all[at] == read_entry(entries, locations, at));
            assert(read_entry(entries, locations, at).0 != read_entry(entries, locations, count - 1).0);
        }
        assert(at == count - 1);
        assert(all.update(at, this) =~= all);
    }
}

/// Where different entries give different paths, the mapping that is read
/// back from the file of a site has exactly one entry for each entry that
/// was written, in the order in which they were written.
pub proof fn law_read_site_has_each_entry_once(
    name: Seq<char>,
    entries: Seq<Entry>,
    locations: Capture,
)
    requires
        distinct_paths(entries, locations),
    ensures
        read_site(name, entries, locations).proxies == read_entries(
            entries,
            locations,
            entries.len() as int,
        ),
        read_site(name, entries, locations).proxies.len() == entries.len(),
{
    lemma_read_once(entries, locations, entries.len() as int);
    lemma_read_again(entries, locations, entries.len() as int);
}

} // verus!
