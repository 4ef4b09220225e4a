//! Writing a site's configuration: one server block for plain HTTP, one for
//! TLS, and, where the site has a websocket, an upstream group for it.
use crate::proxies::{Entry, ProxyMap};
use crate::text::{chars_of, ends_with, starts_with};
use vstd::prelude::*;
use vstd::string::*;

verus! {

/// A slash, unless `s` already starts with one.
pub open spec fn leading_slash(s: Seq<char>) -> Seq<char> {
    if "/"@.is_prefix_of(s) {
        Seq::empty()
    } else {
        "/"@
    }
}

/// A slash, unless `s` already ends with one.
pub open spec fn trailing_slash(s: Seq<char>) -> Seq<char> {
    if "/"@.is_suffix_of(s) {
        Seq::empty()
    } else {
        "/"@
    }
}

/// The line that opens a location block. The location is made to start with
/// a slash, and, unless it is a websocket location, to end with one.
pub open spec fn location_header(location: Seq<char>, is_websocket: bool) -> Seq<char> {
    "  location "@ + leading_slash(location) + location + (if is_websocket {
        Seq::empty()
    } else {
        trailing_slash(location)
    }) + " {\n"@
}

/// The block that passes a location on to its target; the target is made to
/// end with a slash.
pub open spec fn proxy_block(location: Seq<char>, target: Seq<char>) -> Seq<char> {
    location_header(location, false) + "      proxy_pass "@ + target + trailing_slash(target)
        + ";\n"@ + "  }\n"@
}

/// The block that passes a websocket location on to the upstream group of
/// the server `name`.
pub open spec fn websocket_block(location: Seq<char>, name: Seq<char>) -> Seq<char> {
    location_header(location, true)
        + "    proxy_set_header X-Forwarded-For $proxy_add_x_forwarded_for;\n"@
        + "    proxy_set_header Host $host;\n"@ + "    proxy_pass http://ws-backend-"@ + name
        + ";\n"@ + "    proxy_http_version 1.1;\n"@
        + "    proxy_set_header Upgrade $http_upgrade;\n"@
        + "    proxy_set_header Connection \"upgrade\";\n"@ + "  }\n"@
}

/// The upstream group of the server `name`: routed by client address, with
/// the one server `upstream`.
pub open spec fn upstream_block(upstream: Seq<char>, name: Seq<char>) -> Seq<char> {
    "upstream ws-backend-"@ + name + " {\n"@ + "  ip_hash;\n"@ + "  server "@ + upstream + ";\n"@
        + "}\n"@
}

/// The proxy blocks of the first `count` entries, in order.
pub open spec fn proxy_blocks(entries: Seq<Entry>, count: int) -> Seq<char>
    decreases count,
{
    if count <= 0 {
        Seq::empty()
    } else {
        proxy_blocks(entries, count - 1) + proxy_block(entries[count - 1].0, entries[count - 1].1)
    }
}

/// The location blocks of a server block: one per entry, then the websocket
/// block if the site has a websocket.
pub open spec fn location_blocks(
    name: Seq<char>,
    entries: Seq<Entry>,
    websocket: Option<Entry>,
) -> Seq<char> {
    proxy_blocks(entries, entries.len() as int) + (match websocket {
        Some(ws) => websocket_block(ws.0, name),
        None => Seq::empty(),
    })
}

/// The server block for plain HTTP.
pub open spec fn http_block(name: Seq<char>, entries: Seq<Entry>, websocket: Option<Entry>) -> Seq<
    char,
> {
    "server {\n"@ + "  listen 80;\n"@ + "  listen [::]:80;\n"@ + "  server_name "@ + name + ";\n"@
        + location_blocks(name, entries, websocket) + "}\n"@
}

/// The server block for TLS, with the certificate and key named after the
/// server.
pub open spec fn https_block(name: Seq<char>, entries: Seq<Entry>, websocket: Option<Entry>) -> Seq<
    char,
> {
    "server {\n"@ + "  listen 443 ssl;\n"@ + "  server_name "@ + name + ";\n"@
        + "  ssl_certificate      "@ + name + ".pem;\n"@ + "  ssl_certificate_key  "@ + name
        + "-key.pem;\n"@ + "  ssl_session_cache    shared:SSL:1m;\n"@
        + "  ssl_session_timeout  5m;\n"@ + "  ssl_ciphers  HIGH:!aNULL:!MD5;\n"@
        + "  ssl_prefer_server_ciphers  on;\n"@ + location_blocks(name, entries, websocket)
        + "}\n"@
}

/// The whole configuration file of a site.
pub open spec fn site_config(name: Seq<char>, entries: Seq<Entry>, websocket: Option<Entry>) -> Seq<
    char,
> {
    http_block(name, entries, websocket) + https_block(name, entries, websocket) + (match websocket {
        Some(ws) => upstream_block(ws.1, name),
        None => Seq::empty(),
    })
}

/// The text of an optional websocket binding.
pub open spec fn binding_text(websocket: Option<(String, String)>) -> Option<Entry> {
    match websocket {
        Some((location, target)) => Some((location@, target@)),
        None => None,
    }
}

/// Appends a slash unless `s` starts with one.
fn write_leading_slash(out: &mut String, s: &str)
    ensures
        final(out)@ == old(out)@ + leading_slash(s@),
{
    let chars = chars_of(s);
    let slash = chars_of("/");
    if !starts_with(chars.as_slice(), slash.as_slice()) {
        out.append("/");
    }
}

/// Appends a slash unless `s` ends with one.
fn write_trailing_slash(out: &mut String, s: &str)
    ensures
        final(out)@ == old(out)@ + trailing_slash(s@),
{
    let chars = chars_of(s);
    let slash = chars_of("/");
    if !ends_with(chars.as_slice(), slash.as_slice()) {
        out.append("/");
    }
}

/// Appends the line that opens a location block.
pub fn write_location_header(out: &mut String, location: &str, is_websocket: bool)
    ensures
        final(out)@ == old(out)@ + location_header(location@, is_websocket),
{
    out.append("  location ");
    write_leading_slash(out, location);
    out.append(location);
    if !is_websocket {
        write_trailing_slash(out, location);
    }
    out.append(" {\n");
}

/// Appends the block that passes `location` on to `target`.
pub fn write_proxy(out: &mut String, location: &str, target: &str)
    ensures
        final(out)@ == old(out)@ + proxy_block(location@, target@),
{
    write_location_header(out, location, false);
    out.append("      proxy_pass ");
    out.append(target);
    write_trailing_slash(out, target);
    out.append(";\n");
    out.append("  }\n");
}

/// Appends the block that passes the websocket `location` on to the
/// upstream group of the server `name`.
pub fn write_websocket_proxy(out: &mut String, location: &str, name: &str)
    ensures
        final(out)@ == old(out)@ + websocket_block(location@, name@),
{
    write_location_header(out, location, true);
    out.append("    proxy_set_header X-Forwarded-For $proxy_add_x_forwarded_for;\n");
    out.append("    proxy_set_header Host $host;\n");
    out.append("    proxy_pass http://ws-backend-");
    out.append(name);
    out.append(";\n");
    out.append("    proxy_http_version 1.1;\n");
    out.append("    proxy_set_header Upgrade $http_upgrade;\n");
    out.append("    proxy_set_header Connection \"upgrade\";\n");
    out.append("  }\n");
}

/// Appends the upstream group of the server `name`.
pub fn write_websocket_upstream(out: &mut String, upstream: &str, name: &str)
    ensures
        final(out)@ == old(out)@ + upstream_block(upstream@, name@),
{
    out.append("upstream ws-backend-");
    out.append(name);
    out.append(" {\n");
    out.append("  ip_hash;\n");
    out.append("  server ");
    out.append(upstream);
    out.append(";\n");
    out.append("}\n");
}

/// Appends the location blocks of a server block.
pub fn write_locations(
    out: &mut String,
    name: &str,
    proxies: &ProxyMap,
    websocket: &Option<(String, String)>,
)
    ensures
        final(out)@ == old(out)@ + location_blocks(name@, proxies@, binding_text(*websocket)),
{
    let ghost before = out@;
    let mut i: usize = 0;
    while i < proxies.len()
        invariant
            i <= proxies@.len(),
            out@ == before + proxy_blocks(proxies@, i as int),
        decreases proxies@.len() - i,
    {
        write_proxy(out, proxies.location(i).as_str(), proxies.target(i).as_str());
        i += 1;
    }
    match websocket {
        Some((location, _)) => {
            write_websocket_proxy(out, location.as_str(), name);
        },
        None => {},
    }
}

/// Renders the configuration file of the site `name`.
///
/// `proxies` has to hold the root location `/`. Every entry of `proxies`
/// gets a proxy block, in the order of the mapping, in both server blocks;
/// a websocket binding gets a websocket block in both, and its upstream
/// group after them.
pub fn render_site(name: &str, proxies: &ProxyMap, websocket: &Option<(String, String)>) -> (out:
    String)
    requires
        proxies.wf(),
        crate::proxies::has_key(proxies@, "/"@),
    ensures
        out@ == site_config(name@, proxies@, binding_text(*websocket)),
{
    let mut out = String::new();
    out.append("server {\n");
    out.append("  listen 80;\n");
    out.append("  listen [::]:80;\n");
    out.append("  server_name ");
    out.append(name);
    out.append(";\n");
    write_locations(&mut out, name, proxies, websocket);
    out.append("}\n");
    assert(out@ == http_block(name@, proxies@, binding_text(*websocket)));
    let ghost http = out@;
    out.append("server {\n");
    out.append("  listen 443 ssl;\n");
    out.append("  server_name ");
    out.append(name);
    out.append(";\n");
    out.append("  ssl_certificate      ");
    out.append(name);
    out.append(".pem;\n");
    out.append("  ssl_certificate_key  ");
    out.append(name);
    out.append("-key.pem;\n");
    out.append("  ssl_session_cache    shared:SSL:1m;\n");
    out.append("  ssl_session_timeout  5m;\n");
    out.append("  ssl_ciphers  HIGH:!aNULL:!MD5;\n");
    out.append("  ssl_prefer_server_ciphers  on;\n");
    write_locations(&mut out, name, proxies, websocket);
    out.append("}\n");
    assert(out@ == http + https_block(name@, proxies@, binding_text(*websocket)));
    match websocket {
        Some((_, target)) => {
            write_websocket_upstream(&mut out, target.as_str(), name);
        },
        None => {},
    }
    out
}

} // verus!
