//! Site configuration for a local reverse proxy.
//!
//! The proxy keeps one configuration file per site in a directory that its
//! root configuration includes. This library finds that directory from the
//! text of the root configuration, reads the per-site files, writes new
//! ones, and decides what each command of the tool has to do. It touches
//! neither the file system nor any process: texts come in, and a plan of
//! actions comes out.
//!
//! - `text`: characters, runs, trimming, lines, words, order.
//! - `pattern`: what a regular expression captures.
//! - `proxy_arg`: arguments of the form `location=target`.
//! - `proxies`: the mapping of a site, from location to target.
//! - `resolver`: the directory of the per-site files.
//! - `reader`: one per-site file, line by line.
//! - `sites`: the sites that were discovered, and their listing.
//! - `writer`: the text of a per-site file.
//! - `display`: what is shown of a site.
//! - `cli`: the command line as plain values.
//! - `dispatch`: the plan for each command.
//! - `effects`: what the plans do outside the terminal.
//! - `roundtrip`: that what was written is read back.
pub mod cli;
pub mod dispatch;
pub mod display;
pub mod effects;
pub mod pattern;
pub mod proxies;
pub mod proxy_arg;
pub mod reader;
pub mod resolver;
pub mod roundtrip;
pub mod sites;
pub mod text;
pub mod writer;
