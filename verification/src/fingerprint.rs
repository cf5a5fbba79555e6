//! The identity of a proxy and the place of its file.
//!
//! A proxy is identified by its source path, its target resolution and its
//! target frame rate rounded to whole frames per second. The quality tier is not
//! part of the identity: two requests that differ only in quality are
//! requests for the same proxy.

use crate::numeral::{append_radix, decimal_digits, hex_digits, hex_string};
use crate::proxy_settings::ProxySettings;
use std::collections::hash_map::DefaultHasher;
use std::hash::{BuildHasher, BuildHasherDefault};
use vstd::prelude::*;
use vstd::string::{StrSliceExecFns, StringExecFns};

verus! {

/// The hash that the standard library's default hasher, started afresh,
/// gives to a source path, a width, a height and a frame rate fed to it in
/// this order.
pub uninterp spec fn identity_hash(path: Seq<char>, width: u32, height: u32, rate: u32) -> u64;

/// Hashes the identity of a proxy with `std::hash::BuildHasher::hash_one`
/// on a `BuildHasherDefault<DefaultHasher>`, which starts a fresh
/// `DefaultHasher` and feeds it the path, the two sides of the resolution
/// and the rate. All that is claimed is that equal inputs give equal
/// hashes: every `DefaultHasher` made by `default` starts in the same state.
#[verifier::external_body]
fn hash_identity(video_path: &str, width: u32, height: u32, rate: u32) -> (hash: u64)
    ensures
        hash == identity_hash(video_path@, width, height, rate),
{
    BuildHasherDefault::<DefaultHasher>::default().hash_one((video_path, (width, height), rate))
}

/// The identifier of the proxy of `path` with `settings`: the identity hash
/// in hexadecimal.
pub open spec fn proxy_id(path: Seq<char>, settings: ProxySettings) -> Seq<char> {
    hex_digits(
        identity_hash(
            path,
            settings.resolution.0,
            settings.resolution.1,
            settings.whole_frame_rate(),
        ) as nat,
    )
}

/// The name of the file that holds the proxy `id` at `rate` whole frames
/// per second.
pub open spec fn proxy_file_name(id: Seq<char>, rate: u32) -> Seq<char> {
    "proxy_"@ + id + "_"@ + decimal_digits(rate as nat) + ".mp4"@
}

/// The path of `file` directly under the directory `dir`. An empty `dir`
/// stands for the current directory.
pub open spec fn joined_path(dir: Seq<char>, file: Seq<char>) -> Seq<char> {
    if dir.len() == 0 {
        file
    } else if dir.last() == '/' {
        dir + file
    } else {
        dir + seq!['/'] + file
    }
}

/// The path of the file that holds the proxy of `path` with `settings`
/// under the cache directory `dir`.
pub open spec fn proxy_path(dir: Seq<char>, path: Seq<char>, settings: ProxySettings) -> Seq<
    char,
> {
    joined_path(dir, proxy_file_name(proxy_id(path, settings), settings.whole_frame_rate()))
}

/// Computes the identifier of the proxy of `video_path` with `settings`.
pub fn generate_proxy_id(video_path: &str, settings: &ProxySettings) -> (id: String)
    ensures
        id@ == proxy_id(video_path@, *settings),
{
    let hash: u64 = hash_identity(
        video_path,
        settings.resolution.0,
        settings.resolution.1,
        settings.frames_per_second(),
    );
    hex_string(hash)
}

/// Computes the path of `file` directly under `dir`.
pub fn join_path(dir: &str, file: &str) -> (path: String)
    ensures
        path@ == joined_path(dir@, file@),
{
    let n: usize = dir.unicode_len();
    let mut path: String = String::from_str(dir);
    if n > 0 && dir.get_char(n - 1) != '/' {
        proof {
            reveal_strlit("/");
        }
        path.append("/");
    }
    path.append(file);
    path
}

/// Computes the name of the file that holds the proxy `id` at `rate` whole
/// frames per second.
pub fn generate_proxy_file_name(id: &str, rate: u32) -> (name: String)
    ensures
        name@ == proxy_file_name(id@, rate),
{
    let mut name: String = String::from_str("proxy_");
    name.append(id);
    name.append("_");
    append_radix(&mut name, rate as u64, 10);
    name.append(".mp4");
    name
}

/// Computes the path of the file that holds the proxy of `video_path` with
/// `settings` under the cache directory `dir`.
pub fn generate_proxy_path(dir: &str, video_path: &str, settings: &ProxySettings) -> (path: String)
    ensures
        path@ == proxy_path(dir@, video_path@, *settings),
{
    let id: String = generate_proxy_id(video_path, settings);
    let name: String = generate_proxy_file_name(id.as_str(), settings.frames_per_second());
    join_path(dir, name.as_str())
}

} // verus!
