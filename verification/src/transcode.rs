//! The command line of the transcoder.
//!
//! A proxy is made by an external tool that reads the source, scales it to
//! the target resolution, resamples it to the target frame rate, encodes the
//! picture with the rate factor of the quality tier, drops the sound and
//! writes the result. This module states the arguments that the tool is
//! started with; starting it is left to the caller.

use crate::numeral::{append_radix, decimal_digits, thousandths_string, thousandths_text};
use crate::proxy_settings::ProxySettings;
use vstd::prelude::*;
use vstd::string::StringExecFns;

verus! {

/// The name of the transcoder's program.
pub open spec fn tool_name() -> Seq<char> {
    "ffmpeg"@
}

/// The one argument with which the tool is asked whether it is there.
pub open spec fn probe_args() -> Seq<Seq<char>> {
    seq!["-version"@]
}

/// The scaling filter for a picture of `width` by `height`.
pub open spec fn scale_filter(width: u32, height: u32) -> Seq<char> {
    "scale="@ + decimal_digits(width as nat) + ":"@ + decimal_digits(height as nat)
}

/// The arguments that make the proxy of `input` with `settings` at `output`:
/// overwrite without asking, read `input`, scale, resample, encode with
/// x264 at the tier's rate factor and the fastest sensible preset, drop the
/// sound, put the index at the front of the file, write `output`.
pub open spec fn transcode_args(
    input: Seq<char>,
    output: Seq<char>,
    settings: ProxySettings,
) -> Seq<Seq<char>> {
    seq![
        "-y"@,
        "-i"@,
        input,
        "-vf"@,
        scale_filter(settings.resolution.0, settings.resolution.1),
        "-r"@,
        thousandths_text(settings.frame_rate as nat),
        "-c:v"@,
        "libx264"@,
        "-crf"@,
        decimal_digits(settings.quality.rate_factor() as nat),
        "-preset"@,
        "veryfast"@,
        "-an"@,
        "-movflags"@,
        "faststart"@,
        output,
    ]
}

fn push_arg(args: &mut Vec<String>, arg: String)
    ensures
        final(args).deep_view() == old(args).deep_view().push(arg@),
{
    args.push(arg);
}

/// The name of the transcoder's program.
pub fn tool_program() -> (name: String)
    ensures
        name@ == tool_name(),
{
    String::from_str("ffmpeg")
}

/// The arguments of the probe that tells whether the tool is there.
pub fn build_probe_args() -> (args: Vec<String>)
    ensures
        args.deep_view() == probe_args(),
{
    let mut args: Vec<String> = Vec::new();
    push_arg(&mut args, String::from_str("-version"));
    args
}

/// Builds the scaling filter for a picture of `width` by `height`.
pub fn build_scale_filter(width: u32, height: u32) -> (filter: String)
    ensures
        filter@ == scale_filter(width, height),
{
    let mut filter: String = String::from_str("scale=");
    append_radix(&mut filter, width as u64, 10);
    filter.append(":");
    append_radix(&mut filter, height as u64, 10);
    filter
}

/// Builds the arguments that make the proxy of `input` with `settings` at
/// `output`.
pub fn build_transcode_args(input: &str, output: &str, settings: &ProxySettings) -> (args: Vec<
    String,
>)
    ensures
        args.deep_view() == transcode_args(input@, output@, *settings),
{
    let mut args: Vec<String> = Vec::new();
    push_arg(&mut args, String::from_str("-y"));
    push_arg(&mut args, String::from_str("-i"));
    push_arg(&mut args, String::from_str(input));
    push_arg(&mut args, String::from_str("-vf"));
    push_arg(&mut args, build_scale_filter(settings.resolution.0, settings.resolution.1));
    push_arg(&mut args, String::from_str("-r"));
    push_arg(&mut args, thousandths_string(settings.frame_rate));
    push_arg(&mut args, String::from_str("-c:v"));
    push_arg(&mut args, String::from_str("libx264"));
    push_arg(&mut args, String::from_str("-crf"));
    let mut factor: String = String::new();
    append_radix(&mut factor, settings.quality.crf() as u64, 10);
    push_arg(&mut args, factor);
    push_arg(&mut args, String::from_str("-preset"));
    push_arg(&mut args, String::from_str("veryfast"));
    push_arg(&mut args, String::from_str("-an"));
    push_arg(&mut args, String::from_str("-movflags"));
    push_arg(&mut args, String::from_str("faststart"));
    push_arg(&mut args, String::from_str(output));
    args
}

} // verus!
