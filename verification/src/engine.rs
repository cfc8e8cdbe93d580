//! The invocation contract of the external transformation engine: how it is
//! called for each purpose, and what is made of its standard output.

use crate::descriptor::Direction;
use crate::text::{decode_lossy, has_prefix, lossy_text, starts_with, trim, trimmed};
use vstd::prelude::*;
use vstd::utf8::{decode_utf8, valid_utf8};

verus! {

/// The name under which the engine is looked up on the search path.
pub const ENGINE: &'static str = "cow-translator";

/// What the engine's answer to the version query must begin with.
pub const SUPPORTED_VERSION: &'static str = "1.";

/// The flag that tells the engine in which direction to transform.
pub open spec fn direction_flag(direction: Direction) -> Seq<char> {
    match direction {
        Direction::Forward => "-i"@,
        Direction::Inverse => "-t"@,
    }
}

/// The arguments of the presence probe.
pub open spec fn presence_call() -> Seq<Seq<char>> {
    seq!["-v"@]
}

/// The arguments of the version query.
pub open spec fn version_call() -> Seq<Seq<char>> {
    seq!["--version-check"@]
}

/// The arguments of a transform: quiet output, the direction, the end of
/// the flags, and all of the content as the one positional argument.
pub open spec fn transform_call(direction: Direction, content: Seq<char>) -> Seq<Seq<char>> {
    seq!["-nc"@, direction_flag(direction), "--"@, content]
}

/// `version` is one that this program works with.
pub open spec fn supported(version: Seq<char>) -> bool {
    has_prefix(version, SUPPORTED_VERSION@)
}

/// The transformed content that the engine's standard output stands for:
/// decoded permissively, without leading and trailing whitespace.
pub open spec fn captured(stdout: Seq<u8>) -> Seq<char> {
    trimmed(lossy_text(stdout))
}

/// The arguments with which the engine is probed for its presence.
pub fn presence_arguments() -> (arguments: Vec<String>)
    ensures
        arguments.deep_view() == presence_call(),
{
    let mut arguments: Vec<String> = Vec::new();
    arguments.push("-v".to_string());
    assert(arguments.deep_view() =~= presence_call());
    arguments
}

/// The arguments with which the engine is asked for its version.
pub fn version_arguments() -> (arguments: Vec<String>)
    ensures
        arguments.deep_view() == version_call(),
{
    let mut arguments: Vec<String> = Vec::new();
    arguments.push("--version-check".to_string());
    assert(arguments.deep_view() =~= version_call());
    arguments
}

/// The arguments with which the engine transforms `content`.
pub fn transform_arguments(direction: Direction, content: &str) -> (arguments: Vec<String>)
    ensures
        arguments.deep_view() == transform_call(direction, content@),
{
    let mut arguments: Vec<String> = Vec::new();
    arguments.push("-nc".to_string());
    match direction {
        Direction::Forward => {
            arguments.push("-i".to_string());
        },
        Direction::Inverse => {
            arguments.push("-t".to_string());
        },
    }
    arguments.push("--".to_string());
    arguments.push(content.to_string());
    assert(arguments.deep_view() =~= transform_call(direction, content@));
    arguments
}

/// Whether `version`, the engine's decoded answer to the version query, is
/// one that this program works with.
pub fn version_supported(version: &str) -> (r: bool)
    ensures
        r == supported(version@),
{
    starts_with(version, SUPPORTED_VERSION)
}

/// Whether the engine's raw answer to the version query reports a supported
/// version. The answer is decoded permissively; well-formed UTF-8 is taken
/// as it is.
pub fn reports_supported_version(stdout: &[u8]) -> (r: bool)
    ensures
        r == supported(lossy_text(stdout@)),
        valid_utf8(stdout@) ==> r == supported(decode_utf8(stdout@)),
{
    let version = decode_lossy(stdout);
    version_supported(version.as_str())
}

/// The transformed content in the engine's raw standard output. The output
/// is decoded permissively; well-formed UTF-8 is taken as it is.
pub fn capture(stdout: &[u8]) -> (content: String)
    ensures
        content@ == captured(stdout@),
        valid_utf8(stdout@) ==> content@ == trimmed(decode_utf8(stdout@)),
{
    let text = decode_lossy(stdout);
    trim(text.as_str())
}

} // verus!
