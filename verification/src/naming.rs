//! The file-naming convention: a transformed file carries the marker suffix,
//! and the destination of an operation is derived from its source.

use crate::descriptor::Direction;
use crate::text::{ends_with, has_suffix, join, strip_suffix, without_suffix};
use vstd::prelude::*;

verus! {

/// The suffix of a file that has passed through the forward transform.
pub const MARKER: &'static str = ".cow";

/// `path` names a file that has passed through the forward transform.
pub open spec fn has_marker(path: Seq<char>) -> bool {
    has_suffix(path, MARKER@)
}

/// Where the result of transforming `source` goes: the forward transform
/// appends the marker, the inverse transform removes it from the end.
pub open spec fn destination(direction: Direction, source: Seq<char>) -> Seq<char> {
    match direction {
        Direction::Forward => source + MARKER@,
        Direction::Inverse => without_suffix(source, MARKER@),
    }
}

/// Whether `path` ends with the marker suffix.
pub fn is_marked(path: &str) -> (r: bool)
    ensures
        r == has_marker(path@),
{
    ends_with(path, MARKER)
}

/// The path to which the result of transforming `source` is written.
pub fn destination_path(direction: Direction, source: &str) -> (r: String)
    ensures
        r@ == destination(direction, source@),
{
    match direction {
        Direction::Forward => join(source, MARKER),
        Direction::Inverse => strip_suffix(source, MARKER),
    }
}

/// The destination of a forward transform carries the marker, and the
/// inverse transform of that file is written back to where the forward
/// transform read.
pub proof fn lemma_destination_round_trip(source: Seq<char>)
    ensures
        has_marker(destination(Direction::Forward, source)),
        destination(Direction::Inverse, destination(Direction::Forward, source)) == source,
{
    let there = source + MARKER@;
    assert(there.subrange(there.len() - MARKER@.len(), there.len() as int) =~= MARKER@);
    assert(there.take(there.len() - MARKER@.len()) =~= source);
}

/// For a file that carries the marker, the forward transform of its inverse
/// transform's destination is written back to the file itself.
pub proof fn lemma_marked_round_trip(source: Seq<char>)
    requires
        has_marker(source),
    ensures
        destination(Direction::Forward, destination(Direction::Inverse, source)) == source,
{
    let cut = source.len() - MARKER@.len();
    assert(source.take(cut) + source.subrange(cut, source.len() as int) =~= source);
}

} // verus!
