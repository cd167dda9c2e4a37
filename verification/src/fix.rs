use vstd::prelude::*;
use vstd::slice::slice_subrange;

verus! {

/// Why a suggested fix could not be applied to the file contents.
#[derive(Debug, Clone, Copy, PartialEq, Eq, Structural)]
pub enum FixError {
    /// The byte range does not lie inside the file: its start is after its
    /// end, or its end is past the end of the contents.
    RangeOutOfBounds,
}

/// Whether the byte range `[byte_start, byte_end)` lies inside contents of
/// length `content_len`.
pub open spec fn range_ok(content_len: nat, byte_start: nat, byte_end: nat) -> bool {
    byte_start <= byte_end && byte_end <= content_len
}

/// The contents with `replacement` spliced over `[byte_start, byte_end)`:
/// everything before `byte_start`, then the replacement, then everything
/// from `byte_end` on.
pub open spec fn spliced(
    content: Seq<u8>,
    byte_start: nat,
    byte_end: nat,
    replacement: Seq<u8>,
) -> Seq<u8> {
    content.take(byte_start as int) + replacement + content.skip(byte_end as int)
}

/// Splice `replacement` over the byte range `[byte_start, byte_end)` of
/// `content` and return the new contents.
///
/// When the range does not fit the contents, nothing is produced and the
/// caller's file is to stay untouched.
pub fn apply(content: &[u8], byte_start: usize, byte_end: usize, replacement: &[u8]) -> (r: Result<
    Vec<u8>,
    FixError,
>)
    ensures
        range_ok(content@.len(), byte_start as nat, byte_end as nat) ==> r is Ok && r->Ok_0@
            == spliced(content@, byte_start as nat, byte_end as nat, replacement@),
        !range_ok(content@.len(), byte_start as nat, byte_end as nat) ==> r == Result::<
            Vec<u8>,
            FixError,
        >::Err(FixError::RangeOutOfBounds),
{
    if byte_start > byte_end || byte_end > content.len() {
        return Err(FixError::RangeOutOfBounds);
    }
    let mut out: Vec<u8> = Vec::new();
    out.extend_from_slice(slice_subrange(content, 0, byte_start));
    out.extend_from_slice(replacement);
    out.extend_from_slice(slice_subrange(content, byte_end, content.len()));
    proof {
        assert(out@ =~= spliced(content@, byte_start as nat, byte_end as nat, replacement@));
    }
    Ok(out)
}

} // verus!
