use vstd::prelude::*;

verus! {

/// The `HRESULT` that reports success.
pub const S_OK: i32 = 0;

/// What an edit session's request reports: success where the code the text
/// framework handed back is `S_OK`, else that code as the error.
pub fn edit_session_result(code: i32) -> (r: Result<(), i32>)
    ensures
        code == S_OK ==> r is Ok,
        code != S_OK ==> r == Err::<(), i32>(code),
{
    if code != S_OK {
        Err(code)
    } else {
        Ok(())
    }
}

/// A rectangle in screen coordinates, as the text framework reports the
/// extent of a range of text.
#[derive(Clone, Copy, Debug, PartialEq, Eq, Structural)]
pub struct TextRect {
    pub left: i32,
    pub top: i32,
    pub right: i32,
    pub bottom: i32,
}

/// Where the candidate window goes for a range of text: its left edge, at
/// its bottom.
pub fn candidate_position(rect: TextRect) -> (r: (i32, i32))
    ensures
        r == (rect.left, rect.bottom),
{
    (rect.left, rect.bottom)
}

} // verus!
