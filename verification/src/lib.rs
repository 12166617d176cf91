//! Tool invocation and workspace-mutation orchestration for a stacked-branch
//! workspace: committing selected changes, creating branches, amending,
//! inserting blank commits, moving file changes between commits, and a
//! diff-aware status view.

use vstd::prelude::*;

pub mod envelope;
pub mod jsonio;
pub mod message;
pub mod model;
pub mod ops;
pub mod params;
pub mod registry;
pub mod status;

verus! {

/// Whitespace characters removed by message trimming: the Unicode white
/// space set, from the horizontal tab through carriage return block and the
/// space up to the ideographic space.
pub open spec fn is_space_char(c: char) -> bool {
    ||| c == ' '
    ||| '\u{0009}' <= c <= '\u{000D}'
    ||| c == '\u{0085}'
    ||| c == '\u{00A0}'
    ||| c == '\u{1680}'
    ||| '\u{2000}' <= c <= '\u{200A}'
    ||| c == '\u{2028}'
    ||| c == '\u{2029}'
    ||| c == '\u{202F}'
    ||| c == '\u{205F}'
    ||| c == '\u{3000}'
}

/// Executable check for a whitespace character, matching `is_space_char`.
pub fn is_space(c: char) -> (r: bool)
    ensures
        r == is_space_char(c),
{
    c == ' ' || ('\u{0009}' <= c && c <= '\u{000D}') || c == '\u{0085}' || c == '\u{00A0}' || c
        == '\u{1680}' || ('\u{2000}' <= c && c <= '\u{200A}') || c == '\u{2028}' || c == '\u{2029}'
        || c == '\u{202F}' || c == '\u{205F}' || c == '\u{3000}'
}

} // verus!
