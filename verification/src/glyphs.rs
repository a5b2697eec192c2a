//! The box-drawing characters of a table's frame, and the line break.

use vstd::prelude::*;

verus! {

/// The bar on either side of a cell: │
pub const VERTICAL: &'static str = "\u{2502}";

/// The fill of an ordinary border: ─
pub const HORIZONTAL: &'static str = "\u{2500}";

/// The fill of a border that frames a header: ═
pub const HORIZONTAL_HEADER: &'static str = "\u{2550}";

/// Between two columns on the top border: ┬
pub const TOP_BRACE: &'static str = "\u{252C}";

/// Between two columns on the top border of a header: ╤
pub const TOP_BRACE_HEADER: &'static str = "\u{2564}";

/// Between two columns on the bottom border: ┴
pub const BOTTOM_BRACE: &'static str = "\u{2534}";

/// The left end of a border between rows: ├
pub const LEFT_BRACE: &'static str = "\u{251c}";

/// The left end of the border under a header: ╞
pub const LEFT_BRACE_HEADER: &'static str = "\u{255e}";

/// The right end of a border between rows: ┤
pub const RIGHT_BRACE: &'static str = "\u{2524}";

/// The right end of the border under a header: ╡
pub const RIGHT_BRACE_HEADER: &'static str = "\u{2561}";

/// Between two columns on a border between rows: ┼
pub const MIDDLE_BRACE: &'static str = "\u{253C}";

/// Between two columns on the border under a header: ╪
pub const MIDDLE_BRACE_HEADER: &'static str = "\u{256a}";

/// The left end of the top border: ┌
pub const TOP_LEFT_CORNER: &'static str = "\u{250c}";

/// The right end of the top border: ┐
pub const TOP_RIGHT_CORNER: &'static str = "\u{2510}";

/// The left end of the top border of a header: ╒
pub const TOP_LEFT_CORNER_HEADER: &'static str = "\u{2552}";

/// The right end of the top border of a header: ╕
pub const TOP_RIGHT_CORNER_HEADER: &'static str = "\u{2555}";

/// The right end of the bottom border: ┘
pub const BOTTOM_RIGHT_CORNER: &'static str = "\u{2518}";

/// The left end of the bottom border: └
pub const BOTTOM_LEFT_CORNER: &'static str = "\u{2514}";

/// What separates one line of the table from the next.
pub const NEWLINE: &'static str = "\n";

/// Each piece of the frame is a single character, and so is the line break.
pub proof fn lemma_glyphs_are_single()
    ensures
        VERTICAL@ == seq!['\u{2502}'],
        HORIZONTAL@ == seq!['\u{2500}'],
        HORIZONTAL_HEADER@ == seq!['\u{2550}'],
        TOP_BRACE@ == seq!['\u{252C}'],
        TOP_BRACE_HEADER@ == seq!['\u{2564}'],
        BOTTOM_BRACE@ == seq!['\u{2534}'],
        LEFT_BRACE@ == seq!['\u{251c}'],
        LEFT_BRACE_HEADER@ == seq!['\u{255e}'],
        RIGHT_BRACE@ == seq!['\u{2524}'],
        RIGHT_BRACE_HEADER@ == seq!['\u{2561}'],
        MIDDLE_BRACE@ == seq!['\u{253C}'],
        MIDDLE_BRACE_HEADER@ == seq!['\u{256a}'],
        TOP_LEFT_CORNER@ == seq!['\u{250c}'],
        TOP_RIGHT_CORNER@ == seq!['\u{2510}'],
        TOP_LEFT_CORNER_HEADER@ == seq!['\u{2552}'],
        TOP_RIGHT_CORNER_HEADER@ == seq!['\u{2555}'],
        BOTTOM_RIGHT_CORNER@ == seq!['\u{2518}'],
        BOTTOM_LEFT_CORNER@ == seq!['\u{2514}'],
        NEWLINE@ == seq!['\n'],
{
    reveal_strlit("\u{2502}");
    reveal_strlit("\u{2500}");
    reveal_strlit("\u{2550}");
    reveal_strlit("\u{252C}");
    reveal_strlit("\u{2564}");
    reveal_strlit("\u{2534}");
    reveal_strlit("\u{251c}");
    reveal_strlit("\u{255e}");
    reveal_strlit("\u{2524}");
    reveal_strlit("\u{2561}");
    reveal_strlit("\u{253C}");
    reveal_strlit("\u{256a}");
    reveal_strlit("\u{250c}");
    reveal_strlit("\u{2510}");
    reveal_strlit("\u{2552}");
    reveal_strlit("\u{2555}");
    reveal_strlit("\u{2518}");
    reveal_strlit("\u{2514}");
    reveal_strlit("\n");
    assert(VERTICAL@ =~= seq!['\u{2502}']);
    assert(HORIZONTAL@ =~= seq!['\u{2500}']);
    assert(HORIZONTAL_HEADER@ =~= seq!['\u{2550}']);
    assert(TOP_BRACE@ =~= seq!['\u{252C}']);
    assert(TOP_BRACE_HEADER@ =~= seq!['\u{2564}']);
    assert(BOTTOM_BRACE@ =~= seq!['\u{2534}']);
    assert(LEFT_BRACE@ =~= seq!['\u{251c}']);
    assert(LEFT_BRACE_HEADER@ =~= seq!['\u{255e}']);
    assert(RIGHT_BRACE@ =~= seq!['\u{2524}']);
    assert(RIGHT_BRACE_HEADER@ =~= seq!['\u{2561}']);
    assert(MIDDLE_BRACE@ =~= seq!['\u{253C}']);
    assert(MIDDLE_BRACE_HEADER@ =~= seq!['\u{256a}']);
    assert(TOP_LEFT_CORNER@ =~= seq!['\u{250c}']);
    assert(TOP_RIGHT_CORNER@ =~= seq!['\u{2510}']);
    assert(TOP_LEFT_CORNER_HEADER@ =~= seq!['\u{2552}']);
    assert(TOP_RIGHT_CORNER_HEADER@ =~= seq!['\u{2555}']);
    assert(BOTTOM_RIGHT_CORNER@ =~= seq!['\u{2518}']);
    assert(BOTTOM_LEFT_CORNER@ =~= seq!['\u{2514}']);
    assert(NEWLINE@ =~= seq!['\n']);
}

} // verus!
