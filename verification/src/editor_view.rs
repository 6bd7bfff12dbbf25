//! Screen-side bookkeeping that needs no terminal: the cell of the cursor,
//! the scroll offsets of the window, and which lines the window shows.

use vstd::prelude::*;
use vstd::string::StringExecFns;
use crate::controller::util::{decimal_digits, decimal_string};
use crate::editor_state::EditorState;
use crate::view::layout::{align_left, align_right, left_aligned, right_aligned};

verus! {

/// The rows at the bottom of the screen that the info bar takes.
pub const INFO_BAR_HEIGHT: usize = 1;

/// The columns between the line numbers and the text.
pub const GUTTER_PAD: usize = 3;

/// A cell on the screen, counted from the top-left corner.
#[derive(Default, Debug, PartialEq)]
pub struct Coordinate {
    pub x: usize,
    pub y: usize,
}

impl Coordinate {
    /// One cell to the right.
    pub fn inc_x(&mut self)
        requires
            old(self).x < usize::MAX,
        ensures
            final(self).x == old(self).x + 1,
            final(self).y == old(self).y,
    {
        self.x += 1;
    }

    /// One cell down.
    pub fn inc_y(&mut self)
        requires
            old(self).y < usize::MAX,
        ensures
            final(self).x == old(self).x,
            final(self).y == old(self).y + 1,
    {
        self.y += 1;
    }

    /// One cell to the left.
    pub fn dec_x(&mut self)
        requires
            old(self).x > 0,
        ensures
            final(self).x == old(self).x - 1,
            final(self).y == old(self).y,
    {
        self.x -= 1;
    }

    /// One cell up.
    pub fn dec_y(&mut self)
        requires
            old(self).y > 0,
        ensures
            final(self).x == old(self).x,
            final(self).y == old(self).y - 1,
    {
        self.y -= 1;
    }

    /// To column `x` of the same row.
    pub fn set_x(&mut self, x: usize)
        ensures
            final(self).x == x,
            final(self).y == old(self).y,
    {
        self.x = x;
    }

    /// To row `y` of the same column.
    pub fn set_y(&mut self, y: usize)
        ensures
            final(self).x == old(self).x,
            final(self).y == y,
    {
        self.y = y;
    }

    /// The cell in words: `x `, the column, `, y ` and the row.
    pub open spec fn shown(self) -> Seq<char> {
        "x "@ + decimal_digits(self.x as nat) + ", y "@ + decimal_digits(self.y as nat)
    }

    /// The cell in words, for messages.
    pub fn description(&self) -> (text: String)
        ensures
            text@ == self.shown(),
    {
        let mut text = String::from_str("x ");
        text.append(decimal_string(self.x).as_str());
        text.append(", y ");
        text.append(decimal_string(self.y).as_str());
        text
    }
}

/// How many lines and columns of the document lie before the window.
#[derive(Default, Debug, PartialEq)]
pub struct EditorScroll {
    pub v_scroll: usize,
    pub h_scroll: usize,
}

impl EditorScroll {
    /// Shows one line further down.
    pub fn scroll_down(&mut self)
        requires
            old(self).v_scroll < usize::MAX,
        ensures
            final(self).v_scroll == old(self).v_scroll + 1,
            final(self).h_scroll == old(self).h_scroll,
    {
        self.v_scroll += 1;
    }

    /// Shows one line further up, unless the first line is showing.
    pub fn scroll_up(&mut self)
        ensures
            final(self).v_scroll == if old(self).v_scroll > 0 {
                old(self).v_scroll - 1
            } else {
                0
            },
            final(self).h_scroll == old(self).h_scroll,
    {
        if self.v_scroll > 0 {
            self.v_scroll -= 1;
        }
    }
}

/// The number of decimal digits it takes to write `n`.
pub open spec fn decimal_width(n: nat) -> nat
    decreases n,
{
    if n < 10 {
        1
    } else {
        decimal_width(n / 10) + 1
    }
}

/// A number is written with as many digits as its width says.
pub proof fn lemma_width_counts_digits(n: nat)
    ensures
        decimal_digits(n).len() == decimal_width(n),
    decreases n,
{
    if n >= 10 {
        lemma_width_counts_digits(n / 10);
    }
}

/// The number of decimal digits it takes to write `n`.
pub fn width_of_number(n: usize) -> (width: usize)
    ensures
        width == decimal_width(n as nat),
{
    let mut rest = n;
    let mut width: usize = 1;
    while rest >= 10
        invariant
            1 <= width,
            width + decimal_width(rest as nat) == decimal_width(n as nat) + 1,
            width + rest <= n + 1,
        decreases rest,
    {
        rest = rest / 10;
        width += 1;
    }
    width
}

/// What the window keeps of the screen: its size, where the cursor is drawn
/// and how far the document is scrolled.
#[derive(Debug)]
pub struct ViewState {
    pub cursor_coords: Coordinate,
    pub scroll: EditorScroll,
    pub screen_width: usize,
    pub screen_height: usize,
}

impl ViewState {
    /// A window on a screen of the given size, unscrolled, with the cursor
    /// in the corner.
    pub fn new(screen_width: usize, screen_height: usize) -> (view: ViewState)
        ensures
            view.cursor_coords == (Coordinate { x: 0, y: 0 }),
            view.scroll == (EditorScroll { v_scroll: 0, h_scroll: 0 }),
            view.screen_width == screen_width,
            view.screen_height == screen_height,
    {
        ViewState {
            cursor_coords: Coordinate { x: 0, y: 0 },
            scroll: EditorScroll { v_scroll: 0, h_scroll: 0 },
            screen_width,
            screen_height,
        }
    }

    /// Draws the cursor one cell further right, unless it is past the right
    /// edge.
    pub fn cursor_mv_right(&mut self, editor_state: &mut EditorState)
        ensures
            *final(editor_state) == *old(editor_state),
            *final(self) == (ViewState {
                cursor_coords: Coordinate {
                    x: if old(self).cursor_coords.x < old(self).screen_width {
                        (old(self).cursor_coords.x + 1) as usize
                    } else {
                        old(self).cursor_coords.x
                    },
                    y: old(self).cursor_coords.y,
                },
                ..*old(self)
            }),
    {
        if self.cursor_coords.x < self.screen_width {
            self.cursor_coords.inc_x();
        }
    }

    /// Draws the cursor one cell further left, unless it is at the left
    /// edge.
    pub fn cursor_mv_left(&mut self, editor_state: &mut EditorState)
        ensures
            *final(editor_state) == *old(editor_state),
            *final(self) == (ViewState {
                cursor_coords: Coordinate {
                    x: if old(self).cursor_coords.x > 0 {
                        (old(self).cursor_coords.x - 1) as usize
                    } else {
                        0
                    },
                    y: old(self).cursor_coords.y,
                },
                ..*old(self)
            }),
    {
        if self.cursor_coords.x > 0 {
            self.cursor_coords.dec_x();
        }
    }

    /// Scrolls one line up when the cursor is on the top row.
    pub fn cursor_mv_up(&mut self, editor_state: &mut EditorState)
        ensures
            *final(editor_state) == *old(editor_state),
            *final(self) == (ViewState {
                scroll: EditorScroll {
                    v_scroll: if old(self).cursor_coords.y == 0 && old(self).scroll.v_scroll > 0 {
                        (old(self).scroll.v_scroll - 1) as usize
                    } else {
                        old(self).scroll.v_scroll
                    },
                    h_scroll: old(self).scroll.h_scroll,
                },
                ..*old(self)
            }),
    {
        if self.cursor_coords.y == 0 {
            self.scroll.scroll_up();
        }
    }

    /// Scrolls one line down when the cursor is on the last row above the
    /// info bar, as long as the scroll offset can still be counted.
    pub fn cursor_mv_down(&mut self, editor_state: &mut EditorState)
        requires
            old(self).screen_height > INFO_BAR_HEIGHT,
        ensures
            *final(editor_state) == *old(editor_state),
            *final(self) == (ViewState {
                scroll: EditorScroll {
                    v_scroll: if old(self).cursor_coords.y == old(self).screen_height
                        - INFO_BAR_HEIGHT - 1 && old(self).scroll.v_scroll < usize::MAX {
                        (old(self).scroll.v_scroll + 1) as usize
                    } else {
                        old(self).scroll.v_scroll
                    },
                    h_scroll: old(self).scroll.h_scroll,
                },
                ..*old(self)
            }),
    {
        if self.cursor_coords.y == self.screen_height - INFO_BAR_HEIGHT - 1 && self.scroll.v_scroll
            < usize::MAX {
            self.scroll.scroll_down();
        }
    }

    /// Draws the cursor in column `cursor_x`, if the screen is that wide.
    pub fn set_cursor_x(&mut self, cursor_x: usize)
        ensures
            *final(self) == (ViewState {
                cursor_coords: Coordinate {
                    x: if cursor_x <= old(self).screen_width {
                        cursor_x
                    } else {
                        old(self).cursor_coords.x
                    },
                    y: old(self).cursor_coords.y,
                },
                ..*old(self)
            }),
    {
        if cursor_x <= self.screen_width {
            self.cursor_coords.set_x(cursor_x);
        }
    }

    /// Draws the cursor in the first column.
    pub fn cursor_origin_x(&mut self, editor_state: &mut EditorState)
        ensures
            *final(editor_state) == *old(editor_state),
            *final(self) == (ViewState {
                cursor_coords: Coordinate { x: 0, y: old(self).cursor_coords.y },
                ..*old(self)
            }),
    {
        self.cursor_coords.x = 0;
    }

    /// Puts the cursor on the cell of the window that shows the position of
    /// `latest_state`, and gives the width of the line-number gutter.
    pub fn place_cursor(&mut self, latest_state: &EditorState) -> (gutter_width: usize)
        requires
            latest_state.position.active_col > old(self).scroll.h_scroll,
            latest_state.position.active_line > old(self).scroll.v_scroll,
        ensures
            gutter_width == decimal_width(latest_state.content.lines@.len()),
            *final(self) == (ViewState {
                cursor_coords: Coordinate {
                    x: (latest_state.position.active_col - old(self).scroll.h_scroll - 1) as usize,
                    y: (latest_state.position.active_line - old(self).scroll.v_scroll
                        - 1) as usize,
                },
                ..*old(self)
            }),
    {
        let gutter_width = width_of_number(latest_state.content.lines.len());
        self.cursor_coords.x = latest_state.position.active_col - self.scroll.h_scroll - 1;
        self.cursor_coords.y = latest_state.position.active_line - self.scroll.v_scroll - 1;
        gutter_width
    }

    /// The lines that the window shows of a document of `line_count` lines:
    /// from the first index up to, not including, the second.
    pub fn visible_lines(&self, line_count: usize) -> (range: (usize, usize))
        requires
            self.screen_height >= INFO_BAR_HEIGHT,
        ensures
            range.0 == self.scroll.v_scroll,
            range.1 == if self.scroll.v_scroll >= line_count {
                self.scroll.v_scroll as int
            } else if self.scroll.v_scroll + (self.screen_height - INFO_BAR_HEIGHT)
                <= line_count {
                self.scroll.v_scroll + (self.screen_height - INFO_BAR_HEIGHT)
            } else {
                line_count as int
            },
    {
        let first = self.scroll.v_scroll;
        let rows = self.screen_height - INFO_BAR_HEIGHT;
        if first >= line_count {
            (first, first)
        } else if rows <= line_count - first {
            (first, first + rows)
        } else {
            (first, line_count)
        }
    }
}

/// The gutter before line `line_number` in a gutter of `gutter_width`
/// columns: a space, the number at the right end of the gutter, and two
/// spaces.
pub open spec fn numbered_gutter(line_number: nat, gutter_width: nat) -> Seq<char> {
    seq![' '] + right_aligned(decimal_digits(line_number), gutter_width) + seq![' ', ' ']
}

/// The gutter before line `line_number` in a gutter of `gutter_width`
/// columns.
pub fn gutter_for_line(line_number: usize, gutter_width: usize) -> (text: String)
    ensures
        text@ == numbered_gutter(line_number as nat, gutter_width as nat),
{
    let mut text = String::from_str(" ");
    text.append(align_right(decimal_string(line_number).as_str(), gutter_width).as_str());
    text.append("  ");
    proof {
        reveal_strlit(" ");
        reveal_strlit("  ");
        assert(" "@ =~= seq![' ']);
        assert("  "@ =~= seq![' ', ' ']);
    }
    text
}

/// The left half of the info bar: the file being edited.
pub open spec fn info_left(state: &EditorState) -> Seq<char> {
    " Editing "@ + state.filename@
}

/// The right half of the info bar: where the cursor stands, how many lines
/// there are, and how far the window is scrolled.
pub open spec fn info_right(state: &EditorState, v_scroll: nat) -> Seq<char> {
    "Line "@ + decimal_digits(state.position.active_line as nat) + " out of "@ + decimal_digits(
        state.content.lines@.len(),
    ) + " lines. Column "@ + decimal_digits(state.position.active_col as nat) + ". Scroll "@
        + decimal_digits(v_scroll) + " "@
}

impl ViewState {
    /// The info bar: each half of the screen's width holds one half of the
    /// text, the left one at its left end and the right one at its right
    /// end.
    pub open spec fn info_bar_text(&self, state: &EditorState) -> Seq<char> {
        let half = (self.screen_width / 2) as nat;
        left_aligned(info_left(state), half) + right_aligned(
            info_right(state, self.scroll.v_scroll as nat),
            half,
        )
    }

    /// The info bar for the document `state`.
    pub fn info_bar(&self, state: &EditorState) -> (text: String)
        ensures
            text@ == self.info_bar_text(state),
    {
        let mut left = String::from_str(" Editing ");
        left.append(state.filename.as_str());
        let mut right = String::from_str("Line ");
        right.append(decimal_string(state.position.active_line).as_str());
        right.append(" out of ");
        right.append(decimal_string(state.content.lines.len()).as_str());
        right.append(" lines. Column ");
        right.append(decimal_string(state.position.active_col).as_str());
        right.append(". Scroll ");
        right.append(decimal_string(self.scroll.v_scroll).as_str());
        right.append(" ");
        let half = self.screen_width / 2;
        let mut text = align_left(left.as_str(), half);
        text.append(align_right(right.as_str(), half).as_str());
        text
    }
}

} // verus!
