use vstd::prelude::*;
use crate::geom::Position;
use crate::display_wrap::{
    DisplayWrapProjection, ProjectionView, display_to_buffer, logical_to_buffer, projection_fits, within,
};
use crate::display_wrap_text::{line_bounds, widths_fit};

verus! {

/// How many times the mouse was clicked in place.
#[derive(Clone, Copy, Debug, PartialEq, Eq, Structural)]
pub enum ClickKind {
    Single,
    Double,
    Triple,
}

/// What a press does to the selection of an unwrapped view.
#[derive(Clone, Copy, Debug, PartialEq, Eq, Structural)]
pub enum SelectionStart {
    /// Select from the first position to the second (a word, a command or a line).
    Bounds(Position, Position),
    /// Start a new selection at this row position.
    StartAt(Position),
    /// Leave the selection as it is.
    Unchanged,
}

/// What moving the mouse with the button held does to the selection of an unwrapped view.
#[derive(Clone, Copy, Debug, PartialEq, Eq, Structural)]
pub enum SelectionExtend {
    /// Grow the selection to take in the word (or line) from the first position to the second.
    AddWord(Position, Position),
    /// Move the selection's moving end to this row position.
    To(Position),
    /// Leave the selection as it is.
    Unchanged,
}

/// The word at display position `p`, in row positions, given the logical columns where the word
/// around that column of the logical line starts and ends; `None` when no logical line shows
/// there or there is no word.
pub open spec fn word_bounds(pv: ProjectionView, p: Position, word_columns: Option<(usize, usize)>) -> Option<(Position, Position)> {
    let line = p.line + pv.first_visible;
    if line < 0 || line >= pv.lines.len() {
        None
    } else {
        match word_columns {
            None => None,
            Some((a, b)) => Some((
                logical_to_buffer(pv, Position { line: line as isize, column: a }),
                logical_to_buffer(pv, Position { line: line as isize, column: b }),
            )),
        }
    }
}

/// A press at display position `p`: a double click selects the word there, a triple click the
/// shell command around the row position there or else the whole logical line, and a single
/// click starts a selection at the row position under the mouse; a double or triple click with
/// nothing to select leaves the selection alone.
pub open spec fn selection_start(
    pv: ProjectionView,
    click: ClickKind,
    p: Position,
    word_columns: Option<(usize, usize)>,
    command_around: Option<(Position, Position)>,
) -> SelectionStart {
    let bounds = match click {
        ClickKind::Double => word_bounds(pv, p, word_columns),
        ClickKind::Triple => match command_around {
            Some(c) => Some(c),
            None => line_bounds(pv, p),
        },
        ClickKind::Single => None,
    };
    match bounds {
        Some((s, e)) => SelectionStart::Bounds(s, e),
        None => if click == ClickKind::Single {
            SelectionStart::StartAt(display_to_buffer(pv, p))
        } else {
            SelectionStart::Unchanged
        },
    }
}

/// Dragging to display position `p`: after a double click the selection takes in the word
/// there, after a triple click the whole logical line there (both boundaries, since a line can
/// span several rows), else its moving end goes to the row position under the mouse.
pub open spec fn selection_extend(
    pv: ProjectionView,
    click: ClickKind,
    p: Position,
    word_columns: Option<(usize, usize)>,
) -> SelectionExtend {
    let bounds = match click {
        ClickKind::Double => word_bounds(pv, p, word_columns),
        ClickKind::Triple => line_bounds(pv, p),
        ClickKind::Single => None,
    };
    match click {
        ClickKind::Single => SelectionExtend::To(display_to_buffer(pv, p)),
        _ => match bounds {
            Some((s, e)) => SelectionExtend::AddWord(s, e),
            None => SelectionExtend::Unchanged,
        },
    }
}

/// The word columns a caller hands over lie within the limit.
pub open spec fn columns_fit(word_columns: Option<(usize, usize)>) -> bool {
    word_columns matches Some((a, b)) ==> within(Position { line: 0, column: a }, 2) && within(
        Position { line: 0, column: b },
        2,
    )
}

impl DisplayWrapProjection {
    /// The word at a display position, in row positions, given where the word around that
    /// column starts and ends in the logical line.
    pub fn word_at(&self, p: Position, word_columns: Option<(usize, usize)>) -> (r: Option<(Position, Position)>)
        requires
            projection_fits(self@),
            within(p, 4),
            columns_fit(word_columns),
        ensures
            r == word_bounds(self@, p, word_columns),
    {
        let line = p.line + self.first_visible as isize;
        if line < 0 || line as usize >= self.lines.len() {
            return None;
        }
        match word_columns {
            None => None,
            Some((a, b)) => Some((
                self.logical_to_buffer(Position { line, column: a }),
                self.logical_to_buffer(Position { line, column: b }),
            )),
        }
    }

    /// What a press at display position `p` does to the selection, as `selection_start` says;
    /// `command_around` is the shell command around the row position under the mouse, if any.
    pub fn unwrapped_selection_start(
        &self,
        click: ClickKind,
        p: Position,
        word_columns: Option<(usize, usize)>,
        command_around: Option<(Position, Position)>,
    ) -> (r: SelectionStart)
        requires
            projection_fits(self@),
            widths_fit(self@),
            within(p, 4),
            columns_fit(word_columns),
        ensures
            r == selection_start(self@, click, p, word_columns, command_around),
    {
        let bounds = match click {
            ClickKind::Double => self.word_at(p, word_columns),
            ClickKind::Triple => match command_around {
                Some(c) => Some(c),
                None => self.line_at(p),
            },
            ClickKind::Single => None,
        };
        match bounds {
            Some((s, e)) => SelectionStart::Bounds(s, e),
            None => match click {
                ClickKind::Single => SelectionStart::StartAt(self.display_to_buffer(p)),
                _ => SelectionStart::Unchanged,
            },
        }
    }

    /// What dragging to display position `p` does to the selection, as `selection_extend` says.
    pub fn unwrapped_selection_extend(
        &self,
        click: ClickKind,
        p: Position,
        word_columns: Option<(usize, usize)>,
    ) -> (r: SelectionExtend)
        requires
            projection_fits(self@),
            widths_fit(self@),
            within(p, 4),
            columns_fit(word_columns),
        ensures
            r == selection_extend(self@, click, p, word_columns),
    {
        match click {
            ClickKind::Single => SelectionExtend::To(self.display_to_buffer(p)),
            ClickKind::Double => match self.word_at(p, word_columns) {
                Some((s, e)) => SelectionExtend::AddWord(s, e),
                None => SelectionExtend::Unchanged,
            },
            ClickKind::Triple => match self.line_at(p) {
                Some((s, e)) => SelectionExtend::AddWord(s, e),
                None => SelectionExtend::Unchanged,
            },
        }
    }
}


/// What a press does, by the number of clicks: a triple click with a shell command around the
/// clicked row position selects exactly that command, whatever line shows there; without one
/// it selects the whole logical line shown there (from its start to past its end), or nothing
/// changes when none shows. A double click selects the word whose logical columns are given,
/// on the logical line shown there. A single click starts a selection at the row position
/// under the mouse, and a double or triple click never does.
pub proof fn law_clicks_select_commands_lines_and_words(
    pv: ProjectionView,
    p: Position,
    word_columns: Option<(usize, usize)>,
    command_around: Option<(Position, Position)>,
)
    ensures
        command_around matches Some(c) ==> selection_start(pv, ClickKind::Triple, p, word_columns, command_around)
            == SelectionStart::Bounds(c.0, c.1),
        command_around is None ==> selection_start(pv, ClickKind::Triple, p, word_columns, command_around) == match line_bounds(pv, p) {
            Some((s, e)) => SelectionStart::Bounds(s, e),
            None => SelectionStart::Unchanged,
        },
        ({
            let line = p.line + pv.first_visible;
            match word_columns {
                Some((a, b)) => 0 <= line < pv.lines.len() ==> selection_start(pv, ClickKind::Double, p, word_columns, command_around)
                    == SelectionStart::Bounds(
                        logical_to_buffer(pv, Position { line: line as isize, column: a }),
                        logical_to_buffer(pv, Position { line: line as isize, column: b }),
                    ),
                None => true,
            }
        }),
        selection_start(pv, ClickKind::Single, p, word_columns, command_around) == SelectionStart::StartAt(
            display_to_buffer(pv, p),
        ),
        selection_start(pv, ClickKind::Double, p, word_columns, command_around) !is StartAt,
        selection_start(pv, ClickKind::Triple, p, word_columns, command_around) !is StartAt,
{
}

/// What a drag does, by the number of clicks that started it: after a single click the moving
/// end goes to the row position under the mouse; after a triple click the selection takes in
/// the whole logical line shown there; after a double click the word whose logical columns are
/// given; nothing changes when no line shows there.
pub proof fn law_drags_extend_by_position_line_or_word(pv: ProjectionView, p: Position, word_columns: Option<(usize, usize)>)
    ensures
        selection_extend(pv, ClickKind::Single, p, word_columns) == SelectionExtend::To(display_to_buffer(pv, p)),
        selection_extend(pv, ClickKind::Triple, p, word_columns) == match line_bounds(pv, p) {
            Some((s, e)) => SelectionExtend::AddWord(s, e),
            None => SelectionExtend::Unchanged,
        },
        ({
            let line = p.line + pv.first_visible;
            &&& match word_columns {
                Some((a, b)) => 0 <= line < pv.lines.len() ==> selection_extend(pv, ClickKind::Double, p, word_columns)
                    == SelectionExtend::AddWord(
                        logical_to_buffer(pv, Position { line: line as isize, column: a }),
                        logical_to_buffer(pv, Position { line: line as isize, column: b }),
                    ),
                None => true,
            }
            &&& (word_columns is None || !(0 <= line < pv.lines.len()) ==> selection_extend(pv, ClickKind::Double, p, word_columns)
                == SelectionExtend::Unchanged)
        }),
{
}

} // verus!
