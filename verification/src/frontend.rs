//! The decisions of the front end's main window: what it does with the messages
//! of the code view and with the events of the back end.

use vstd::prelude::*;

use crate::backend::{BackendEvent, SegmentChangedEvent};
use crate::code_view::{CodeViewMessage, OperandLocation};
use crate::ea::{EA, SegId};

verus! {

/// How far the view scrolls for one press of a scroll button, in pixels.
pub const SCROLL_STEP: i32 = 20;

/// Where, in pixels from the top of the view, an item jumped to is placed.
pub const JUMP_OFFSET: i32 = 80;

/// Something the front end notes about the user's actions.
#[derive(Debug, Clone, Copy, PartialEq, Eq, Structural)]
pub enum Report {
    HoverStarted { loc: OperandLocation },
    HoverEnded,
    Clicked { loc: OperandLocation, double: bool },
    FocusStarted { loc: OperandLocation },
    FocusEnded,
}

/// What the window does to the code view.
#[derive(Debug, Clone, Copy, PartialEq, Eq, Structural)]
pub enum FrontAction {
    Nothing,
    /// Show segment `seg` and put item `item` (an offset in it, as 32 bits) at
    /// `offset` pixels from the top of the view.
    ShowAndScrollTo { seg: SegId, item: u32, offset: i32 },
    SnapToTop,
    SnapToBottom,
    /// Scroll by `dy` pixels (negative: up).
    ScrollBy { dy: i32 },
}

/// The item number of an offset as carried by a scroll request: its low 32 bits
/// (an `as` cast to `u32`).
pub open spec fn scroll_item(offs: usize) -> u32 {
    offs as u32
}

/// The window's own state: the operand under the mouse or the text cursor.
#[derive(Debug, Clone, Copy, PartialEq, Eq, Structural)]
pub struct FrontState {
    pub cur_operand: Option<OperandLocation>,
}

/// The operand after an enter (`over`) or leave report for `loc`: entering makes
/// it current; leaving clears it only if it is the current one.
pub open spec fn operand_after(cur: Option<OperandLocation>, loc: OperandLocation, over: bool) -> Option<OperandLocation> {
    if over {
        Some(loc)
    } else if cur == Some(loc) {
        None
    } else {
        cur
    }
}

impl FrontState {
    pub fn new() -> (r: FrontState)
        ensures
            r.cur_operand is None,
    {
        FrontState { cur_operand: None }
    }

    /// Handles a message of the code view: operand messages update the current
    /// operand and are noted; the others move the view.
    pub fn handle_code_view_message(&mut self, cvm: CodeViewMessage) -> (r: (Option<Report>, FrontAction))
        ensures
            match cvm {
                CodeViewMessage::OperandHovered { loc, over } => {
                    &&& final(self).cur_operand == operand_after(old(self).cur_operand, loc, over)
                    &&& r.0 == if over {
                        Some(Report::HoverStarted { loc })
                    } else if old(self).cur_operand == Some(loc) {
                        Some(Report::HoverEnded)
                    } else {
                        None
                    }
                    &&& r.1 == FrontAction::Nothing
                },
                CodeViewMessage::OperandFocused { loc, over } => {
                    &&& final(self).cur_operand == operand_after(old(self).cur_operand, loc, over)
                    &&& r.0 == if over {
                        Some(Report::FocusStarted { loc })
                    } else if old(self).cur_operand == Some(loc) {
                        Some(Report::FocusEnded)
                    } else {
                        None
                    }
                    &&& r.1 == FrontAction::Nothing
                },
                CodeViewMessage::OperandClicked { loc, double } => {
                    &&& final(self).cur_operand == old(self).cur_operand
                    &&& r.0 == Some(Report::Clicked { loc, double })
                    &&& r.1 == FrontAction::Nothing
                },
                CodeViewMessage::JumpTo { ea } => {
                    &&& final(self).cur_operand == old(self).cur_operand
                    &&& r.0 is None
                    &&& r.1 == (FrontAction::ShowAndScrollTo { seg: ea.seg, item: scroll_item(ea.offs), offset: JUMP_OFFSET })
                },
                CodeViewMessage::SwitchSegment { id } => {
                    &&& final(self).cur_operand == old(self).cur_operand
                    &&& r.0 is None
                    &&& r.1 == (FrontAction::ShowAndScrollTo { seg: id, item: 0, offset: 0 })
                },
                CodeViewMessage::JumpToTop => {
                    &&& final(self).cur_operand == old(self).cur_operand
                    &&& r.0 is None
                    &&& r.1 == FrontAction::SnapToTop
                },
                CodeViewMessage::JumpToBottom => {
                    &&& final(self).cur_operand == old(self).cur_operand
                    &&& r.0 is None
                    &&& r.1 == FrontAction::SnapToBottom
                },
                CodeViewMessage::Scroll { up } => {
                    &&& final(self).cur_operand == old(self).cur_operand
                    &&& r.0 is None
                    &&& r.1 == (FrontAction::ScrollBy { dy: (if up { -SCROLL_STEP } else { SCROLL_STEP as int }) as i32 })
                },
            },
    {
        match cvm {
            CodeViewMessage::OperandHovered { loc, over } => {
                if over {
                    self.cur_operand = Some(loc);
                    (Some(Report::HoverStarted { loc }), FrontAction::Nothing)
                } else if self.cur_operand == Some(loc) {
                    self.cur_operand = None;
                    (Some(Report::HoverEnded), FrontAction::Nothing)
                } else {
                    (None, FrontAction::Nothing)
                }
            },
            CodeViewMessage::OperandClicked { loc, double } => {
                (Some(Report::Clicked { loc, double }), FrontAction::Nothing)
            },
            CodeViewMessage::OperandFocused { loc, over } => {
                if over {
                    self.cur_operand = Some(loc);
                    (Some(Report::FocusStarted { loc }), FrontAction::Nothing)
                } else if self.cur_operand == Some(loc) {
                    self.cur_operand = None;
                    (Some(Report::FocusEnded), FrontAction::Nothing)
                } else {
                    (None, FrontAction::Nothing)
                }
            },
            CodeViewMessage::JumpTo { ea } => {
                let item = #[verifier::truncate] (ea.offs() as u32);
                (None, FrontAction::ShowAndScrollTo { seg: ea.seg(), item, offset: JUMP_OFFSET })
            },
            CodeViewMessage::SwitchSegment { id } => {
                (None, FrontAction::ShowAndScrollTo { seg: id, item: 0, offset: 0 })
            },
            CodeViewMessage::JumpToTop => (None, FrontAction::SnapToTop),
            CodeViewMessage::JumpToBottom => (None, FrontAction::SnapToBottom),
            CodeViewMessage::Scroll { up } => {
                let dy = if up {
                    -SCROLL_STEP
                } else {
                    SCROLL_STEP
                };
                (None, FrontAction::ScrollBy { dy })
            },
        }
    }
}

/// What the window does with an event of the back end.
#[derive(Debug, Clone, Copy, PartialEq, Eq, Structural)]
pub enum EventAction {
    /// Hand the span change to the code pane.
    DispatchToCodePane { ea: EA, ev: SegmentChangedEvent },
    /// Note that automatic analysis started or ended.
    AnalysisStatus { running: bool },
    Nothing,
}

/// The action for an event of the back end.
pub fn event_action(event: BackendEvent) -> (r: EventAction)
    ensures
        r == match event {
            BackendEvent::SegmentChanged { ea, ev } => EventAction::DispatchToCodePane { ea, ev },
            BackendEvent::AutoAnalysisStatus { running } => EventAction::AnalysisStatus { running },
            BackendEvent::ImageLoaded { .. } => EventAction::Nothing,
        },
{
    match event {
        BackendEvent::SegmentChanged { ea, ev } => EventAction::DispatchToCodePane { ea, ev },
        BackendEvent::AutoAnalysisStatus { running } => EventAction::AnalysisStatus { running },
        BackendEvent::ImageLoaded { .. } => EventAction::Nothing,
    }
}

/// Law: an operand that the mouse (or the text cursor) enters and then leaves is
/// no longer current, and leaving an operand that is not current changes nothing.
pub proof fn lemma_enter_then_leave(cur: Option<OperandLocation>, loc: OperandLocation, other: OperandLocation)
    ensures
        operand_after(operand_after(cur, loc, true), loc, false) is None,
        other != loc ==> operand_after(operand_after(cur, loc, true), other, false) == Some(loc),
{
}


/// Law: a jump to an offset that fits in 32 bits reaches the item at that offset:
/// the item carried by the scroll request reads back as the offset.
pub proof fn lemma_jump_reaches_offset(offs: usize)
    requires
        offs <= u32::MAX,
    ensures
        scroll_item(offs) as usize == offs,
{
}

} // verus!
