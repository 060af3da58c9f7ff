//! The interactive control loop's state machine.  Each round the caller
//! rebuilds the context, shows the picker, and hands the picker's outcome
//! to `decide_next`; the returned decision says whether to dispatch a
//! switch, kill or start, flip the preview setting, report an unsupported
//! action, or stop.
use vstd::prelude::*;

use crate::strutil::str_eq;
use crate::ui::{FzfInterface, FzfResult, extract_name_v};

verus! {

/// Mathematical view of `LoopDecision`.
pub enum LoopDecisionV {
    Cancelled,
    KillAndRelist(Seq<char>),
    RenameUnsupported,
    StartAndRelist(Seq<char>),
    NewUnsupported,
    TogglePreviewAndRelist,
    Switch(Seq<char>),
}

/// What one loop iteration should do next.  `Switch` and `Cancelled` end
/// the loop; the relist decisions re-enter it after the action; the
/// unsupported decisions end it with an explicit unsupported-operation
/// report.
#[derive(Debug, Clone, PartialEq)]
pub enum LoopDecision {
    Cancelled,
    KillAndRelist { session: String },
    RenameUnsupported,
    StartAndRelist { session: String },
    NewUnsupported,
    TogglePreviewAndRelist,
    Switch { session: String },
}

impl View for LoopDecision {
    type V = LoopDecisionV;

    open spec fn view(&self) -> LoopDecisionV {
        match self {
            LoopDecision::Cancelled => LoopDecisionV::Cancelled,
            LoopDecision::KillAndRelist { session } => LoopDecisionV::KillAndRelist(session@),
            LoopDecision::RenameUnsupported => LoopDecisionV::RenameUnsupported,
            LoopDecision::StartAndRelist { session } => LoopDecisionV::StartAndRelist(session@),
            LoopDecision::NewUnsupported => LoopDecisionV::NewUnsupported,
            LoopDecision::TogglePreviewAndRelist => LoopDecisionV::TogglePreviewAndRelist,
            LoopDecision::Switch { session } => LoopDecisionV::Switch(session@),
        }
    }
}

/// The decision the picker outcome demands: no selection cancels; the
/// kill, start and toggle-preview keys act and relist; the rename and new
/// keys are explicitly unsupported; any other outcome switches to the
/// selected session.
pub open spec fn decide_v(key: Option<Seq<char>>, selection: Option<Seq<char>>) -> LoopDecisionV {
    match selection {
        None => LoopDecisionV::Cancelled,
        Some(sel) => {
            let name = extract_name_v(sel);
            match key {
                Some(k) => if k == "ctrl-x"@ {
                    LoopDecisionV::KillAndRelist(name)
                } else if k == "ctrl-r"@ {
                    LoopDecisionV::RenameUnsupported
                } else if k == "ctrl-s"@ {
                    LoopDecisionV::StartAndRelist(name)
                } else if k == "ctrl-n"@ {
                    LoopDecisionV::NewUnsupported
                } else if k == "ctrl-p"@ {
                    LoopDecisionV::TogglePreviewAndRelist
                } else {
                    LoopDecisionV::Switch(name)
                },
                None => LoopDecisionV::Switch(name),
            }
        },
    }
}

/// Decide what one loop iteration does with the picker's outcome.
pub fn decide_next(ui: &FzfInterface, result: &FzfResult) -> (r: LoopDecision)
    ensures
        r@ == decide_v(
            crate::strutil::opt_str_view(result.key),
            crate::strutil::opt_str_view(result.selection),
        ),
{
    match &result.selection {
        None => LoopDecision::Cancelled,
        Some(selection) => {
            let session_name = ui.extract_session_name(selection.as_str());
            match &result.key {
                Some(k) => {
                    if str_eq(k.as_str(), "ctrl-x") {
                        LoopDecision::KillAndRelist { session: session_name }
                    } else if str_eq(k.as_str(), "ctrl-r") {
                        LoopDecision::RenameUnsupported
                    } else if str_eq(k.as_str(), "ctrl-s") {
                        LoopDecision::StartAndRelist { session: session_name }
                    } else if str_eq(k.as_str(), "ctrl-n") {
                        LoopDecision::NewUnsupported
                    } else if str_eq(k.as_str(), "ctrl-p") {
                        LoopDecision::TogglePreviewAndRelist
                    } else {
                        LoopDecision::Switch { session: session_name }
                    }
                },
                None => LoopDecision::Switch { session: session_name },
            }
        },
    }
}

} // verus!
