//! Panels of the interface and the focus inside a form.

use vstd::prelude::*;

verus! {

/// A focusable panel; Tab cycles through them.
#[derive(Clone, Copy, Debug, PartialEq, Eq, Structural)]
pub enum Panel {
    OverallInfo,
    DeviceList,
    ConfigPreview,
}

impl Panel {
    /// The panel after this one in the Tab cycle.
    pub open spec fn spec_next(self) -> Panel {
        match self {
            Panel::OverallInfo => Panel::DeviceList,
            Panel::DeviceList => Panel::ConfigPreview,
            Panel::ConfigPreview => Panel::OverallInfo,
        }
    }

    /// The panel before this one in the Tab cycle.
    pub open spec fn spec_prev(self) -> Panel {
        match self {
            Panel::OverallInfo => Panel::ConfigPreview,
            Panel::DeviceList => Panel::OverallInfo,
            Panel::ConfigPreview => Panel::DeviceList,
        }
    }

    /// Cycles to the next focusable panel.
    pub fn next(self) -> (r: Panel)
        ensures
            r == self.spec_next(),
    {
        match self {
            Panel::OverallInfo => Panel::DeviceList,
            Panel::DeviceList => Panel::ConfigPreview,
            Panel::ConfigPreview => Panel::OverallInfo,
        }
    }

    /// Cycles to the previous focusable panel.
    pub fn prev(self) -> (r: Panel)
        ensures
            r == self.spec_prev(),
    {
        match self {
            Panel::OverallInfo => Panel::ConfigPreview,
            Panel::DeviceList => Panel::OverallInfo,
            Panel::ConfigPreview => Panel::DeviceList,
        }
    }
}

/// Going back undoes going forward and the other way round, and three steps in either
/// direction come back to the start.
pub proof fn law_panel_cycle(p: Panel)
    ensures
        p.spec_next().spec_prev() == p,
        p.spec_prev().spec_next() == p,
        p.spec_next().spec_next().spec_next() == p,
        p.spec_prev().spec_prev().spec_prev() == p,
        p.spec_next() != p,
{
}

/// Focus position within a form: a field (by index), the submit button or the cancel
/// button.
#[derive(Clone, Copy, Debug, PartialEq, Eq, Structural)]
pub enum FormFocus {
    Field(usize),
    Submit,
    Cancel,
}

} // verus!
