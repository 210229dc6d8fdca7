use vstd::prelude::*;
use crate::tab::{copy_opt, opt_view};
use crate::list_tabs::{WorkspaceState, WorkspaceTabView, workspace_tabs_view};

verus! {

/// A tab that the fuzzy finder can select.
#[derive(Clone, Debug)]
pub struct FuzzyTab {
    pub name: String,
    pub doc: Option<String>,
}

/// The tabs that the fuzzy finder matches against.
#[derive(Clone, Debug)]
pub struct FuzzyTabsState {
    pub tabs: Vec<FuzzyTab>,
}

/// The name of the tab that the user selected in the fuzzy finder.
#[derive(Clone, Debug)]
pub struct FuzzySelection(pub String);

/// A message from the fuzzy finder to the terminal.
#[derive(Clone, Debug)]
pub enum TerminalSend {
    FuzzySelection(String),
}

/// The fuzzy finder has finished.
#[derive(Clone, Copy, Debug, PartialEq, Eq, Structural)]
pub struct FuzzyShutdown {}

/// The terminal must shut down.
#[derive(Clone, Copy, Debug, PartialEq, Eq, Structural)]
pub struct TerminalShutdown {}

impl View for FuzzyTab {
    type V = WorkspaceTabView;

    open spec fn view(&self) -> WorkspaceTabView {
        WorkspaceTabView { name: self.name@, doc: opt_view(self.doc) }
    }
}

impl View for FuzzyTabsState {
    type V = Seq<WorkspaceTabView>;

    open spec fn view(&self) -> Seq<WorkspaceTabView> {
        self.tabs@.map_values(|t: FuzzyTab| t@)
    }
}

/// The message transformations of the carrier between the terminal bus and
/// the fuzzy-finder bus.
pub struct TerminalFuzzyCarrier {}

impl TerminalFuzzyCarrier {
    /// Terminal to fuzzy: the workspace view becomes the tabs to match, in
    /// order; an absent view stays absent.
    pub fn carry_workspace(msg: Option<WorkspaceState>) -> (r: Option<FuzzyTabsState>)
        ensures
            msg is None <==> r is None,
            r matches Some(s) ==> s@ == workspace_tabs_view(msg->Some_0.tabs@),
    {
        match msg {
            None => None,
            Some(ws) => {
                let mut tabs: Vec<FuzzyTab> = Vec::new();
                let mut i: usize = 0;
                while i < ws.tabs.len()
                    invariant
                        i <= ws.tabs@.len(),
                        tabs@.len() == i,
                        forall|k: int| 0 <= k < i ==> tabs@[k]@ == ws.tabs@[k]@,
                    decreases ws.tabs.len() - i,
                {
                    let t = &ws.tabs[i];
                    tabs.push(FuzzyTab { name: t.name.clone(), doc: copy_opt(&t.doc) });
                    i += 1;
                }
                let s = FuzzyTabsState { tabs };
                assert(s@ =~= workspace_tabs_view(ws.tabs@));
                Some(s)
            },
        }
    }

    /// Fuzzy to terminal: a selection is sent to the terminal with its name.
    pub fn carry_selection(msg: FuzzySelection) -> (r: TerminalSend)
        ensures
            r matches TerminalSend::FuzzySelection(name) && name@ == msg.0@,
    {
        TerminalSend::FuzzySelection(msg.0)
    }

    /// Fuzzy to terminal: the end of the fuzzy finder shuts the terminal down.
    pub fn carry_shutdown(msg: FuzzyShutdown) -> (r: TerminalShutdown)
        ensures
            r == (TerminalShutdown {}),
    {
        TerminalShutdown {}
    }
}

} // verus!
