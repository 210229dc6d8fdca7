use vstd::prelude::*;
use vstd::string::*;
use crate::tab::opt_view;

verus! {

/// A tab as the client-side workspace view lists it.
#[derive(Clone, Debug)]
pub struct WorkspaceTab {
    pub name: String,
    pub doc: Option<String>,
}

/// The client-aggregated view: live tabs and the errors recorded at startup.
#[derive(Clone, Debug)]
pub struct WorkspaceState {
    pub tabs: Vec<WorkspaceTab>,
    pub errors: Vec<String>,
}

pub struct WorkspaceTabView {
    pub name: Seq<char>,
    pub doc: Option<Seq<char>>,
}

impl View for WorkspaceTab {
    type V = WorkspaceTabView;

    open spec fn view(&self) -> WorkspaceTabView {
        WorkspaceTabView { name: self.name@, doc: opt_view(self.doc) }
    }
}

pub open spec fn workspace_tabs_view(v: Seq<WorkspaceTab>) -> Seq<WorkspaceTabView> {
    v.map_values(|t: WorkspaceTab| t@)
}

pub open spec fn strings_view(v: Seq<String>) -> Seq<Seq<char>> {
    v.map_values(|s: String| s@)
}

/// Length of the longest name.
pub open spec fn max_name_len(tabs: Seq<WorkspaceTabView>) -> nat
    decreases tabs.len(),
{
    if tabs.len() == 0 {
        0
    } else {
        let m = max_name_len(tabs.drop_last());
        if tabs.last().name.len() > m {
            tabs.last().name.len()
        } else {
            m
        }
    }
}

pub open spec fn spaces(n: nat) -> Seq<char> {
    Seq::new(n, |i: int| ' ')
}

/// One line of the listing: the name indented by four spaces and, where the
/// tab has a doc, the doc in parentheses at column `width + 4` after the indent.
pub open spec fn tab_line(t: WorkspaceTabView, width: nat) -> Seq<char> {
    match t.doc {
        Some(d) => "    "@ + t.name + spaces((width - t.name.len() + 4) as nat) + "("@ + d + ")"@,
        None => "    "@ + t.name,
    }
}

/// The listing of the live tabs.
pub open spec fn listing(tabs: Seq<WorkspaceTabView>) -> Seq<Seq<char>> {
    if tabs.len() == 0 {
        seq!["No active tabs."@]
    } else {
        seq!["Available tabs:"@] + Seq::new(tabs.len(), |i: int| tab_line(tabs[i], max_name_len(tabs)))
    }
}

/// The notice printed before the listing when startup recorded errors.
pub open spec fn startup_notice(errors: nat) -> Seq<Seq<char>> {
    if errors > 0 {
        seq!["Workspace errors were found during startup.  Use `tab --check` for more details."@, ""@]
    } else {
        Seq::empty()
    }
}

/// What a list command writes: the startup notice, on the error stream, and
/// the listing, on the output stream.
#[derive(Debug)]
pub struct ListOutput {
    pub notice: Vec<String>,
    pub listing: Vec<String>,
}

/// Handles a list command once the workspace view is known.
pub struct MainListTabsService {}

impl MainListTabsService {
    /// The lines that list `tabs`, names left-aligned and docs aligned to a
    /// common column.
    pub fn echo_tabs(tabs: &Vec<WorkspaceTab>) -> (r: Vec<String>)
        ensures
            strings_view(r@) == listing(workspace_tabs_view(tabs@)),
    {
        let ghost tv = workspace_tabs_view(tabs@);
        let mut lines: Vec<String> = Vec::new();
        if tabs.len() == 0 {
            lines.push(String::from_str("No active tabs."));
            assert(strings_view(lines@) =~= listing(tv));
            return lines;
        }
        let mut width: usize = 0;
        let mut i: usize = 0;
        while i < tabs.len()
            invariant
                i <= tabs@.len(),
                tv == workspace_tabs_view(tabs@),
                width == max_name_len(tv.subrange(0, i as int)),
            decreases tabs.len() - i,
        {
            assert(tv.subrange(0, i + 1).drop_last() =~= tv.subrange(0, i as int));
            let len = tabs[i].name.as_str().unicode_len();
            if len > width {
                width = len;
            }
            i += 1;
        }
        assert(tv.subrange(0, tabs@.len() as int) =~= tv);
        proof {
            lemma_max_name_len(tv);
        }
        lines.push(String::from_str("Available tabs:"));
        let mut k: usize = 0;
        while k < tabs.len()
            invariant
                k <= tabs@.len(),
                tv == workspace_tabs_view(tabs@),
                width == max_name_len(tv),
                forall|j: int| 0 <= j < tv.len() ==> tv[j].name.len() <= max_name_len(tv),
                lines@.len() == k + 1,
                strings_view(lines@) == listing(tv).subrange(0, k as int + 1),
            decreases tabs.len() - k,
        {
            assert(tv[k as int] == tabs@[k as int]@);
            let line = Self::tab_line(&tabs[k], width);
            let ghost before = lines@;
            lines.push(line);
            assert(strings_view(lines@) =~= listing(tv).subrange(0, k as int + 2)) by {
                assert(strings_view(lines@) =~= strings_view(before).push(lines@.last()@));
            }
            k += 1;
        }
        assert(listing(tv).subrange(0, tabs@.len() as int + 1) =~= listing(tv));
        lines
    }

    fn tab_line(tab: &WorkspaceTab, width: usize) -> (r: String)
        requires
            tab@.name.len() <= width,
        ensures
            r@ == tab_line(tab@, width as nat),
    {
        let mut line = String::from_str("    ");
        line.append(tab.name.as_str());
        match &tab.doc {
            Some(doc) => {
                let pad = width - tab.name.as_str().unicode_len();
                let mut j: usize = 0;
                while j < pad
                    invariant
                        j <= pad,
                        line@ == "    "@ + tab@.name + spaces(j as nat),
                    decreases pad - j,
                {
                    line.append(" ");
                    proof {
                        reveal_strlit(" ");
                    }
                    assert(spaces(j as nat + 1) =~= spaces(j as nat) + " "@);
                    j += 1;
                }
                line.append("    ");
                proof {
                    reveal_strlit("    ");
                    assert(spaces(pad as nat) + "    "@ =~= spaces((width - tab@.name.len() + 4) as nat));
                }
                line.append("(");
                line.append(doc.as_str());
                line.append(")");
            },
            None => {},
        }
        line
    }

    /// The startup notice and the listing for a workspace view.
    pub fn list_output(workspace: &WorkspaceState) -> (r: ListOutput)
        ensures
            strings_view(r.notice@) == startup_notice(workspace.errors@.len()),
            strings_view(r.listing@) == listing(workspace_tabs_view(workspace.tabs@)),
    {
        let mut notice: Vec<String> = Vec::new();
        if workspace.errors.len() > 0 {
            notice.push(
                String::from_str("Workspace errors were found during startup.  Use `tab --check` for more details."),
            );
            notice.push(String::from_str(""));
        }
        assert(strings_view(notice@) =~= startup_notice(workspace.errors@.len()));
        ListOutput { notice, listing: Self::echo_tabs(&workspace.tabs) }
    }
}

/// Every name is at most as long as the longest one.
proof fn lemma_max_name_len(tabs: Seq<WorkspaceTabView>)
    ensures
        forall|j: int| 0 <= j < tabs.len() ==> tabs[j].name.len() <= max_name_len(tabs),
    decreases tabs.len(),
{
    if tabs.len() > 0 {
        lemma_max_name_len(tabs.drop_last());
        assert forall|j: int| 0 <= j < tabs.len() implies tabs[j].name.len() <= max_name_len(tabs) by {
            if j < tabs.len() - 1 {
                assert(tabs[j] == tabs.drop_last()[j]);
            }
        }
    }
}

} // verus!
