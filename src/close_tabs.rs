use vstd::prelude::*;
use crate::tab::{normalize, normalize_name, TabId, TabMetadata, TabView};
use crate::registry::tabs_view;

verus! {

/// A request from a client to the daemon that this library issues.
#[derive(Clone, Copy, Debug, PartialEq, Eq, Structural)]
pub enum Request {
    CloseTab(TabId),
    DisconnectTab(TabId),
}

/// The tab that the calling terminal runs in, as its environment tells.
#[derive(Clone, Debug)]
pub struct CurrentTab {
    pub id: TabId,
    pub name: String,
}

/// What a close command tells its user, one line each.
#[derive(Clone, Debug)]
pub enum CloseReport {
    /// "Closing current tab: {name}"
    ClosingCurrent(String),
    /// "No arguments or current tab was detected."
    NoTarget,
    /// "Tab not running: {name}"
    NotRunning(String),
    /// "Closing tab: {name}"
    Closing(String),
}

pub enum ReportView {
    ClosingCurrent(Seq<char>),
    NoTarget,
    NotRunning(Seq<char>),
    Closing(Seq<char>),
}

impl View for CloseReport {
    type V = ReportView;

    open spec fn view(&self) -> ReportView {
        match self {
            CloseReport::ClosingCurrent(s) => ReportView::ClosingCurrent(s@),
            CloseReport::NoTarget => ReportView::NoTarget,
            CloseReport::NotRunning(s) => ReportView::NotRunning(s@),
            CloseReport::Closing(s) => ReportView::Closing(s@),
        }
    }
}

/// The requests to send and the lines to report, in order.
#[derive(Clone, Debug)]
pub struct ClosePlan {
    pub requests: Vec<Request>,
    pub reports: Vec<CloseReport>,
}

/// The replicated set of live tabs, as a client sees it.
#[derive(Clone, Debug)]
pub struct ActiveTabsState {
    pub tabs: Vec<TabMetadata>,
}


/// Id of the first tab whose normalized name is that of `name`.
pub open spec fn find_name_spec(tabs: Seq<TabView>, name: Seq<char>) -> Option<u64>
    decreases tabs.len(),
{
    if tabs.len() == 0 {
        None
    } else if normalize(tabs[0].name) == normalize(name) {
        Some(tabs[0].id)
    } else {
        find_name_spec(tabs.drop_first(), name)
    }
}

impl View for ActiveTabsState {
    type V = Seq<TabView>;

    open spec fn view(&self) -> Seq<TabView> {
        tabs_view(self.tabs@)
    }
}

impl ActiveTabsState {
    /// Id of the first live tab whose normalized name is that of `name`.
    pub fn find_name(&self, name: &String) -> (r: Option<TabId>)
        ensures
            r matches Some(id) ==> find_name_spec(self@, name@) == Some(id.0),
            r is None ==> find_name_spec(self@, name@) is None,
    {
        let target = normalize_name(name.as_str());
        let mut i: usize = 0;
        assert(self@.subrange(0, self@.len() as int) =~= self@);
        while i < self.tabs.len()
            invariant
                i <= self.tabs.len(),
                target@ == normalize(name@),
                find_name_spec(self@, name@) == find_name_spec(self@.subrange(i as int, self@.len() as int), name@),
            decreases self.tabs.len() - i,
        {
            let ghost rest = self@.subrange(i as int, self@.len() as int);
            assert(rest.drop_first() =~= self@.subrange(i + 1, self@.len() as int));
            assert(rest[0] == self@[i as int]);
            if normalize_name(self.tabs[i].name.as_str()) == target {
                return Some(self.tabs[i].id);
            }
            i += 1;
        }
        None
    }
}

pub open spec fn names_view(v: Seq<String>) -> Seq<Seq<char>> {
    v.map_values(|s: String| s@)
}

/// Requests for closing each named tab that is live, in order.
pub open spec fn close_requests(names: Seq<Seq<char>>, tabs: Seq<TabView>) -> Seq<Request>
    decreases names.len(),
{
    if names.len() == 0 {
        Seq::empty()
    } else {
        close_requests(names.drop_last(), tabs) + match find_name_spec(tabs, normalize(names.last())) {
            Some(id) => seq![Request::DisconnectTab(TabId(id))],
            None => Seq::empty(),
        }
    }
}

/// One report per named tab: closing it, or that it is not running.
pub open spec fn close_reports(names: Seq<Seq<char>>, tabs: Seq<TabView>) -> Seq<ReportView>
    decreases names.len(),
{
    if names.len() == 0 {
        Seq::empty()
    } else {
        let n = normalize(names.last());
        close_reports(names.drop_last(), tabs) + match find_name_spec(tabs, n) {
            Some(_) => seq![ReportView::Closing(n)],
            None => seq![ReportView::NotRunning(n)],
        }
    }
}

pub open spec fn reports_view(v: Seq<CloseReport>) -> Seq<ReportView> {
    v.map_values(|r: CloseReport| r@)
}

/// Handles a close command once the live tabs are known.
pub struct MainCloseTabsService {}

impl MainCloseTabsService {
    /// With no names, closes the current tab if there is one; otherwise closes
    /// each named live tab and reports the names that are not running.
    pub fn close_tabs(tabs: Vec<String>, state: &ActiveTabsState, current: Option<CurrentTab>) -> (r: ClosePlan)
        ensures
            tabs@.len() == 0 ==> match current {
                Some(c) => r.requests@ == seq![Request::DisconnectTab(c.id)]
                    && reports_view(r.reports@) == seq![ReportView::ClosingCurrent(c.name@)],
                None => r.requests@.len() == 0 && reports_view(r.reports@) == seq![ReportView::NoTarget],
            },
            tabs@.len() > 0 ==> r.requests@ == close_requests(names_view(tabs@), state@)
                && reports_view(r.reports@) == close_reports(names_view(tabs@), state@),
    {
        let mut requests: Vec<Request> = Vec::new();
        let mut reports: Vec<CloseReport> = Vec::new();
        if tabs.len() == 0 {
            match current {
                Some(c) => {
                    requests.push(Request::DisconnectTab(c.id));
                    reports.push(CloseReport::ClosingCurrent(c.name));
                },
                None => {
                    reports.push(CloseReport::NoTarget);
                },
            }
            assert(reports_view(reports@) =~= seq![reports@[0]@]);
            return ClosePlan { requests, reports };
        }
        let ghost names = names_view(tabs@);
        let mut i: usize = 0;
        while i < tabs.len()
            invariant
                i <= tabs@.len(),
                names == names_view(tabs@),
                requests@ == close_requests(names.subrange(0, i as int), state@),
                reports_view(reports@) == close_reports(names.subrange(0, i as int), state@),
            decreases tabs.len() - i,
        {
            let ghost prefix = names.subrange(0, i as int + 1);
            assert(prefix.drop_last() =~= names.subrange(0, i as int));
            assert(prefix.last() == tabs@[i as int]@);
            let name = normalize_name(tabs[i].as_str());
            let ghost old_reports = reports@;
            match state.find_name(&name) {
                Some(id) => {
                    requests.push(Request::DisconnectTab(id));
                    reports.push(CloseReport::Closing(name));
                },
                None => {
                    reports.push(CloseReport::NotRunning(name));
                },
            }
            assert(reports_view(reports@) =~= reports_view(old_reports) + seq![reports@.last()@]);
            i += 1;
        }
        assert(names.subrange(0, tabs@.len() as int) =~= names);
        ClosePlan { requests, reports }
    }
}

} // verus!
