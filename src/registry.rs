use vstd::prelude::*;
use crate::tab::{normalize, normalize_name, CreateTabMetadata, CreateView, TabId, TabMetadata, TabView};

verus! {

/// A mutation request for the registry.
#[derive(Clone, Debug)]
pub enum TabManagerRecv {
    CreateTab(CreateTabMetadata),
    UpdateTimestamp(TabId),
    CloseTab(TabId),
}

/// An immutable snapshot of every live tab, ordered by id.
#[derive(Clone, Debug)]
pub struct TabsState {
    pub tabs: Vec<TabMetadata>,
}

/// What the registry publishes while it processes a request, in order.
#[derive(Clone, Debug)]
pub enum TabManagerSend {
    /// Offer of a new tab to the pty workers.
    AssignTab(TabMetadata),
    /// Broadcast: a tab's metadata changed.
    Updated(TabMetadata),
    /// Broadcast: a tab stopped.
    Stopped(TabId),
    /// Queue: the pty worker of a tab must terminate.
    Terminate(TabId),
    /// The new latest value of the tab snapshot.
    TabsState(TabsState),
}

pub enum RecvView {
    CreateTab(CreateView),
    UpdateTimestamp(u64),
    CloseTab(u64),
}

pub enum SendView {
    AssignTab(TabView),
    Updated(TabView),
    Stopped(u64),
    Terminate(u64),
    TabsState(Seq<TabView>),
}

/// Mathematical model of the registry: the live tabs in id order, and the
/// next id to allocate.
pub struct RegistryView {
    pub tabs: Seq<TabView>,
    pub next_id: u64,
}

pub open spec fn tabs_view(v: Seq<TabMetadata>) -> Seq<TabView> {
    v.map_values(|t: TabMetadata| t@)
}

impl View for TabsState {
    type V = Seq<TabView>;

    open spec fn view(&self) -> Seq<TabView> {
        tabs_view(self.tabs@)
    }
}

impl View for TabManagerRecv {
    type V = RecvView;

    open spec fn view(&self) -> RecvView {
        match self {
            TabManagerRecv::CreateTab(c) => RecvView::CreateTab(c@),
            TabManagerRecv::UpdateTimestamp(id) => RecvView::UpdateTimestamp(id.0),
            TabManagerRecv::CloseTab(id) => RecvView::CloseTab(id.0),
        }
    }
}

impl View for TabManagerSend {
    type V = SendView;

    open spec fn view(&self) -> SendView {
        match self {
            TabManagerSend::AssignTab(t) => SendView::AssignTab(t@),
            TabManagerSend::Updated(t) => SendView::Updated(t@),
            TabManagerSend::Stopped(id) => SendView::Stopped(id.0),
            TabManagerSend::Terminate(id) => SendView::Terminate(id.0),
            TabManagerSend::TabsState(s) => SendView::TabsState(s@),
        }
    }
}

pub open spec fn sends_view(v: Seq<TabManagerSend>) -> Seq<SendView> {
    v.map_values(|s: TabManagerSend| s@)
}

pub open spec fn has_id(tabs: Seq<TabView>, id: u64) -> bool {
    exists|i: int| 0 <= i < tabs.len() && tabs[i].id == id
}

pub open spec fn index_of_id(tabs: Seq<TabView>, id: u64) -> int {
    choose|i: int| 0 <= i < tabs.len() && tabs[i].id == id
}

/// Whether a live tab's name equals `name` once both are normalized.
pub open spec fn has_name(tabs: Seq<TabView>, name: Seq<char>) -> bool {
    exists|i: int| 0 <= i < tabs.len() && normalize(tabs[i].name) == normalize(name)
}

/// Ids strictly increase along the snapshot and stay below the counter;
/// the normalized names of live tabs are pairwise distinct.
pub open spec fn registry_wf(v: RegistryView) -> bool {
    &&& forall|i: int, j: int| 0 <= i < j < v.tabs.len() ==> v.tabs[i].id < v.tabs[j].id
    &&& forall|i: int| 0 <= i < v.tabs.len() ==> v.tabs[i].id < v.next_id
    &&& forall|i: int, j: int|
        0 <= i < v.tabs.len() && 0 <= j < v.tabs.len() && i != j ==> normalize(v.tabs[i].name) != normalize(
            v.tabs[j].name,
        )
}

/// CreateTab: ignored when a live tab has the same normalized name, or when
/// every id has been handed out; otherwise the tab gets the next id, is
/// offered for assignment, and a new snapshot is published.
pub open spec fn create_spec(v: RegistryView, c: CreateView, now: u64) -> (RegistryView, Seq<SendView>) {
    if has_name(v.tabs, c.name) || v.next_id == u64::MAX {
        (v, Seq::empty())
    } else {
        let t = TabView { id: v.next_id, name: c.name, doc: c.doc, selected: now };
        let tabs = v.tabs.push(t);
        (
            RegistryView { tabs, next_id: (v.next_id + 1) as u64 },
            seq![SendView::AssignTab(t), SendView::TabsState(tabs)],
        )
    }
}

/// UpdateTimestamp: marks a live tab selected at `now` and broadcasts it; no
/// snapshot is published. An absent id is a no-op.
pub open spec fn update_spec(v: RegistryView, id: u64, now: u64) -> (RegistryView, Seq<SendView>) {
    if has_id(v.tabs, id) {
        let i = index_of_id(v.tabs, id);
        let t = TabView { selected: now, ..v.tabs[i] };
        (RegistryView { tabs: v.tabs.update(i, t), ..v }, seq![SendView::Updated(t)])
    } else {
        (v, Seq::empty())
    }
}

/// CloseTab: removes a live tab, then broadcasts Stopped, tells its worker to
/// terminate and publishes the new snapshot. An absent id is a no-op.
pub open spec fn close_spec(v: RegistryView, id: u64) -> (RegistryView, Seq<SendView>) {
    if has_id(v.tabs, id) {
        let tabs = v.tabs.remove(index_of_id(v.tabs, id));
        (
            RegistryView { tabs, ..v },
            seq![SendView::Stopped(id), SendView::Terminate(id), SendView::TabsState(tabs)],
        )
    } else {
        (v, Seq::empty())
    }
}

pub open spec fn step_spec(v: RegistryView, r: RecvView, now: u64) -> (RegistryView, Seq<SendView>) {
    match r {
        RecvView::CreateTab(c) => create_spec(v, c, now),
        RecvView::UpdateTimestamp(id) => update_spec(v, id, now),
        RecvView::CloseTab(id) => close_spec(v, id),
    }
}

/// Removing one entry keeps the registry well formed.
proof fn lemma_remove_wf(v: RegistryView, i: int)
    requires
        registry_wf(v),
        0 <= i < v.tabs.len(),
    ensures
        registry_wf(RegistryView { tabs: v.tabs.remove(i), ..v }),
{
    let tabs = v.tabs.remove(i);
    assert forall|a: int, b: int| 0 <= a < b < tabs.len() implies tabs[a].id < tabs[b].id by {
        let a2 = if a < i { a } else { a + 1 };
        let b2 = if b < i { b } else { b + 1 };
        assert(tabs[a] == v.tabs[a2]);
        assert(tabs[b] == v.tabs[b2]);
    }
    assert forall|a: int, b: int|
        0 <= a < tabs.len() && 0 <= b < tabs.len() && a != b implies normalize(tabs[a].name) != normalize(
            tabs[b].name,
        ) by {
        let a2 = if a < i { a } else { a + 1 };
        let b2 = if b < i { b } else { b + 1 };
        assert(tabs[a] == v.tabs[a2]);
        assert(tabs[b] == v.tabs[b2]);
    }
    assert forall|a: int| 0 <= a < tabs.len() implies tabs[a].id < v.next_id by {
        let a2 = if a < i { a } else { a + 1 };
        assert(tabs[a] == v.tabs[a2]);
    }
}

/// Live names stay pairwise distinct and ids stay ordered and below the
/// counter, whatever request is processed.
pub proof fn lemma_step_wf(v: RegistryView, r: RecvView, now: u64)
    requires
        registry_wf(v),
    ensures
        registry_wf(step_spec(v, r, now).0),
{
    match r {
        RecvView::CreateTab(c) => {
            if !has_name(v.tabs, c.name) && v.next_id < u64::MAX {
                let w = create_spec(v, c, now).0;
                assert forall|a: int, b: int|
                    0 <= a < w.tabs.len() && 0 <= b < w.tabs.len() && a != b implies
                    normalize(w.tabs[a].name) != normalize(w.tabs[b].name) by {
                    if a == v.tabs.len() {
                        assert(!(0 <= b < v.tabs.len() && normalize(v.tabs[b].name) == normalize(c.name)));
                    } else if b == v.tabs.len() {
                        assert(!(0 <= a < v.tabs.len() && normalize(v.tabs[a].name) == normalize(c.name)));
                    }
                }
            }
        },
        RecvView::UpdateTimestamp(id) => {
            if has_id(v.tabs, id) {
                let w = update_spec(v, id, now).0;
                let i = index_of_id(v.tabs, id);
                assert forall|a: int, b: int|
                    0 <= a < w.tabs.len() && 0 <= b < w.tabs.len() && a != b implies
                    normalize(w.tabs[a].name) != normalize(w.tabs[b].name) by {
                    assert(w.tabs[a].name == v.tabs[a].name);
                    assert(w.tabs[b].name == v.tabs[b].name);
                }
                assert forall|a: int, b: int| 0 <= a < b < w.tabs.len() implies w.tabs[a].id < w.tabs[b].id by {
                    assert(w.tabs[a].id == v.tabs[a].id);
                    assert(w.tabs[b].id == v.tabs[b].id);
                }
                assert forall|a: int| 0 <= a < w.tabs.len() implies w.tabs[a].id < w.next_id by {
                    assert(w.tabs[a].id == v.tabs[a].id);
                }
            }
        },
        RecvView::CloseTab(id) => {
            if has_id(v.tabs, id) {
                lemma_remove_wf(v, index_of_id(v.tabs, id));
            }
        },
    }
}

/// A create whose name is already live changes nothing, allocates no id and
/// publishes nothing.
pub proof fn lemma_duplicate_create_is_noop(v: RegistryView, c: CreateView, now: u64)
    requires
        has_name(v.tabs, c.name),
    ensures
        create_spec(v, c, now) == (v, Seq::<SendView>::empty()),
{
}

/// Ids are allocated from a counter that never decreases; an allocated id is
/// the counter's old value, is not live, and lies below the counter
/// afterwards, so no later allocation can repeat it.
pub proof fn lemma_fresh_ids(v: RegistryView, r: RecvView, now: u64)
    requires
        registry_wf(v),
    ensures
        step_spec(v, r, now).0.next_id >= v.next_id,
        forall|k: int|
            0 <= k < step_spec(v, r, now).1.len() && #[trigger] step_spec(v, r, now).1[k] is AssignTab ==> {
                let t = step_spec(v, r, now).1[k]->AssignTab_0;
                &&& t.id == v.next_id
                &&& !has_id(v.tabs, t.id)
                &&& t.id < step_spec(v, r, now).0.next_id
            },
{
}

/// Updating or closing an id that is not live never changes the registry and
/// publishes nothing.
pub proof fn lemma_absent_id_noop(v: RegistryView, id: u64, now: u64)
    requires
        !has_id(v.tabs, id),
    ensures
        update_spec(v, id, now) == (v, Seq::<SendView>::empty()),
        close_spec(v, id) == (v, Seq::<SendView>::empty()),
{
}

/// Whenever a tab leaves the registry, the same step first broadcasts its
/// Stopped event and then publishes a snapshot that omits it.
pub proof fn lemma_stopped_before_snapshot(v: RegistryView, r: RecvView, now: u64, id: u64)
    requires
        registry_wf(v),
        has_id(v.tabs, id),
        !has_id(step_spec(v, r, now).0.tabs, id),
    ensures
        exists|i: int, j: int|
            0 <= i < j < step_spec(v, r, now).1.len() && step_spec(v, r, now).1[i] == SendView::Stopped(id)
                && step_spec(v, r, now).1[j] == SendView::TabsState(step_spec(v, r, now).0.tabs),
{
    let k = choose|k: int| 0 <= k < v.tabs.len() && v.tabs[k].id == id;
    match r {
        RecvView::CreateTab(c) => {
            if !has_name(v.tabs, c.name) && v.next_id < u64::MAX {
                let w = create_spec(v, c, now).0;
                assert(w.tabs[k].id == id);
            }
        },
        RecvView::UpdateTimestamp(x) => {
            if has_id(v.tabs, x) {
                let w = update_spec(v, x, now).0;
                assert(w.tabs[k].id == id);
            }
        },
        RecvView::CloseTab(x) => {
            if has_id(v.tabs, x) {
                let i = index_of_id(v.tabs, x);
                let w = close_spec(v, x).0;
                if x != id {
                    if k < i {
                        assert(w.tabs[k].id == id);
                    } else {
                        assert(w.tabs[k - 1].id == id);
                    }
                }
                let e = close_spec(v, x).1;
                assert(e[0] == SendView::Stopped(id));
                assert(e[2] == SendView::TabsState(w.tabs));
            }
        },
    }
}

/// Create A, create B, close A: the last snapshot published holds the tabs
/// that were live before, followed by B alone.
pub proof fn lemma_create_create_close(v: RegistryView, a: CreateView, b: CreateView, t1: u64, t2: u64)
    requires
        registry_wf(v),
        v.next_id < u64::MAX - 1,
        !has_name(v.tabs, a.name),
        !has_name(v.tabs, b.name),
        normalize(a.name) != normalize(b.name),
    ensures
        ({
            let (v1, _e1) = create_spec(v, a, t1);
            let (v2, _e2) = create_spec(v1, b, t2);
            let (v3, e3) = close_spec(v2, v.next_id);
            let tb = TabView { id: (v.next_id + 1) as u64, name: b.name, doc: b.doc, selected: t2 };
            &&& v3.tabs == v.tabs.push(tb)
            &&& e3.last() == SendView::TabsState(v.tabs.push(tb))
        }),
{
    let (v1, _e1) = create_spec(v, a, t1);
    lemma_step_wf(v, RecvView::CreateTab(a), t1);
    assert(v1.tabs[v.tabs.len() as int].name == a.name);
    assert(!has_name(v1.tabs, b.name)) by {
        assert forall|i: int| 0 <= i < v1.tabs.len() implies normalize(v1.tabs[i].name) != normalize(b.name) by {
            if i < v.tabs.len() {
                assert(v1.tabs[i] == v.tabs[i]);
            }
        }
    }
    let (v2, _e2) = create_spec(v1, b, t2);
    lemma_step_wf(v1, RecvView::CreateTab(b), t2);
    let ia = v.tabs.len() as int;
    assert(v2.tabs[ia].id == v.next_id);
    assert(has_id(v2.tabs, v.next_id));
    let i = index_of_id(v2.tabs, v.next_id);
    if i < ia {
        assert(v2.tabs[i].id < v2.tabs[ia].id);
    } else if i > ia {
        assert(v2.tabs[ia].id < v2.tabs[i].id);
    }
    let tb = TabView { id: (v.next_id + 1) as u64, name: b.name, doc: b.doc, selected: t2 };
    assert(v2.tabs.remove(ia) =~= v.tabs.push(tb));
}

/// The registry after a sequence of requests, each with its time, and
/// everything published along the way, in order.
pub open spec fn run_spec(v: RegistryView, reqs: Seq<(RecvView, u64)>) -> (RegistryView, Seq<SendView>)
    decreases reqs.len(),
{
    if reqs.len() == 0 {
        (v, Seq::empty())
    } else {
        let (w, e) = run_spec(v, reqs.drop_last());
        let (x, f) = step_spec(w, reqs.last().0, reqs.last().1);
        (x, e + f)
    }
}

/// Every id that a published offer carries.
pub open spec fn offered_ids(e: Seq<SendView>) -> Seq<u64>
    decreases e.len(),
{
    if e.len() == 0 {
        Seq::empty()
    } else {
        offered_ids(e.drop_last()) + match e.last() {
            SendView::AssignTab(t) => seq![t.id],
            _ => Seq::empty(),
        }
    }
}

proof fn lemma_offered_ids_concat(a: Seq<SendView>, b: Seq<SendView>)
    ensures
        offered_ids(a + b) == offered_ids(a) + offered_ids(b),
    decreases b.len(),
{
    if b.len() == 0 {
        assert(a + b =~= a);
        assert(offered_ids(b) =~= Seq::<u64>::empty());
        assert(offered_ids(a) + offered_ids(b) =~= offered_ids(a));
    } else {
        lemma_offered_ids_concat(a, b.drop_last());
        assert((a + b).drop_last() =~= a + b.drop_last());
        assert((a + b).last() == b.last());
        assert(offered_ids(a) + offered_ids(b) =~= offered_ids(a) + offered_ids(b.drop_last()) + match b.last() {
            SendView::AssignTab(t) => seq![t.id],
            _ => Seq::empty(),
        });
    }
}

/// The ids offered by one step: the counter's old value on an allocation,
/// nothing otherwise.
proof fn lemma_step_offers(v: RegistryView, r: RecvView, now: u64)
    requires
    ensures
        ({
            let (w, f) = step_spec(v, r, now);
            ||| offered_ids(f) == Seq::<u64>::empty() && w.next_id == v.next_id
            ||| offered_ids(f) == seq![v.next_id] && w.next_id == v.next_id + 1
        }),
{
    let (w, f) = step_spec(v, r, now);
    let none = Seq::<SendView>::empty();
    assert(offered_ids(none) =~= Seq::<u64>::empty());
    if f.len() == 1 {
        assert(f.drop_last() =~= none);
    } else if f.len() == 2 {
        assert(f.drop_last().drop_last() =~= none);
        assert(offered_ids(f.drop_last()) =~= seq![v.next_id]);
    } else if f.len() == 3 {
        assert(f.drop_last().drop_last().drop_last() =~= none);
        assert(offered_ids(f.drop_last().drop_last()) =~= Seq::<u64>::empty());
        assert(offered_ids(f.drop_last()) =~= Seq::<u64>::empty());
    }
    assert(offered_ids(f) =~= Seq::<u64>::empty() || offered_ids(f) =~= seq![v.next_id]);
}

/// For every sequence of requests from a well-formed registry: at most one
/// live tab has a given normalized name at every step, the offered ids strictly
/// increase, and all of them stay below the counter, so none is ever handed
/// out again.
pub proof fn lemma_run_unique_names_and_fresh_ids(v: RegistryView, reqs: Seq<(RecvView, u64)>)
    requires
        registry_wf(v),
    ensures
        registry_wf(run_spec(v, reqs).0),
        v.next_id <= run_spec(v, reqs).0.next_id <= v.next_id + reqs.len(),
        ({
            let ids = offered_ids(run_spec(v, reqs).1);
            &&& forall|i: int, j: int| 0 <= i < j < ids.len() ==> #[trigger] ids[i] < #[trigger] ids[j]
            &&& forall|i: int| 0 <= i < ids.len() ==> v.next_id <= #[trigger] ids[i] < run_spec(v, reqs).0.next_id
        }),
    decreases reqs.len(),
{
    if reqs.len() > 0 {
        let pre = reqs.drop_last();
        lemma_run_unique_names_and_fresh_ids(v, pre);
        let (w, e) = run_spec(v, pre);
        let (r, now) = reqs.last();
        lemma_step_wf(w, r, now);
        lemma_step_offers(w, r, now);
        let (x, f) = step_spec(w, r, now);
        lemma_offered_ids_concat(e, f);
        let ids = offered_ids(e + f);
        let ie = offered_ids(e);
        assert forall|i: int, j: int| 0 <= i < j < ids.len() implies #[trigger] ids[i] < #[trigger] ids[j] by {
            if j < ie.len() {
                assert(ids[i] == ie[i] && ids[j] == ie[j]);
            } else if i < ie.len() {
                assert(ids[i] == ie[i]);
                assert(ids[j] == w.next_id);
            }
        }
        assert forall|i: int| 0 <= i < ids.len() implies v.next_id <= #[trigger] ids[i] < x.next_id by {
            assert(w.next_id <= x.next_id);
            if i < ie.len() {
                assert(ids[i] == ie[i]);
                assert(ie[i] < w.next_id);
            } else {
                assert(offered_ids(f) == seq![w.next_id]);
                assert(ids[i] == w.next_id);
                assert(x.next_id == w.next_id + 1);
            }
        }
    } else {
        assert(offered_ids(Seq::<SendView>::empty()) =~= Seq::<u64>::empty());
    }
}

/// The single-writer registry of live tabs.
pub struct TabManagerService {
    tabs: Vec<TabMetadata>,
    next_id: u64,
}

impl View for TabManagerService {
    type V = RegistryView;

    closed spec fn view(&self) -> RegistryView {
        RegistryView { tabs: tabs_view(self.tabs@), next_id: self.next_id }
    }
}

impl TabManagerService {
    pub open spec fn wf(&self) -> bool {
        registry_wf(self@)
    }

    /// An empty registry whose first id is 0.
    pub fn new() -> (r: TabManagerService)
        ensures
            r.wf(),
            r@.tabs.len() == 0,
            r@.next_id == 0,
    {
        let r = TabManagerService { tabs: Vec::new(), next_id: 0 };
        assert(r@.tabs =~= Seq::<TabView>::empty());
        r
    }

    /// A snapshot of every live tab.
    pub fn tabs_state(&self) -> (r: TabsState)
        ensures
            r@ == self@.tabs,
    {
        let mut out: Vec<TabMetadata> = Vec::new();
        let mut i: usize = 0;
        while i < self.tabs.len()
            invariant
                i <= self.tabs.len(),
                out@.len() == i,
                forall|k: int| 0 <= k < i ==> out@[k]@ == self.tabs@[k]@,
            decreases self.tabs.len() - i,
        {
            out.push(self.tabs[i].duplicate());
            i += 1;
        }
        assert(tabs_view(out@) =~= tabs_view(self.tabs@));
        TabsState { tabs: out }
    }

    /// The position of a live tab with `id`.
    fn find_id(&self, id: TabId) -> (r: Option<usize>)
        requires
            self.wf(),
        ensures
            r is Some <==> has_id(self@.tabs, id.0),
            r matches Some(i) ==> i == index_of_id(self@.tabs, id.0) && i < self.tabs.len(),
    {
        let mut i: usize = 0;
        while i < self.tabs.len()
            invariant
                i <= self.tabs.len(),
                self.wf(),
                forall|k: int| 0 <= k < i ==> self@.tabs[k].id != id.0,
            decreases self.tabs.len() - i,
        {
            if self.tabs[i].id.0 == id.0 {
                proof {
                    assert(self@.tabs[i as int].id == id.0);
                    assert(has_id(self@.tabs, id.0));
                    let j = index_of_id(self@.tabs, id.0);
                    assert(self@.tabs[j].id == id.0);
                    if j < i {
                        assert(self@.tabs[j].id < self@.tabs[i as int].id);
                    } else if j > i {
                        assert(self@.tabs[i as int].id < self@.tabs[j].id);
                    }
                }
                return Some(i);
            }
            i += 1;
        }
        None
    }

    /// Whether a live tab has the same normalized name as `name`.
    fn name_is_live(&self, name: &String) -> (r: bool)
        ensures
            r == has_name(self@.tabs, name@),
    {
        let target = normalize_name(name.as_str());
        let mut i: usize = 0;
        while i < self.tabs.len()
            invariant
                i <= self.tabs.len(),
                target@ == normalize(name@),
                forall|k: int| 0 <= k < i ==> normalize(self@.tabs[k].name) != normalize(name@),
            decreases self.tabs.len() - i,
        {
            let candidate = normalize_name(self.tabs[i].name.as_str());
            if candidate == target {
                assert(normalize(self@.tabs[i as int].name) == normalize(name@));
                return true;
            }
            i += 1;
        }
        false
    }

    /// Creates a tab unless one with the same normalized name is live or the
    /// ids are used up.
    pub fn create_tab(&mut self, create: CreateTabMetadata, now: u64) -> (r: Vec<TabManagerSend>)
        requires
            old(self).wf(),
        ensures
            final(self).wf(),
            (final(self)@, sends_view(r@)) == create_spec(old(self)@, create@, now),
    {
        let mut out: Vec<TabManagerSend> = Vec::new();
        if self.next_id == u64::MAX || self.name_is_live(&create.name) {
            assert(sends_view(out@) =~= Seq::<SendView>::empty());
            return out;
        }
        let id = TabId(self.next_id);
        self.next_id = self.next_id + 1;
        let metadata = TabMetadata::create(id, create, now);
        out.push(TabManagerSend::AssignTab(metadata.duplicate()));
        self.tabs.push(metadata);
        let state = self.tabs_state();
        out.push(TabManagerSend::TabsState(state));
        proof {
            let ov = old(self)@;
            let t = TabView { id: ov.next_id, name: create@.name, doc: create@.doc, selected: now };
            assert(self@.tabs =~= ov.tabs.push(t));
            assert(sends_view(out@) =~= seq![SendView::AssignTab(t), SendView::TabsState(ov.tabs.push(t))]);
            lemma_step_wf(ov, RecvView::CreateTab(create@), now);
        }
        out
    }

    /// Marks a live tab selected at `now`.
    pub fn update_timestamp(&mut self, id: TabId, now: u64) -> (r: Vec<TabManagerSend>)
        requires
            old(self).wf(),
        ensures
            final(self).wf(),
            (final(self)@, sends_view(r@)) == update_spec(old(self)@, id.0, now),
    {
        let mut out: Vec<TabManagerSend> = Vec::new();
        match self.find_id(id) {
            Some(i) => {
                self.tabs[i].mark_selected(now);
                out.push(TabManagerSend::Updated(self.tabs[i].duplicate()));
                proof {
                    let ov = old(self)@;
                    let t = TabView { selected: now, ..ov.tabs[i as int] };
                    assert(self@.tabs =~= ov.tabs.update(i as int, t));
                    assert(sends_view(out@) =~= seq![SendView::Updated(t)]);
                    lemma_step_wf(ov, RecvView::UpdateTimestamp(id.0), now);
                }
            },
            None => {
                assert(sends_view(out@) =~= Seq::<SendView>::empty());
            },
        }
        out
    }

    /// Closes a live tab: Stopped, Terminate and the new snapshot, in that order.
    pub fn close_tab(&mut self, id: TabId) -> (r: Vec<TabManagerSend>)
        requires
            old(self).wf(),
        ensures
            final(self).wf(),
            (final(self)@, sends_view(r@)) == close_spec(old(self)@, id.0),
    {
        let mut out: Vec<TabManagerSend> = Vec::new();
        match self.find_id(id) {
            Some(i) => {
                let _removed = self.tabs.remove(i);
                proof {
                    let ov = old(self)@;
                    assert(self@.tabs =~= ov.tabs.remove(i as int));
                    lemma_step_wf(ov, RecvView::CloseTab(id.0), 0);
                }
                out.push(TabManagerSend::Stopped(id));
                out.push(TabManagerSend::Terminate(id));
                let state = self.tabs_state();
                out.push(TabManagerSend::TabsState(state));
                assert(sends_view(out@) =~= seq![
                    SendView::Stopped(id.0),
                    SendView::Terminate(id.0),
                    SendView::TabsState(self@.tabs),
                ]);
            },
            None => {
                assert(sends_view(out@) =~= Seq::<SendView>::empty());
            },
        }
        out
    }

    /// Processes one request and returns what must be published, in order.
    pub fn handle(&mut self, msg: TabManagerRecv, now: u64) -> (r: Vec<TabManagerSend>)
        requires
            old(self).wf(),
        ensures
            final(self).wf(),
            (final(self)@, sends_view(r@)) == step_spec(old(self)@, msg@, now),
    {
        match msg {
            TabManagerRecv::CreateTab(create) => self.create_tab(create, now),
            TabManagerRecv::UpdateTimestamp(id) => self.update_timestamp(id, now),
            TabManagerRecv::CloseTab(id) => self.close_tab(id),
        }
    }
}

} // verus!
