use vstd::prelude::*;
use vstd::string::*;

verus! {

/// Identifier of a tab, unique for the lifetime of the daemon.
#[derive(Clone, Copy, Debug, PartialEq, Eq, Hash, Structural)]
pub struct TabId(pub u64);

/// The request that creates a tab.
#[derive(Clone, Debug)]
pub struct CreateTabMetadata {
    pub name: String,
    pub doc: Option<String>,
}

/// One live tab, as the registry holds it.
#[derive(Clone, Debug)]
pub struct TabMetadata {
    pub id: TabId,
    pub name: String,
    pub doc: Option<String>,
    /// When the tab was last selected (or created), in milliseconds.
    pub selected: u64,
}

/// Mathematical model of a [`CreateTabMetadata`].
pub struct CreateView {
    pub name: Seq<char>,
    pub doc: Option<Seq<char>>,
}

/// Mathematical model of a [`TabMetadata`].
pub struct TabView {
    pub id: u64,
    pub name: Seq<char>,
    pub doc: Option<Seq<char>>,
    pub selected: u64,
}

pub open spec fn opt_view(o: Option<String>) -> Option<Seq<char>> {
    match o {
        Some(s) => Some(s@),
        None => None,
    }
}

impl View for CreateTabMetadata {
    type V = CreateView;

    open spec fn view(&self) -> CreateView {
        CreateView { name: self.name@, doc: opt_view(self.doc) }
    }
}

impl View for TabMetadata {
    type V = TabView;

    open spec fn view(&self) -> TabView {
        TabView { id: self.id.0, name: self.name@, doc: opt_view(self.doc), selected: self.selected }
    }
}

/// Copies an optional string.
pub fn copy_opt(o: &Option<String>) -> (r: Option<String>)
    ensures
        opt_view(r) == opt_view(*o),
{
    match o {
        Some(s) => Some(s.clone()),
        None => None,
    }
}

pub open spec fn is_space(c: char) -> bool {
    c == ' ' || c == '\t' || c == '\n' || c == '\r'
}

/// First position at or after `i` that holds no space.
pub open spec fn trim_start_at(s: Seq<char>, i: int) -> int
    decreases s.len() - i,
{
    if 0 <= i < s.len() && is_space(s[i]) {
        trim_start_at(s, i + 1)
    } else {
        i
    }
}

/// End of `s[lo..j]` with its trailing spaces left out.
pub open spec fn trim_end_at(s: Seq<char>, lo: int, j: int) -> int
    decreases j - lo,
{
    if lo < j && is_space(s[j - 1]) {
        trim_end_at(s, lo, j - 1)
    } else {
        j
    }
}

/// A tab name without leading and trailing spaces.
pub open spec fn normalize(s: Seq<char>) -> Seq<char> {
    let lo = trim_start_at(s, 0);
    s.subrange(lo, trim_end_at(s, lo, s.len() as int))
}

fn is_space_char(c: char) -> (r: bool)
    ensures
        r == is_space(c),
{
    c == ' ' || c == '\t' || c == '\n' || c == '\r'
}

/// Normalizes a tab name: leading and trailing spaces are removed.
pub fn normalize_name(name: &str) -> (r: String)
    ensures
        r@ == normalize(name@),
{
    let n = name.unicode_len();
    let mut lo: usize = 0;
    while lo < n && is_space_char(name.get_char(lo))
        invariant
            lo <= n,
            n == name@.len(),
            trim_start_at(name@, 0) == trim_start_at(name@, lo as int),
        decreases n - lo,
    {
        lo += 1;
    }
    let mut hi: usize = n;
    while hi > lo && is_space_char(name.get_char(hi - 1))
        invariant
            lo <= hi <= n,
            n == name@.len(),
            trim_end_at(name@, lo as int, n as int) == trim_end_at(name@, lo as int, hi as int),
        decreases hi,
    {
        hi -= 1;
    }
    String::from_str(name.substring_char(lo, hi))
}

impl TabMetadata {
    /// The metadata of a freshly created tab.
    pub fn create(id: TabId, create: CreateTabMetadata, now: u64) -> (r: TabMetadata)
        ensures
            r@ == (TabView { id: id.0, name: create@.name, doc: create@.doc, selected: now }),
    {
        TabMetadata { id, name: create.name, doc: create.doc, selected: now }
    }

    /// Records that the tab was selected at `now`.
    pub fn mark_selected(&mut self, now: u64)
        ensures
            final(self)@ == (TabView { selected: now, ..old(self)@ }),
    {
        self.selected = now;
    }

    /// A copy of this metadata, for publishing.
    pub fn duplicate(&self) -> (r: TabMetadata)
        ensures
            r@ == self@,
    {
        TabMetadata { id: self.id, name: self.name.clone(), doc: copy_opt(&self.doc), selected: self.selected }
    }
}

} // verus!
