use crate::tab::{Tab, TabUpdateEvent};
use vstd::prelude::*;

verus! {

/// Why a command on the registry was refused.
#[derive(Clone, Copy, Debug, PartialEq, Eq, Structural)]
pub enum TabError {
    /// The identifier offered for a new tab was handed out before.
    DuplicateId,
}

/// The tab registry of one shell process.
///
/// `tabs` is kept in creation order and `surfaces[i]` is the render surface
/// of `tabs[i]`. `issued` remembers every identifier ever given to a tab,
/// open or closed, so that no identifier is handed out twice.
pub struct BrowserState<W> {
    tabs: Vec<Tab>,
    surfaces: Vec<W>,
    active_tab: Option<String>,
    issued: Vec<String>,
}

/// Relies on uuid::Uuid::new_v4 and its `Display`: a random version-4 UUID in
/// hyphenated form, which is 36 characters long.
#[verifier::external_body]
fn random_uuid_string() -> (r: String)
    ensures
        r@.len() == 36,
{
    uuid::Uuid::new_v4().to_string()
}

impl<W> BrowserState<W> {
    pub closed spec fn tab_seq(self) -> Seq<Tab> {
        self.tabs@
    }

    pub closed spec fn surface_seq(self) -> Seq<W> {
        self.surfaces@
    }

    pub closed spec fn issued_ids(self) -> Seq<Seq<char>> {
        self.issued@.map_values(|s: String| s@)
    }

    pub closed spec fn active(self) -> Option<Seq<char>> {
        match self.active_tab {
            Some(a) => Some(a@),
            None => None,
        }
    }

    /// Identifiers of the open tabs, in creation order.
    pub open spec fn ids(self) -> Seq<Seq<char>> {
        self.tab_seq().map_values(|t: Tab| t.id@)
    }

    pub open spec fn has_tab(self, id: Seq<char>) -> bool {
        self.ids().contains(id)
    }

    /// Position of the open tab with identifier `id`.
    pub open spec fn index_of(self, id: Seq<char>) -> int {
        choose|i: int| 0 <= i < self.ids().len() && self.ids()[i] == id
    }

    /// The identifier of the most recently created open tab, if any.
    pub open spec fn last_id(self) -> Option<Seq<char>> {
        if self.tab_seq().len() == 0 {
            None
        } else {
            Some(self.tab_seq().last().id@)
        }
    }

    pub open spec fn wf(self) -> bool {
        &&& self.tab_seq().len() == self.surface_seq().len()
        &&& self.ids().no_duplicates()
        &&& self.issued_ids().no_duplicates()
        &&& forall|i: int| 0 <= i < self.ids().len() ==> self.issued_ids().contains(#[trigger] self.ids()[i])
        &&& match self.active() {
            Some(a) => self.has_tab(a),
            None => true,
        }
    }

    /// An empty registry.
    pub fn new() -> (r: Self)
        ensures
            r.wf(),
            r.tab_seq().len() == 0,
            r.issued_ids().len() == 0,
            r.active() is None,
    {
        let r = BrowserState { tabs: Vec::new(), surfaces: Vec::new(), active_tab: None, issued: Vec::new() };
        assert(r.ids() =~= Seq::empty());
        assert(r.issued_ids() =~= Seq::empty());
        r
    }

    /// Whether `id` was never given to a tab of this registry.
    pub fn is_unused_id(&self, id: &String) -> (r: bool)
        ensures
            r == !self.issued_ids().contains(id@),
    {
        let mut i: usize = 0;
        while i < self.issued.len()
            invariant
                i <= self.issued@.len(),
                forall|k: int| 0 <= k < i ==> self.issued_ids()[k] != id@,
            decreases self.issued@.len() - i,
        {
            if self.issued[i] == *id {
                assert(self.issued_ids()[i as int] == id@);
                return false;
            }
            i = i + 1;
        }
        true
    }

    /// Position of the open tab with identifier `id`, if there is one.
    pub fn find_tab(&self, id: &String) -> (r: Option<usize>)
        requires
            self.wf(),
        ensures
            r is None <==> !self.has_tab(id@),
            r matches Some(i) ==> i == self.index_of(id@) && i < self.tab_seq().len(),
    {
        let mut i: usize = 0;
        while i < self.tabs.len()
            invariant
                self.wf(),
                i <= self.tabs@.len(),
                forall|k: int| 0 <= k < i ==> self.ids()[k] != id@,
            decreases self.tabs@.len() - i,
        {
            if self.tabs[i].id == *id {
                assert(self.ids()[i as int] == id@);
                proof {
                    let j = self.index_of(id@);
                    assert(self.ids()[j] == id@);
                }
                return Some(i);
            }
            i = i + 1;
        }
        None
    }
}

impl<W> BrowserState<W> {
    /// Every view of the registry is as it was in `self`.
    pub open spec fn same_as(self, other: Self) -> bool {
        &&& other.tab_seq() == self.tab_seq()
        &&& other.surface_seq() == self.surface_seq()
        &&& other.issued_ids() == self.issued_ids()
        &&& other.active() == self.active()
    }

    /// `post` is `self` with a fresh tab `id` appended, backed by `surface`,
    /// and made active.
    pub open spec fn opened(self, post: Self, id: Seq<char>, surface: W) -> bool {
        &&& post.tab_seq().len() == self.tab_seq().len() + 1
        &&& post.tab_seq().drop_last() == self.tab_seq()
        &&& post.tab_seq().last().is_fresh(id)
        &&& post.surface_seq() == self.surface_seq().push(surface)
        &&& post.issued_ids() == self.issued_ids().push(id)
        &&& post.active() == Some(id)
    }

    /// `post` is `self` after the tab `id` was closed: the tab and its surface
    /// leave, and if it was active the most recently created remaining tab
    /// becomes active, or none when no tab is left.
    pub open spec fn closed(self, post: Self, id: Seq<char>) -> bool {
        if !self.has_tab(id) {
            self.same_as(post)
        } else {
            let i = self.index_of(id);
            &&& post.tab_seq() == self.tab_seq().remove(i)
            &&& post.surface_seq() == self.surface_seq().remove(i)
            &&& post.issued_ids() == self.issued_ids()
            &&& post.active() == (if self.active() == Some(id) {
                post.last_id()
            } else {
                self.active()
            })
        }
    }

    /// The surface that a command on tab `id` goes to, if the tab is open.
    pub open spec fn surface_of(self, id: Seq<char>) -> Option<W> {
        if self.has_tab(id) {
            Some(self.surface_seq()[self.index_of(id)])
        } else {
            None
        }
    }

    /// The open tabs, in creation order.
    pub fn tabs(&self) -> (r: &[Tab])
        ensures
            r@ == self.tab_seq(),
    {
        self.tabs.as_slice()
    }

    /// The identifier of the active tab, if any.
    pub fn active_tab(&self) -> (r: Option<&str>)
        ensures
            r is None <==> self.active() is None,
            r matches Some(a) ==> self.active() == Some(a@),
    {
        match &self.active_tab {
            Some(a) => Some(a.as_str()),
            None => None,
        }
    }

    /// The render surface of the open tab `id`, if there is one.
    pub fn surface(&self, id: &String) -> (r: Option<&W>)
        requires
            self.wf(),
        ensures
            r is None <==> self.surface_of(id@) is None,
            r matches Some(w) ==> self.surface_of(id@) == Some(*w),
    {
        match self.find_tab(id) {
            Some(i) => Some(&self.surfaces[i]),
            None => None,
        }
    }
}

/// Draws a random identifier for a new tab and keeps it only if the registry
/// never used it: `None` tells the caller to draw again.
pub fn new_tab_id<W>(state: &BrowserState<W>) -> (r: Option<String>)
    ensures
        r matches Some(id) ==> !state.issued_ids().contains(id@) && id@.len() == 36,
        state.issued_ids().len() == 0 ==> r is Some,
{
    let id = random_uuid_string();
    if state.is_unused_id(&id) {
        Some(id)
    } else {
        None
    }
}

/// Opens a tab with identifier `id` on `surface` and makes it active.
/// An identifier that was ever used before is refused and nothing changes.
pub fn create_tab<W>(state: &mut BrowserState<W>, id: String, surface: W) -> (r: Result<Tab, TabError>)
    requires
        old(state).wf(),
    ensures
        final(state).wf(),
        old(state).issued_ids().contains(id@) ==> r == Err::<Tab, TabError>(TabError::DuplicateId)
            && old(state).same_as(*final(state)),
        !old(state).issued_ids().contains(id@) ==> r is Ok && old(state).opened(*final(state), id@, surface),
        r matches Ok(t) ==> t.is_fresh(id@),
{
    if !state.is_unused_id(&id) {
        return Err(TabError::DuplicateId);
    }
    let ghost pre = *state;
    let tab = Tab::new(id.clone());
    let result = tab.duplicate();
    state.tabs.push(tab);
    state.surfaces.push(surface);
    state.issued.push(id.clone());
    state.active_tab = Some(id);
    proof {
        assert(state.ids() =~= pre.ids().push(id@));
        assert(state.issued_ids() =~= pre.issued_ids().push(id@));
        assert(!pre.ids().contains(id@));
        assert(state.ids()[state.ids().len() - 1] == id@);
        assert forall|i: int| 0 <= i < state.ids().len() implies state.issued_ids().contains(
            #[trigger] state.ids()[i],
        ) by {
            if i < pre.ids().len() {
                assert(state.ids()[i] == pre.ids()[i]);
                let k = choose|k: int| 0 <= k < pre.issued_ids().len() && pre.issued_ids()[k] == pre.ids()[i];
                assert(state.issued_ids()[k] == pre.ids()[i]);
            } else {
                assert(state.issued_ids()[pre.issued_ids().len() as int] == id@);
            }
        }
        assert(state.has_tab(id@));
        assert(state.tab_seq().drop_last() =~= pre.tab_seq());
    }
    Ok(result)
}

/// Closes the tab `id`: its record and its surface leave the registry, and
/// the surface is handed back to be destroyed. Closing a tab that is not open
/// changes nothing.
pub fn close_tab<W>(state: &mut BrowserState<W>, tab_id: &String) -> (r: Option<W>)
    requires
        old(state).wf(),
    ensures
        final(state).wf(),
        old(state).closed(*final(state), tab_id@),
        r == old(state).surface_of(tab_id@),
{
    let ghost pre = *state;
    let i = match state.find_tab(tab_id) {
        Some(i) => i,
        None => return None,
    };
    let surface = state.surfaces.remove(i);
    state.tabs.remove(i);
    let was_active = match &state.active_tab {
        Some(a) => *a == *tab_id,
        None => false,
    };
    if was_active {
        let n = state.tabs.len();
        state.active_tab = if n == 0 {
            None
        } else {
            Some(state.tabs[n - 1].id.clone())
        };
    }
    proof {
        assert(state.ids() =~= pre.ids().remove(i as int));
        assert forall|a: int, b: int|
            0 <= a < b < state.ids().len() implies state.ids()[a] != state.ids()[b] by {
            let a0 = if a < i { a } else { a + 1 };
            let b0 = if b < i { b } else { b + 1 };
            assert(state.ids()[a] == pre.ids()[a0]);
            assert(state.ids()[b] == pre.ids()[b0]);
        }
        assert forall|k: int| 0 <= k < state.ids().len() implies state.issued_ids().contains(
            #[trigger] state.ids()[k],
        ) by {
            let k0 = if k < i { k } else { k + 1 };
            assert(state.ids()[k] == pre.ids()[k0]);
        }
        if was_active {
            if state.ids().len() > 0 {
                assert(state.ids()[state.ids().len() - 1] == state.tab_seq().last().id@);
            }
        } else {
            match state.active() {
                Some(a) => {
                    let j = choose|j: int| 0 <= j < pre.ids().len() && pre.ids()[j] == a;
                    assert(pre.ids()[i as int] == tab_id@);
                    assert(j != i);
                    let j1 = if j < i { j } else { j - 1 };
                    assert(state.ids()[j1] == a);
                },
                None => {},
            }
        }
    }
    Some(surface)
}

/// The surface that should load a new URL for tab `tab_id`; `None` when the
/// tab is not open, and then nothing is to be done.
pub fn navigate_to<'a, W>(state: &'a BrowserState<W>, tab_id: &String) -> (r: Option<&'a W>)
    requires
        state.wf(),
    ensures
        r is None <==> !state.has_tab(tab_id@),
        r matches Some(w) ==> state.surface_of(tab_id@) == Some(*w),
{
    state.surface(tab_id)
}

/// The surface that should step through its history for tab `tab_id`: the
/// tab's surface when the tab is open and `available` reports, for that
/// surface, a page to step to; `None` when nothing is to be done.
fn history_step<'a, W, F: Fn(&W) -> bool>(state: &'a BrowserState<W>, tab_id: &String, available: F) -> (r: Option<&'a W>)
    requires
        state.wf(),
        forall|w: &W| #[trigger] available.requires((w,)),
    ensures
        !state.has_tab(tab_id@) ==> r is None,
        r matches Some(w) ==> state.surface_of(tab_id@) == Some(*w) && available.ensures((w,), true),
        r is None && state.has_tab(tab_id@) ==> available.ensures(
            (&state.surface_seq()[state.index_of(tab_id@)],),
            false,
        ),
{
    match state.find_tab(tab_id) {
        Some(i) => {
            let w = &state.surfaces[i];
            if available(w) {
                Some(w)
            } else {
                None
            }
        },
        None => None,
    }
}

/// The surface that should go back one page for tab `tab_id`: the tab's
/// surface when the tab is open and the surface reports, through
/// `can_go_back`, a page to go back to. Otherwise `None`, and nothing is to
/// be done.
pub fn go_back<'a, W, F: Fn(&W) -> bool>(state: &'a BrowserState<W>, tab_id: &String, can_go_back: F) -> (r: Option<&'a W>)
    requires
        state.wf(),
        forall|w: &W| #[trigger] can_go_back.requires((w,)),
    ensures
        !state.has_tab(tab_id@) ==> r is None,
        r matches Some(w) ==> state.surface_of(tab_id@) == Some(*w) && can_go_back.ensures((w,), true),
        r is None && state.has_tab(tab_id@) ==> can_go_back.ensures(
            (&state.surface_seq()[state.index_of(tab_id@)],),
            false,
        ),
{
    history_step(state, tab_id, can_go_back)
}

/// The surface that should go forward one page for tab `tab_id`: the tab's
/// surface when the tab is open and the surface reports, through
/// `can_go_forward`, a page to go forward to. Otherwise `None`, and nothing is
/// to be done.
pub fn go_forward<'a, W, F: Fn(&W) -> bool>(state: &'a BrowserState<W>, tab_id: &String, can_go_forward: F) -> (r: Option<&'a W>)
    requires
        state.wf(),
        forall|w: &W| #[trigger] can_go_forward.requires((w,)),
    ensures
        !state.has_tab(tab_id@) ==> r is None,
        r matches Some(w) ==> state.surface_of(tab_id@) == Some(*w) && can_go_forward.ensures((w,), true),
        r is None && state.has_tab(tab_id@) ==> can_go_forward.ensures(
            (&state.surface_seq()[state.index_of(tab_id@)],),
            false,
        ),
{
    history_step(state, tab_id, can_go_forward)
}

/// Records what a finished load reported for the tab it is tagged with.
/// An event for a tab that was closed in the meantime changes nothing.
pub fn apply_update<W>(state: &mut BrowserState<W>, event: &TabUpdateEvent)
    requires
        old(state).wf(),
    ensures
        final(state).wf(),
        !old(state).has_tab(event.tab_id@) ==> old(state).same_as(*final(state)),
        old(state).has_tab(event.tab_id@) ==> {
            let i = old(state).index_of(event.tab_id@);
            &&& final(state).tab_seq().len() == old(state).tab_seq().len()
            &&& forall|j: int|
                0 <= j < old(state).tab_seq().len() && j != i ==> #[trigger] final(state).tab_seq()[j]
                    == old(state).tab_seq()[j]
            &&& final(state).tab_seq()[i].id@ == event.tab_id@
            &&& final(state).tab_seq()[i].updated_by(*event)
            &&& final(state).surface_seq() == old(state).surface_seq()
            &&& final(state).issued_ids() == old(state).issued_ids()
            &&& final(state).active() == old(state).active()
        },
{
    let ghost pre = *state;
    let i = match state.find_tab(&event.tab_id) {
        Some(i) => i,
        None => return,
    };
    let tab = Tab {
        id: state.tabs[i].id.clone(),
        url: event.url.clone(),
        title: event.title.clone(),
        can_go_back: event.can_go_back,
        can_go_forward: event.can_go_forward,
    };
    state.tabs.set(i, tab);
    proof {
        assert(state.ids() =~= pre.ids());
        if let Some(a) = state.active() {
            assert(pre.has_tab(a));
        }
    }
}

/// Identifiers handed out by `create_tab` never repeat: the identifier of a
/// tab just opened differs from every identifier the registry handed out
/// before, whether that tab is still open or was closed since.
pub proof fn lemma_created_id_is_new<W>(pre: BrowserState<W>, post: BrowserState<W>, id: Seq<char>, surface: W)
    requires
        pre.wf(),
        post.wf(),
        pre.opened(post, id, surface),
    ensures
        forall|k: int| 0 <= k < pre.issued_ids().len() ==> #[trigger] pre.issued_ids()[k] != id,
        forall|k: int| 0 <= k < pre.ids().len() ==> #[trigger] pre.ids()[k] != id,
{
    let n = pre.issued_ids().len();
    assert forall|k: int| 0 <= k < n implies #[trigger] pre.issued_ids()[k] != id by {
        assert(post.issued_ids()[k] == pre.issued_ids()[k]);
        assert(post.issued_ids()[n as int] == id);
    }
    assert forall|k: int| 0 <= k < pre.ids().len() implies #[trigger] pre.ids()[k] != id by {
        assert(pre.issued_ids().contains(pre.ids()[k]));
    }
}

/// Closing a tab never forgets an identifier that was handed out, so a later
/// `create_tab` still refuses it: a close is a step of a run that hands out
/// nothing.
pub proof fn lemma_close_hands_out_nothing<W>(pre: BrowserState<W>, post: BrowserState<W>, id: Seq<char>)
    requires
        pre.wf(),
        pre.closed(post, id),
    ensures
        hands_out(pre, post, None),
{
}

/// A successful `create_tab` is a step of a run that hands out its identifier.
pub proof fn lemma_create_hands_out_id<W>(pre: BrowserState<W>, post: BrowserState<W>, id: Seq<char>, surface: W)
    requires
        pre.wf(),
        !pre.issued_ids().contains(id),
        pre.opened(post, id, surface),
    ensures
        hands_out(pre, post, Some(id)),
{
}

/// Once tab `id` is closed, navigating it (or stepping it back or forward)
/// finds no surface: the command succeeds and does nothing.
pub proof fn lemma_closed_tab_has_no_surface<W>(pre: BrowserState<W>, post: BrowserState<W>, id: Seq<char>)
    requires
        pre.wf(),
        pre.closed(post, id),
    ensures
        !post.has_tab(id),
        post.surface_of(id) is None,
{
    if pre.has_tab(id) {
        let i = pre.index_of(id);
        assert(post.ids() =~= pre.ids().remove(i));
        if post.has_tab(id) {
            let j = choose|j: int| 0 <= j < post.ids().len() && post.ids()[j] == id;
            let j0 = if j < i { j } else { j + 1 };
            assert(pre.ids()[j0] == id);
            assert(pre.ids()[i] == id);
        }
    } else {
        assert(post.ids() =~= pre.ids());
    }
}

/// One command applied to the registry, as far as identifiers go: a
/// successful `create_tab` hands out `Some(id)`, which was unused and is now
/// recorded; every other command (a refused create, a close, an update)
/// hands out `None` and keeps the record as it was.
pub open spec fn hands_out<W>(pre: BrowserState<W>, post: BrowserState<W>, given: Option<Seq<char>>) -> bool {
    match given {
        Some(id) => !pre.issued_ids().contains(id) && post.issued_ids() == pre.issued_ids().push(id),
        None => post.issued_ids() == pre.issued_ids(),
    }
}

/// `states[k + 1]` follows from `states[k]` by a command that handed out
/// `given[k]`, for every step of the run.
pub open spec fn is_run<W>(states: Seq<BrowserState<W>>, given: Seq<Option<Seq<char>>>) -> bool {
    &&& states.len() == given.len() + 1
    &&& forall|k: int| 0 <= k < given.len() ==> hands_out(states[k], #[trigger] states[k + 1], given[k])
}

proof fn lemma_given_stays_recorded<W>(
    states: Seq<BrowserState<W>>,
    given: Seq<Option<Seq<char>>>,
    a: int,
    k: int,
)
    requires
        is_run(states, given),
        0 <= a < k <= given.len(),
        given[a] is Some,
    ensures
        states[k].issued_ids().contains(given[a]->Some_0),
    decreases k - a,
{
    let id = given[a]->Some_0;
    if k == a + 1 {
        assert(hands_out(states[a], states[a + 1], given[a]));
        let n = states[a].issued_ids().len();
        assert(states[k].issued_ids()[n as int] == id);
    } else {
        lemma_given_stays_recorded(states, given, a, k - 1);
        let k1 = k - 1;
        assert(hands_out(states[k1], states[k1 + 1], given[k1]));
        assert(k1 + 1 == k);
        let prev = states[k - 1].issued_ids();
        let j = choose|j: int| 0 <= j < prev.len() && #[trigger] prev[j] == id;
        assert(states[k].issued_ids()[j] == id);
    }
}

/// Over any run of commands, the identifiers that `create_tab` hands out are
/// pairwise distinct.
pub proof fn lemma_run_ids_distinct<W>(states: Seq<BrowserState<W>>, given: Seq<Option<Seq<char>>>)
    requires
        is_run(states, given),
    ensures
        forall|a: int, b: int|
            0 <= a < b < given.len() && given[a] is Some && given[b] is Some ==> #[trigger] given[a]
                != #[trigger] given[b],
{
    assert forall|a: int, b: int|
        0 <= a < b < given.len() && given[a] is Some && given[b] is Some implies #[trigger] given[a]
        != #[trigger] given[b] by {
        lemma_given_stays_recorded(states, given, a, b);
        assert(hands_out(states[b], states[b + 1], given[b]));
    }
}

} // verus!
