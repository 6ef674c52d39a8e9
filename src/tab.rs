use vstd::prelude::*;

verus! {

/// The URL a freshly opened tab shows.
pub open spec fn blank_url() -> Seq<char> {
    seq!['a', 'b', 'o', 'u', 't', ':', 'b', 'l', 'a', 'n', 'k']
}

/// The title a freshly opened tab shows.
pub open spec fn new_tab_title() -> Seq<char> {
    seq!['N', 'e', 'w', ' ', 'T', 'a', 'b']
}

/// One logical browsing context.
#[derive(Clone, Debug)]
pub struct Tab {
    pub id: String,
    pub url: String,
    pub title: String,
    pub can_go_back: bool,
    pub can_go_forward: bool,
}

/// What a render surface reported when a page finished loading, tagged with
/// the tab that owns the surface.
#[derive(Clone, Debug)]
pub struct TabUpdateEvent {
    pub tab_id: String,
    pub title: String,
    pub url: String,
    pub can_go_back: bool,
    pub can_go_forward: bool,
}

fn blank_url_string() -> (r: String)
    ensures
        r@ == blank_url(),
{
    let r = String::from_str("about:blank");
    proof {
        reveal_strlit("about:blank");
    }
    r
}

fn new_tab_title_string() -> (r: String)
    ensures
        r@ == new_tab_title(),
{
    let r = String::from_str("New Tab");
    proof {
        reveal_strlit("New Tab");
    }
    r
}

impl Tab {
    /// A tab as it is right after opening: blank page, default title, no history.
    pub open spec fn is_fresh(self, id: Seq<char>) -> bool {
        &&& self.id@ == id
        &&& self.url@ == blank_url()
        &&& self.title@ == new_tab_title()
        &&& !self.can_go_back
        &&& !self.can_go_forward
    }

    /// A new tab with the given identifier.
    pub fn new(id: String) -> (r: Tab)
        ensures
            r.is_fresh(id@),
    {
        Tab {
            id,
            url: blank_url_string(),
            title: new_tab_title_string(),
            can_go_back: false,
            can_go_forward: false,
        }
    }

    /// The tab as it stands after `e` was applied to it: it is the tab that `e`
    /// is tagged with, and its URL, title and history flags are the event's.
    pub open spec fn updated_by(self, e: TabUpdateEvent) -> bool {
        &&& self.id@ == e.tab_id@
        &&& self.url@ == e.url@
        &&& self.title@ == e.title@
        &&& self.can_go_back == e.can_go_back
        &&& self.can_go_forward == e.can_go_forward
    }

    /// A field-by-field copy.
    pub fn duplicate(&self) -> (r: Tab)
        ensures
            r == *self,
    {
        Tab {
            id: self.id.clone(),
            url: self.url.clone(),
            title: self.title.clone(),
            can_go_back: self.can_go_back,
            can_go_forward: self.can_go_forward,
        }
    }

    pub fn id(&self) -> (r: &str)
        ensures
            r@ == self.id@,
    {
        self.id.as_str()
    }

    pub fn url(&self) -> (r: &str)
        ensures
            r@ == self.url@,
    {
        self.url.as_str()
    }

    pub fn title(&self) -> (r: &str)
        ensures
            r@ == self.title@,
    {
        self.title.as_str()
    }

    pub fn can_go_back(&self) -> (r: bool)
        ensures
            r == self.can_go_back,
    {
        self.can_go_back
    }

    pub fn can_go_forward(&self) -> (r: bool)
        ensures
            r == self.can_go_forward,
    {
        self.can_go_forward
    }
}

impl TabUpdateEvent {
    /// Builds the event for a finished load from what the surface reports.
    /// A surface with no current URI counts as showing the blank page, and
    /// one with no title as showing the default title.
    pub fn load_finished(
        tab_id: String,
        uri: Option<String>,
        title: Option<String>,
        can_go_back: bool,
        can_go_forward: bool,
    ) -> (r: TabUpdateEvent)
        ensures
            r.tab_id@ == tab_id@,
            r.url@ == (match uri {
                Some(u) => u@,
                None => blank_url(),
            }),
            r.title@ == (match title {
                Some(t) => t@,
                None => new_tab_title(),
            }),
            r.can_go_back == can_go_back,
            r.can_go_forward == can_go_forward,
    {
        let url = match uri {
            Some(u) => u,
            None => blank_url_string(),
        };
        let title = match title {
            Some(t) => t,
            None => new_tab_title_string(),
        };
        TabUpdateEvent { tab_id, title, url, can_go_back, can_go_forward }
    }

    pub fn tab_id(&self) -> (r: &str)
        ensures
            r@ == self.tab_id@,
    {
        self.tab_id.as_str()
    }

    pub fn url(&self) -> (r: &str)
        ensures
            r@ == self.url@,
    {
        self.url.as_str()
    }

    pub fn title(&self) -> (r: &str)
        ensures
            r@ == self.title@,
    {
        self.title.as_str()
    }

    pub fn can_go_back(&self) -> (r: bool)
        ensures
            r == self.can_go_back,
    {
        self.can_go_back
    }

    pub fn can_go_forward(&self) -> (r: bool)
        ensures
            r == self.can_go_forward,
    {
        self.can_go_forward
    }
}

} // verus!
