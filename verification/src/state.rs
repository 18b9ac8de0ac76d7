//! What the updater remembers about each application between runs.
use crate::config::{copy_opt_string, copy_strings, opt_view, strings_view};
use crate::text::{chars_of, eq};
use vstd::prelude::*;

verus! {

/// The kind of forge that hosts a repository.
#[derive(Clone, Copy, Debug, PartialEq, Eq, Structural)]
pub enum ForgePlatform {
    GitHub,
    GitLab,
    Gitea,
    Forgejo,
}

/// Cached facts about one application.
#[derive(Clone)]
pub struct AppState {
    pub local_version: Option<String>,
    pub etag: Option<String>,
    pub last_modified: Option<String>,
    pub file_path: Option<String>,
    pub sanitized_name: Option<String>,
    pub rate_limited_until: Option<u64>,
    pub capabilities: Vec<String>,
    pub segmented_downloads: Option<bool>,
    pub forge_repository: Option<String>,
    pub forge_platform: Option<ForgePlatform>,
    pub download_bytes: Option<u64>,
}

/// The abstract content of an [`AppState`]: every string by its characters.
pub struct AppStateView {
    pub local_version: Option<Seq<char>>,
    pub etag: Option<Seq<char>>,
    pub last_modified: Option<Seq<char>>,
    pub file_path: Option<Seq<char>>,
    pub sanitized_name: Option<Seq<char>>,
    pub rate_limited_until: Option<u64>,
    pub capabilities: Seq<Seq<char>>,
    pub segmented_downloads: Option<bool>,
    pub forge_repository: Option<Seq<char>>,
    pub forge_platform: Option<ForgePlatform>,
    pub download_bytes: Option<u64>,
}

impl View for AppState {
    type V = AppStateView;

    open spec fn view(&self) -> AppStateView {
        AppStateView {
            local_version: opt_view(self.local_version),
            etag: opt_view(self.etag),
            last_modified: opt_view(self.last_modified),
            file_path: opt_view(self.file_path),
            sanitized_name: opt_view(self.sanitized_name),
            rate_limited_until: self.rate_limited_until,
            capabilities: strings_view(self.capabilities@),
            segmented_downloads: self.segmented_downloads,
            forge_repository: opt_view(self.forge_repository),
            forge_platform: self.forge_platform,
            download_bytes: self.download_bytes,
        }
    }
}

/// The state of an application never seen before.
pub open spec fn empty_app_state() -> AppStateView {
    AppStateView {
        local_version: None,
        etag: None,
        last_modified: None,
        file_path: None,
        sanitized_name: None,
        rate_limited_until: None,
        capabilities: Seq::empty(),
        segmented_downloads: None,
        forge_repository: None,
        forge_platform: None,
        download_bytes: None,
    }
}

impl Default for AppState {
    fn default() -> (r: Self)
        ensures
            r@ == empty_app_state(),
    {
        let r = AppState {
            local_version: None,
            etag: None,
            last_modified: None,
            file_path: None,
            sanitized_name: None,
            rate_limited_until: None,
            capabilities: Vec::new(),
            segmented_downloads: None,
            forge_repository: None,
            forge_platform: None,
            download_bytes: None,
        };
        assert(r@.capabilities =~= Seq::<Seq<char>>::empty());
        r
    }
}

impl AppState {
    /// A copy of this state.
    pub fn duplicate(&self) -> (r: AppState)
        ensures
            r@ == self@,
    {
        AppState {
            local_version: copy_opt_string(&self.local_version),
            etag: copy_opt_string(&self.etag),
            last_modified: copy_opt_string(&self.last_modified),
            file_path: copy_opt_string(&self.file_path),
            sanitized_name: copy_opt_string(&self.sanitized_name),
            rate_limited_until: self.rate_limited_until,
            capabilities: copy_strings(&self.capabilities),
            segmented_downloads: self.segmented_downloads,
            forge_repository: copy_opt_string(&self.forge_repository),
            forge_platform: self.forge_platform,
            download_bytes: self.download_bytes,
        }
    }
}

/// One application's name with its cached state.
#[derive(Clone)]
pub struct AppEntry {
    pub name: String,
    pub state: AppState,
}

/// Every application's cached state, one entry per name, in insertion order.
#[derive(Clone)]
pub struct State {
    pub apps: Vec<AppEntry>,
}

impl View for State {
    type V = Seq<(Seq<char>, AppStateView)>;

    open spec fn view(&self) -> Seq<(Seq<char>, AppStateView)> {
        Seq::new(self.apps@.len(), |i: int| (self.apps@[i].name@, self.apps@[i].state@))
    }
}

/// No name occurs twice.
pub open spec fn unique_names(v: Seq<(Seq<char>, AppStateView)>) -> bool {
    forall|i: int, j: int| 0 <= i < j < v.len() ==> v[i].0 != v[j].0
}

/// Position of `name` among the entries, if present.
pub open spec fn find_name(v: Seq<(Seq<char>, AppStateView)>, name: Seq<char>) -> Option<int> {
    if exists|i: int| 0 <= i < v.len() && v[i].0 == name {
        Some(choose|i: int| 0 <= i < v.len() && v[i].0 == name)
    } else {
        None
    }
}

/// The cached state recorded for `name`, if any.
pub open spec fn lookup(v: Seq<(Seq<char>, AppStateView)>, name: Seq<char>) -> Option<AppStateView> {
    match find_name(v, name) {
        Some(i) => Some(v[i].1),
        None => None,
    }
}

proof fn lemma_find_name_unique(v: Seq<(Seq<char>, AppStateView)>, name: Seq<char>, i: int)
    requires
        unique_names(v),
        0 <= i < v.len(),
        v[i].0 == name,
    ensures
        find_name(v, name) == Some(i),
{
    let j = choose|j: int| 0 <= j < v.len() && v[j].0 == name;
    if j != i {
        if j < i {
            assert(v[j].0 != v[i].0);
        } else {
            assert(v[i].0 != v[j].0);
        }
    }
}

proof fn lemma_unique_update(v: Seq<(Seq<char>, AppStateView)>, i: int)
    requires
        unique_names(v),
        0 <= i < v.len(),
    ensures
        forall|x: (Seq<char>, AppStateView)|
            x.0 == v[i].0 ==> #[trigger] unique_names(v.update(i, x)),
{
    assert forall|x: (Seq<char>, AppStateView)| x.0 == v[i].0 implies #[trigger] unique_names(
        v.update(i, x),
    ) by {
        let w = v.update(i, x);
        assert forall|a: int, b: int| 0 <= a < b < w.len() implies w[a].0 != w[b].0 by {
            assert(w[a].0 == v[a].0);
            assert(w[b].0 == v[b].0);
        }
    }
}

impl State {
    /// No name occurs twice.
    pub open spec fn wf(&self) -> bool {
        unique_names(self@)
    }

    /// An empty state.
    pub fn new() -> (r: State)
        ensures
            r.wf(),
            r@ == Seq::<(Seq<char>, AppStateView)>::empty(),
    {
        let r = State { apps: Vec::new() };
        assert(r@ =~= Seq::<(Seq<char>, AppStateView)>::empty());
        r
    }

    /// Position of the entry named `name`.
    pub fn position(&self, name: &str) -> (r: Option<usize>)
        requires
            self.wf(),
        ensures
            match find_name(self@, name@) {
                Some(i) => r == Some(i as usize),
                None => r is None,
            },
            r matches Some(i) ==> i < self@.len() && self@[i as int].0 == name@,
            r is None ==> forall|j: int| 0 <= j < self@.len() ==> self@[j].0 != name@,
    {
        let target = chars_of(name);
        let mut i: usize = 0;
        while i < self.apps.len()
            invariant
                i <= self.apps@.len(),
                self.wf(),
                target@ == name@,
                forall|j: int| 0 <= j < i ==> self.apps@[j].name@ != name@,
            decreases self.apps.len() - i,
        {
            let n = chars_of(self.apps[i].name.as_str());
            if eq(&n, &target) {
                proof {
                    assert(self@[i as int].0 == name@);
                    lemma_find_name_unique(self@, name@, i as int);
                }
                return Some(i);
            }
            i = i + 1;
        }
        proof {
            assert(!exists|j: int| 0 <= j < self@.len() && self@[j].0 == name@) by {
                assert forall|j: int| 0 <= j < self@.len() implies self@[j].0 != name@ by {
                    assert(self@[j].0 == self.apps@[j].name@);
                }
            }
        }
        None
    }

    /// The state recorded for `name`.
    pub fn get(&self, name: &str) -> (r: Option<&AppState>)
        requires
            self.wf(),
        ensures
            match lookup(self@, name@) {
                Some(st) => r matches Some(x) && x@ == st,
                None => r is None,
            },
    {
        match self.position(name) {
            Some(i) => {
                assert(self@[i as int].1 == self.apps@[i as int].state@);
                Some(&self.apps[i].state)
            },
            None => None,
        }
    }

    /// The state recorded for `name`, created empty when missing.
    pub fn get_mut(&mut self, name: &str) -> (r: &mut AppState)
        requires
            old(self).wf(),
        ensures
            ({
                let base = match find_name(old(self)@, name@) {
                    Some(_) => old(self)@,
                    None => old(self)@.push((name@, empty_app_state())),
                };
                let i = match find_name(old(self)@, name@) {
                    Some(i) => i,
                    None => old(self)@.len() as int,
                };
                &&& (*r)@ == base[i].1
                &&& final(self)@ == base.update(i, (name@, (*final(r))@))
                &&& unique_names(base.update(i, (name@, (*final(r))@)))
            }),
    {
        let ghost old_view = self@;
        let idx = match self.position(name) {
            Some(i) => {
                proof {
                    assert(self@[i as int].0 == name@);
                }
                i
            },
            None => {
                let ghost before = self@;
                proof {
                    assert(forall|j: int| 0 <= j < before.len() ==> before[j].0 != name@);
                }
                self.apps.push(AppEntry { name: String::from_str(name), state: AppState::default() });
                proof {
                    assert(self@ =~= before.push((name@, empty_app_state())));
                    assert(unique_names(self@)) by {
                        assert forall|a: int, b: int|
                            0 <= a < b < self@.len() implies self@[a].0 != self@[b].0 by {
                            if b == before.len() {
                                assert(self@[a] == before[a]);
                            } else {
                                assert(self@[a] == before[a]);
                                assert(self@[b] == before[b]);
                            }
                        }
                    }
                }
                self.apps.len() - 1
            },
        };
        proof {
            assert(self@[idx as int].0 == name@);
            assert(self@[idx as int].1 == self.apps@[idx as int].state@);
        }
        proof {
            lemma_unique_update(self@, idx as int);
        }
        let entry = &mut self.apps[idx];
        &mut entry.state
    }
}

/// The entries after `get_mut(name)` handed out a state that was then set to `st`.
pub open spec fn written(v: Seq<(Seq<char>, AppStateView)>, name: Seq<char>, st: AppStateView) -> Seq<(Seq<char>, AppStateView)> {
    let base = match find_name(v, name) {
        Some(_) => v,
        None => v.push((name, empty_app_state())),
    };
    let i = match find_name(v, name) {
        Some(i) => i,
        None => v.len() as int,
    };
    base.update(i, (name, st))
}

/// A read gives back what a write through `get_mut` left, and no other
/// application's state changes.
pub proof fn law_read_after_write(v: Seq<(Seq<char>, AppStateView)>, name: Seq<char>, st: AppStateView, other: Seq<char>)
    requires
        unique_names(v),
    ensures
        unique_names(written(v, name, st)),
        lookup(written(v, name, st), name) == Some(st),
        other != name ==> lookup(written(v, name, st), other) == lookup(v, other),
{
    let w = written(v, name, st);
    let base = match find_name(v, name) {
        Some(_) => v,
        None => v.push((name, empty_app_state())),
    };
    let i = match find_name(v, name) {
        Some(i) => i,
        None => v.len() as int,
    };
    match find_name(v, name) {
        Some(k) => {
            assert(0 <= k < v.len() && v[k].0 == name);
        },
        None => {
            assert forall|a: int, b: int| 0 <= a < b < base.len() implies base[a].0 != base[b].0 by {
                if b == v.len() {
                    assert(base[a] == v[a]);
                    assert(!(0 <= a < v.len() && v[a].0 == name));
                } else {
                    assert(base[a] == v[a] && base[b] == v[b]);
                }
            }
        },
    }
    assert(unique_names(base));
    assert(base[i].0 == name);
    lemma_unique_update(base, i);
    assert(unique_names(w));
    lemma_find_name_unique(w, name, i);
    if other != name {
        if exists|j: int| 0 <= j < v.len() && v[j].0 == other {
            let j = choose|j: int| 0 <= j < v.len() && v[j].0 == other;
            assert(j != i);
            assert(w[j] == v[j]);
            lemma_find_name_unique(w, other, j);
            lemma_find_name_unique(v, other, j);
        } else {
            assert forall|j: int| 0 <= j < w.len() implies w[j].0 != other by {
                if j < v.len() && j != i {
                    assert(w[j] == v[j]);
                }
            }
        }
    }
}

/// The entries after the one named `name`, if any, is removed.
pub open spec fn removed(v: Seq<(Seq<char>, AppStateView)>, name: Seq<char>) -> Seq<(Seq<char>, AppStateView)> {
    match find_name(v, name) {
        Some(i) => v.remove(i),
        None => v,
    }
}

/// After a removal, nothing is recorded for the removed application and every other
/// application's state is what it was; names stay unique.
pub proof fn law_remove_forgets(v: Seq<(Seq<char>, AppStateView)>, name: Seq<char>, other: Seq<char>)
    requires
        unique_names(v),
    ensures
        unique_names(removed(v, name)),
        lookup(removed(v, name), name) is None,
        other != name ==> lookup(removed(v, name), other) == lookup(v, other),
{
    let w = removed(v, name);
    match find_name(v, name) {
        Some(i) => {
            assert(0 <= i < v.len() && v[i].0 == name);
            assert forall|a: int| 0 <= a < w.len() implies #[trigger] w[a] == (if a < i { v[a] } else { v[a + 1] }) by {}
            assert forall|a: int, b: int| 0 <= a < b < w.len() implies w[a].0 != w[b].0 by {
                let a0 = if a < i { a } else { a + 1 };
                let b0 = if b < i { b } else { b + 1 };
                assert(w[a] == v[a0] && w[b] == v[b0]);
                assert(a0 < b0);
            }
            assert forall|j: int| 0 <= j < w.len() implies w[j].0 != name by {
                let j0 = if j < i { j } else { j + 1 };
                assert(w[j] == v[j0]);
                assert(j0 != i);
                if v[j0].0 == name {
                    if j0 < i {
                        assert(v[j0].0 != v[i].0);
                    } else {
                        assert(v[i].0 != v[j0].0);
                    }
                }
            }
            if other != name {
                if exists|k: int| 0 <= k < v.len() && v[k].0 == other {
                    let k = choose|k: int| 0 <= k < v.len() && v[k].0 == other;
                    assert(k != i);
                    let k2 = if k < i { k } else { k - 1 };
                    assert(w[k2] == v[k]);
                    lemma_find_name_unique(w, other, k2);
                    lemma_find_name_unique(v, other, k);
                } else {
                    assert forall|j: int| 0 <= j < w.len() implies w[j].0 != other by {
                        let j0 = if j < i { j } else { j + 1 };
                        assert(w[j] == v[j0]);
                    }
                }
            }
        },
        None => {
            assert(!exists|j: int| 0 <= j < v.len() && v[j].0 == name);
        },
    }
}

impl State {
    /// Forgets the application named `name`.
    pub fn remove(&mut self, name: &str)
        requires
            old(self).wf(),
        ensures
            final(self)@ == removed(old(self)@, name@),
            final(self).wf(),
    {
        proof {
            law_remove_forgets(self@, name@, name@);
        }
        match self.position(name) {
            Some(i) => {
                let ghost before = self.apps@;
                let ghost view_before = self@;
                self.apps.remove(i);
                assert(self@ =~= view_before.remove(i as int));
            },
            None => {},
        }
    }
}

/// The state cache and the file it is kept in.
pub struct StateManager {
    cache_path: String,
    pub state: State,
}

impl StateManager {
    /// A manager for `state`, kept at `cache_path`.
    pub fn new(cache_path: String, state: State) -> (r: StateManager)
        ensures
            r.cache_path() == cache_path@,
            r.cached() == state,
    {
        StateManager { cache_path, state }
    }

    /// The cached state.
    pub closed spec fn cached(&self) -> State {
        self.state
    }

    /// Where the cache is stored.
    pub closed spec fn cache_path(&self) -> Seq<char> {
        self.cache_path@
    }

    /// The cache file's path.
    pub fn cache_path_str(&self) -> (r: &str)
        ensures
            r@ == self.cache_path(),
    {
        self.cache_path.as_str()
    }

    /// The cached state of `name`, if any.
    pub fn get_app(&self, name: &str) -> (r: Option<&AppState>)
        requires
            self.cached().wf(),
        ensures
            match lookup(self.cached()@, name@) {
                Some(st) => r matches Some(x) && x@ == st,
                None => r is None,
            },
    {
        self.state.get(name)
    }

    /// Forgets the cached state of `name`.
    pub fn remove_app(&mut self, name: &str)
        requires
            old(self).cached().wf(),
        ensures
            final(self).cached()@ == removed(old(self).cached()@, name@),
            final(self).cached().wf(),
            final(self).cache_path() == old(self).cache_path(),
    {
        self.state.remove(name)
    }

    /// The cached state of `name`, created empty when missing.
    pub fn get_app_mut(&mut self, name: &str) -> (r: &mut AppState)
        requires
            old(self).cached().wf(),
        ensures
            (*r)@ == match lookup(old(self).cached()@, name@) {
                Some(st) => st,
                None => empty_app_state(),
            },
            final(self).cached()@ == written(old(self).cached()@, name@, (*final(r))@),
            final(self).cached().wf(),
            final(self).cache_path() == old(self).cache_path(),
            lookup(final(self).cached()@, name@) == Some((*final(r))@),
            forall|other: Seq<char>|
                other != name@ ==> #[trigger] lookup(final(self).cached()@, other) == lookup(old(self).cached()@, other),
    {
        proof {
            let v = self.state@;
            assert forall|st: AppStateView, other: Seq<char>|
                #![trigger lookup(written(v, name@, st), other)]
                lookup(written(v, name@, st), name@) == Some(st) && (other != name@ ==> lookup(written(v, name@, st), other)
                    == lookup(v, other)) by {
                law_read_after_write(v, name@, st, other);
            }
            assert forall|st: AppStateView| #[trigger] lookup(written(v, name@, st), name@) == Some(st) by {
                law_read_after_write(v, name@, st, name@);
            }
        }
        let r = self.state.get_mut(name);
        r
    }
}

} // verus!
