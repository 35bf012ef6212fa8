//! The bookkeeping of a live preview: the editor's unsaved file contents, the
//! files that the current preview was compiled from, and the decisions taken
//! around each reload. Compiling, showing windows and sending messages are left
//! to the caller, which acts on the values returned here.
use vstd::prelude::*;

verus! {

/// What to do with the preview window once a reload has compiled.
pub enum PostLoadBehavior {
    ShowAfterLoad,
    DoNothing,
}

/// The health reported with a status message.
#[derive(PartialEq, Eq, Structural)]
pub enum Health {
    Good,
    Error,
}

/// The stages of a reload that are reported to the editor.
#[derive(PartialEq, Eq, Structural)]
pub enum PreviewStatus {
    Loading,
    Loaded,
    NotUpdated,
}

/// What the caller does with a freshly compiled component.
#[derive(PartialEq, Eq, Structural)]
pub enum PreviewAction {
    /// No window exists yet: create one and show it.
    CreateAndShow,
    /// Reuse the existing window and show it.
    ReuseWindowAndShow,
    /// Reuse the existing window and leave it as it is.
    ReuseWindow,
}

/// A reload that the caller must start: compile `root` and report through `sender`.
pub struct ReloadRequest<S> {
    pub root: String,
    pub sender: S,
}

/// The file contents known to the preview, keyed by path, and the state of the
/// current preview. `S` is the channel through which progress is reported.
pub struct ContentCache<S> {
    source_code: Vec<(String, String)>,
    dependency: Vec<String>,
    current_root: String,
    sender: Option<S>,
}

impl<S> ContentCache<S> {
    /// The file contents, by path.
    pub closed spec fn sources(&self) -> Map<Seq<char>, Seq<char>> {
        Map::new(
            |k: Seq<char>| exists|i: int| 0 <= i < self.source_code@.len() && self.source_code@[i].0@ == k,
            |k: Seq<char>|
                self.source_code@[choose|i: int|
                    0 <= i < self.source_code@.len() && self.source_code@[i].0@ == k].1@,
        )
    }

    /// The paths that the current preview was compiled from.
    pub closed spec fn dependencies(&self) -> Set<Seq<char>> {
        Set::new(|k: Seq<char>| exists|i: int| 0 <= i < self.dependency@.len() && self.dependency@[i]@ == k)
    }

    /// The path of the file that the current preview shows.
    pub closed spec fn root(&self) -> Seq<char> {
        self.current_root@
    }

    /// The channel of the last finished reload, when no reload has taken it since.
    pub closed spec fn channel(&self) -> Option<S> {
        self.sender
    }

    /// No path is listed twice, neither among the contents nor among the dependencies.
    pub closed spec fn wf(&self) -> bool {
        &&& forall|i: int, j: int|
            0 <= i < j < self.source_code@.len() ==> self.source_code@[i].0@ != self.source_code@[j].0@
        &&& forall|i: int, j: int|
            0 <= i < j < self.dependency@.len() ==> self.dependency@[i]@ != self.dependency@[j]@
    }

    /// A cache that knows no file, with an empty root and no channel.
    pub fn new() -> (r: Self)
        ensures
            r.wf(),
            r.sources() == Map::<Seq<char>, Seq<char>>::empty(),
            r.dependencies() == Set::<Seq<char>>::empty(),
            r.root() == Seq::<char>::empty(),
            r.channel() is None,
    {
        let r = ContentCache {
            source_code: Vec::new(),
            dependency: Vec::new(),
            current_root: String::new(),
            sender: None,
        };
        assert(r.sources() =~= Map::<Seq<char>, Seq<char>>::empty());
        assert(r.dependencies() =~= Set::<Seq<char>>::empty());
        r
    }

    /// Records `content` as the contents of `path`.
    fn store_source(&mut self, path: String, content: String)
        requires
            old(self).wf(),
        ensures
            final(self).wf(),
            final(self).sources() == old(self).sources().insert(path@, content@),
            final(self).dependencies() == old(self).dependencies(),
            final(self).root() == old(self).root(),
            final(self).channel() == old(self).channel(),
    {
        let ghost before = self.sources();
        let ghost key = path@;
        let ghost value = content@;
        let ghost mut at: int = 0;
        match self.find_source(&path) {
            Some(i) => {
                self.source_code.set(i, (path, content));
                proof {
                    at = i as int;
                }
            },
            None => {
                self.source_code.push((path, content));
                proof {
                    at = self.source_code@.len() - 1;
                }
            },
        }
        assert(0 <= at < self.source_code@.len() && self.source_code@[at].0@ == key);
        assert forall|k: Seq<char>| #[trigger] self.sources().contains_key(k)
            <==> before.insert(key, value).contains_key(k) by {
            if k == key {
                assert(self.source_code@[at].0@ == k);
            }
            if before.contains_key(k) && k != key {
                let j = choose|j: int| 0 <= j < old(self).source_code@.len()
                    && old(self).source_code@[j].0@ == k;
                assert(self.source_code@[j].0@ == k);
            }
            if self.sources().contains_key(k) && k != key {
                let j = choose|j: int| 0 <= j < self.source_code@.len()
                    && self.source_code@[j].0@ == k;
                assert(old(self).source_code@[j].0@ == k);
            }
        }
        assert forall|k: Seq<char>| #[trigger] self.sources().contains_key(k)
            implies self.sources()[k] == before.insert(key, value)[k] by {
            let j = choose|j: int| 0 <= j < self.source_code@.len()
                && self.source_code@[j].0@ == k;
            if k != key {
                assert(old(self).source_code@[j].0@ == k);
            }
        }
        assert(self.sources() =~= before.insert(key, value));
        assert(self.dependencies() =~= old(self).dependencies());
    }

    /// Adds `path` to the dependencies.
    fn add_dependency(&mut self, path: String)
        requires
            old(self).wf(),
        ensures
            final(self).wf(),
            final(self).dependencies() == old(self).dependencies().insert(path@),
            final(self).sources() == old(self).sources(),
            final(self).root() == old(self).root(),
            final(self).channel() == old(self).channel(),
    {
        let ghost before = self.dependencies();
        let ghost key = path@;
        if !self.depends_on(&path) {
            self.dependency.push(path);
            let ghost n = self.dependency@.len() - 1;
            assert(self.dependency@[n]@ == key);
            assert forall|k: Seq<char>| #[trigger] self.dependencies().contains(k)
                <==> before.insert(key).contains(k) by {
                if before.contains(k) {
                    let j = choose|j: int| 0 <= j < old(self).dependency@.len()
                        && old(self).dependency@[j]@ == k;
                    assert(self.dependency@[j]@ == k);
                }
                if self.dependencies().contains(k) && k != key {
                    let j = choose|j: int| 0 <= j < self.dependency@.len()
                        && self.dependency@[j]@ == k;
                    assert(old(self).dependency@[j]@ == k);
                }
            }
            assert(self.dependencies() =~= before.insert(key));
            assert(self.sources() =~= old(self).sources());
        } else {
            assert(before.insert(key) =~= before);
        }
    }

    /// The first step of a reload of `root`: forgets the dependencies of the
    /// previous preview and makes `root` the file shown.
    pub fn begin_reload(&mut self, root: String)
        requires
            old(self).wf(),
        ensures
            final(self).wf(),
            final(self).dependencies() == Set::<Seq<char>>::empty(),
            final(self).root() == root@,
            final(self).sources() == old(self).sources(),
            final(self).channel() == old(self).channel(),
    {
        self.dependency.clear();
        self.current_root = root;
        assert(self.dependencies() =~= Set::<Seq<char>>::empty());
        assert(self.sources() =~= old(self).sources());
    }

    /// The last step of a reload: keeps `sender` for the next reload that a
    /// change of a dependency starts, and returns the channel kept before.
    pub fn finish_reload(&mut self, sender: S) -> (r: Option<S>)
        requires
            old(self).wf(),
        ensures
            final(self).wf(),
            final(self).channel() == Some(sender),
            r == old(self).channel(),
            final(self).sources() == old(self).sources(),
            final(self).dependencies() == old(self).dependencies(),
            final(self).root() == old(self).root(),
    {
        let r = self.sender.take();
        self.sender = Some(sender);
        assert(self.sources() =~= old(self).sources());
        assert(self.dependencies() =~= old(self).dependencies());
        r
    }

    /// The position of `path` among the contents.
    fn find_source(&self, path: &String) -> (r: Option<usize>)
        ensures
            r is Some ==> r.unwrap() < self.source_code@.len()
                && self.source_code@[r.unwrap() as int].0@ == path@,
            r is None ==> forall|i: int|
                0 <= i < self.source_code@.len() ==> self.source_code@[i].0@ != path@,
    {
        let mut i: usize = 0;
        while i < self.source_code.len()
            invariant
                i <= self.source_code@.len(),
                forall|k: int| 0 <= k < i ==> self.source_code@[k].0@ != path@,
            decreases self.source_code@.len() - i,
        {
            if self.source_code[i].0.eq(path) {
                return Some(i);
            }
            i = i + 1;
        }
        None
    }

    /// Whether `path` is among the dependencies.
    fn depends_on(&self, path: &String) -> (r: bool)
        ensures
            r == self.dependencies().contains(path@),
    {
        let mut i: usize = 0;
        while i < self.dependency.len()
            invariant
                i <= self.dependency@.len(),
                forall|k: int| 0 <= k < i ==> self.dependency@[k]@ != path@,
            decreases self.dependency@.len() - i,
        {
            if self.dependency[i].eq(path) {
                assert(self.dependency@[i as int]@ == path@);
                return true;
            }
            i = i + 1;
        }
        false
    }
}

/// Records `content` as the contents of `path`. When the current preview was
/// compiled from `path`, the kept channel is taken and a reload of the current
/// root through it is returned; a preview that has no channel yet, because its
/// first reload has not finished, is not reloaded.
pub fn set_contents<S>(cache: &mut ContentCache<S>, path: String, content: String) -> (r: Option<
    ReloadRequest<S>,
>)
    requires
        old(cache).wf(),
    ensures
        final(cache).wf(),
        final(cache).sources() == old(cache).sources().insert(path@, content@),
        final(cache).dependencies() == old(cache).dependencies(),
        final(cache).root() == old(cache).root(),
        old(cache).dependencies().contains(path@) ==> {
            &&& final(cache).channel() is None
            &&& r is Some <==> old(cache).channel() is Some
            &&& r is Some ==> r.unwrap().root@ == old(cache).root() && Some(r.unwrap().sender)
                == old(cache).channel()
        },
        !old(cache).dependencies().contains(path@) ==> r is None && final(cache).channel()
            == old(cache).channel(),
{
    let reload = cache.depends_on(&path);
    cache.store_source(path, content);
    if reload {
        let root = cache.current_root.clone();
        let taken = cache.sender.take();
        assert(cache.sources() =~= old(cache).sources().insert(path@, content@));
        assert(cache.dependencies() =~= old(cache).dependencies());
        match taken {
            Some(sender) => Some(ReloadRequest { root, sender }),
            None => None,
        }
    } else {
        None
    }
}

/// The contents of `path` when they are known, and in any case records `path`
/// as a dependency of the preview being compiled.
pub fn get_file_from_cache<S>(cache: &mut ContentCache<S>, path: String) -> (r: Option<String>)
    requires
        old(cache).wf(),
    ensures
        final(cache).wf(),
        r is Some <==> old(cache).sources().contains_key(path@),
        r is Some ==> r.unwrap()@ == old(cache).sources()[path@],
        final(cache).dependencies() == old(cache).dependencies().insert(path@),
        final(cache).sources() == old(cache).sources(),
        final(cache).root() == old(cache).root(),
        final(cache).channel() == old(cache).channel(),
{
    let r = match cache.find_source(&path) {
        Some(i) => {
            proof {
                let j = choose|j: int| 0 <= j < cache.source_code@.len()
                    && cache.source_code@[j].0@ == path@;
                assert(j == i);
            }
            Some(cache.source_code[i].1.clone())
        },
        None => None,
    };
    cache.add_dependency(path);
    r
}

/// The status reported once a reload has either compiled or failed to.
pub fn reload_outcome(compiled: bool) -> (r: PreviewStatus)
    ensures
        r == (if compiled {
            PreviewStatus::Loaded
        } else {
            PreviewStatus::NotUpdated
        }),
{
    if compiled {
        PreviewStatus::Loaded
    } else {
        PreviewStatus::NotUpdated
    }
}

/// How a freshly compiled component is shown: in a new window that is shown when
/// there is none yet, else in the existing window, which is shown only when asked.
pub fn preview_action(has_window: bool, behavior: PostLoadBehavior) -> (r: PreviewAction)
    ensures
        !has_window ==> r == PreviewAction::CreateAndShow,
        has_window && behavior is ShowAfterLoad ==> r == PreviewAction::ReuseWindowAndShow,
        has_window && behavior is DoNothing ==> r == PreviewAction::ReuseWindow,
{
    if !has_window {
        PreviewAction::CreateAndShow
    } else {
        match behavior {
            PostLoadBehavior::ShowAfterLoad => PreviewAction::ReuseWindowAndShow,
            PostLoadBehavior::DoNothing => PreviewAction::ReuseWindow,
        }
    }
}

impl PreviewStatus {
    /// The health reported with the status: only a failed reload is an error.
    pub fn health(&self) -> (r: Health)
        ensures
            r == (if *self is NotUpdated {
                Health::Error
            } else {
                Health::Good
            }),
    {
        match self {
            PreviewStatus::NotUpdated => Health::Error,
            _ => Health::Good,
        }
    }

    /// The text shown to the user for the status.
    pub fn message(&self) -> (r: &'static str)
        ensures
            *self is Loading ==> r@ == "Loading Preview\u{2026}"@,
            *self is Loaded ==> r@ == "Preview Loaded"@,
            *self is NotUpdated ==> r@ == "Preview not updated"@,
    {
        match self {
            PreviewStatus::Loading => "Loading Preview\u{2026}",
            PreviewStatus::Loaded => "Preview Loaded",
            PreviewStatus::NotUpdated => "Preview not updated",
        }
    }
}

impl<S> Default for ContentCache<S> {
    /// A cache that knows no file, with an empty root and no channel.
    fn default() -> (r: Self)
        ensures
            r.wf(),
            r.sources() == Map::<Seq<char>, Seq<char>>::empty(),
            r.dependencies() == Set::<Seq<char>>::empty(),
            r.root() == Seq::<char>::empty(),
            r.channel() is None,
    {
        ContentCache::new()
    }
}

} // verus!
