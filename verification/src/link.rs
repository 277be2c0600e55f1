//! The link reconciler: what a change of the registry's linked paths means
//! for the hosts file and the proxy.
//!
//! The reconciler keeps the linked paths that it saw last. When the registry
//! was written, it compares them with the paths that the registry holds now:
//! a path that is new gets its host entry, a path that is gone loses it, and
//! after each the proxy reloads. It never touches a virtual-host file.

use vstd::prelude::*;
use crate::hosts::{HostAction, HostChange};
use crate::path::{file_name, file_name_of};
use crate::path_set::{
    first_occurrences, lemma_first_occurrences, lemma_outside_of, outside_of, PathSet,
};
use crate::text::texts;
use crate::watch::EventKind;

verus! {

/// How long the reconciler waits after a change of the registry before it
/// reads the file, in milliseconds.
pub const DEBOUNCE_MILLIS: u64 = 100;

/// One step of a reconciliation, as text: the model of a `LinkAction`.
pub enum LinkStep {
    /// The hosts file changes.
    Host(HostChange),
    /// The proxy reloads its configuration.
    ReloadProxy,
}

/// One step of a reconciliation.
#[derive(Debug, Clone, PartialEq, Eq)]
pub enum LinkAction {
    /// Change the hosts file.
    Host(HostAction),
    /// Have the proxy reload its configuration.
    ReloadProxy,
}

impl View for LinkAction {
    type V = LinkStep;

    open spec fn view(&self) -> LinkStep {
        match self {
            LinkAction::Host(action) => LinkStep::Host(action@),
            LinkAction::ReloadProxy => LinkStep::ReloadProxy,
        }
    }
}

/// The models of a list of actions.
pub open spec fn steps(actions: Seq<LinkAction>) -> Seq<LinkStep> {
    actions.map_values(|action: LinkAction| action@)
}

/// The paths of `current` that `previous` does not hold, in their order.
pub open spec fn added_paths(previous: Seq<Seq<char>>, current: Seq<Seq<char>>) -> Seq<
    Seq<char>,
> {
    outside_of(current, previous.to_set())
}

/// The paths of `previous` that `current` does not hold, in their order.
pub open spec fn removed_paths(previous: Seq<Seq<char>>, current: Seq<Seq<char>>) -> Seq<
    Seq<char>,
> {
    outside_of(previous, current.to_set())
}

/// The steps for paths that were linked: for each path that ends in a name,
/// the host entry of that name is added and the proxy reloads. A path that
/// ends in no name is passed over.
pub open spec fn link_steps(added: Seq<Seq<char>>) -> Seq<LinkStep>
    decreases added.len(),
{
    if added.len() == 0 {
        Seq::empty()
    } else {
        let front = link_steps(added.drop_last());
        match file_name(added.last()) {
            Some(name) => front.push(LinkStep::Host(HostChange::Add(name))).push(
                LinkStep::ReloadProxy,
            ),
            None => front,
        }
    }
}

/// The steps for paths that were unlinked: for each path that ends in a
/// name, the host entries of that name are removed and the proxy reloads. A
/// path that ends in no name is passed over.
pub open spec fn unlink_steps(removed: Seq<Seq<char>>) -> Seq<LinkStep>
    decreases removed.len(),
{
    if removed.len() == 0 {
        Seq::empty()
    } else {
        let front = unlink_steps(removed.drop_last());
        match file_name(removed.last()) {
            Some(name) => front.push(LinkStep::Host(HostChange::Remove(name))).push(
                LinkStep::ReloadProxy,
            ),
            None => front,
        }
    }
}

/// The steps that bring the hosts file and the proxy from the linked paths
/// `previous` to the linked paths `current`: first those of the added
/// paths, then those of the removed ones.
pub open spec fn steps_between(previous: Seq<Seq<char>>, current: Seq<Seq<char>>) -> Seq<
    LinkStep,
> {
    link_steps(added_paths(previous, current)) + unlink_steps(removed_paths(previous, current))
}

/// The added paths are those that `current` holds and `previous` does not,
/// the removed paths those that `previous` holds and `current` does not;
/// where the two lists name no path twice, neither do the added and the
/// removed paths.
pub proof fn law_diff_is_set_difference(previous: Seq<Seq<char>>, current: Seq<Seq<char>>)
    ensures
        added_paths(previous, current).to_set() == current.to_set().difference(
            previous.to_set(),
        ),
        removed_paths(previous, current).to_set() == previous.to_set().difference(
            current.to_set(),
        ),
        current.no_duplicates() ==> added_paths(previous, current).no_duplicates(),
        previous.no_duplicates() ==> removed_paths(previous, current).no_duplicates(),
{
    lemma_outside_of(current, previous.to_set());
    lemma_outside_of(previous, current.to_set());
}

/// Where the registry holds the paths that were seen last, in whatever
/// order, nothing is to be done.
pub proof fn law_same_paths_need_no_step(previous: Seq<Seq<char>>, current: Seq<Seq<char>>)
    requires
        previous.to_set() == current.to_set(),
    ensures
        steps_between(previous, current) == Seq::<LinkStep>::empty(),
{
    lemma_outside_of(current, previous.to_set());
    lemma_outside_of(previous, current.to_set());
    let added = added_paths(previous, current);
    let removed = removed_paths(previous, current);
    assert(added.len() == 0) by {
        if added.len() > 0 {
            assert(added.to_set().contains(added[0])) by {
                assert(added.contains(added[0]));
            }
        }
    }
    assert(removed.len() == 0) by {
        if removed.len() > 0 {
            assert(removed.to_set().contains(removed[0])) by {
                assert(removed.contains(removed[0]));
            }
        }
    }
    assert(steps_between(previous, current) =~= Seq::<LinkStep>::empty());
}

/// Appends the steps for the paths of `paths` to `actions`: the host action
/// that `adding` selects, then a reload, for each path that ends in a name.
fn push_steps(actions: &mut Vec<LinkAction>, paths: &PathSet, adding: bool)
    ensures
        steps(final(actions)@) == steps(old(actions)@) + if adding {
            link_steps(paths.list())
        } else {
            unlink_steps(paths.list())
        },
{
    let n = paths.len();
    let mut i: usize = 0;
    proof {
        assert(steps(actions@) + Seq::<LinkStep>::empty() =~= steps(actions@));
    }
    while i < n
        invariant
            i <= n,
            n == paths.list().len(),
            steps(actions@) == steps(old(actions)@) + if adding {
                link_steps(paths.list().take(i as int))
            } else {
                unlink_steps(paths.list().take(i as int))
            },
        decreases n - i,
    {
        let path = match paths.get(i) {
            Some(path) => path,
            None => {
                return;
            },
        };
        let ghost before = paths.list().take(i as int);
        let ghost next = paths.list().take(i + 1);
        proof {
            assert(next.drop_last() =~= before);
            assert(next.last() == path@);
        }
        match file_name_of(path) {
            Some(name) => {
                let ghost done = steps(actions@);
                let ghost change = if adding {
                    HostChange::Add(name@)
                } else {
                    HostChange::Remove(name@)
                };
                if adding {
                    actions.push(LinkAction::Host(HostAction::Add(name)));
                } else {
                    actions.push(LinkAction::Host(HostAction::Remove(name)));
                }
                actions.push(LinkAction::ReloadProxy);
                proof {
                    assert(steps(actions@) =~= done.push(LinkStep::Host(change)).push(
                        LinkStep::ReloadProxy,
                    ));
                }
            },
            None => {},
        }
        i += 1;
    }
    proof {
        assert(paths.list().take(n as int) =~= paths.list());
    }
}

/// The reconciler of the registry's linked paths.
pub struct LinkReconciler {
    previous: PathSet,
}

impl LinkReconciler {
    /// The linked paths that the reconciler saw last, each once, in the
    /// order in which the registry named them.
    pub closed spec fn snapshot(&self) -> Seq<Seq<char>> {
        self.previous.list()
    }

    /// A reconciler that has seen the linked paths `initial`, or none where
    /// the registry could not be read.
    pub fn new(initial: Option<Vec<String>>) -> (reconciler: Self)
        ensures
            reconciler.snapshot() == match initial {
                Some(paths) => first_occurrences(texts(paths@)),
                None => Seq::<Seq<char>>::empty(),
            },
    {
        match initial {
            Some(paths) => LinkReconciler { previous: PathSet::from_vec(paths) },
            None => LinkReconciler { previous: PathSet::new() },
        }
    }

    /// The linked paths that the reconciler saw last.
    pub fn previous_paths(&self) -> (paths: Vec<String>)
        ensures
            texts(paths@) == self.snapshot(),
    {
        self.previous.to_vec()
    }

    /// Whether an event of this kind in the registry's directory makes the
    /// reconciler read the registry again: every modification does.
    pub fn reacts_to(kind: EventKind) -> (reacts: bool)
        ensures
            reacts == (kind == EventKind::Modify || kind == EventKind::RenameFrom || kind
                == EventKind::RenameTo),
    {
        match kind {
            EventKind::Modify => true,
            EventKind::RenameFrom => true,
            EventKind::RenameTo => true,
            EventKind::Create => false,
            EventKind::Remove => false,
            EventKind::Other => false,
        }
    }

    /// Takes up what the registry holds after a change and returns the steps
    /// to perform, in their order.
    ///
    /// `loaded` is the list of linked paths as read from the registry, or
    /// nothing where the registry could not be read. Without a list nothing
    /// is done and the reconciler keeps what it saw last. With a list, the
    /// steps are those between the last list and this one, and this list is
    /// what the reconciler has seen last from then on, whether or not a step
    /// was needed.
    pub fn on_registry_change(&mut self, loaded: Option<Vec<String>>) -> (actions: Vec<LinkAction>)
        ensures
            match loaded {
                Some(paths) => {
                    &&& steps(actions@) == steps_between(
                        old(self).snapshot(),
                        first_occurrences(texts(paths@)),
                    )
                    &&& final(self).snapshot() == first_occurrences(texts(paths@))
                    &&& final(self).snapshot().to_set() == texts(paths@).to_set()
                },
                None => {
                    &&& steps(actions@) == Seq::<LinkStep>::empty()
                    &&& final(self).snapshot() == old(self).snapshot()
                },
            },
    {
        let mut actions: Vec<LinkAction> = Vec::new();
        assert(steps(actions@) =~= Seq::<LinkStep>::empty());
        match loaded {
            Some(paths) => {
                let current = PathSet::from_vec(paths);
                let added = current.difference(&self.previous);
                let removed = self.previous.difference(&current);
                push_steps(&mut actions, &added, true);
                push_steps(&mut actions, &removed, false);
                proof {
                    assert(steps(actions@) =~= steps_between(
                        old(self).snapshot(),
                        first_occurrences(texts(paths@)),
                    ));
                    lemma_first_occurrences(texts(paths@));
                }
                self.previous = current;
            },
            None => {},
        }
        actions
    }
}

} // verus!
