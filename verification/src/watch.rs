//! The watch reconciler: what a change below a watched directory means for
//! the hosts file.
//!
//! A directory that appears directly in the watched directory is a new
//! project, one that leaves it is a project removed. A rename comes as two
//! events: the old name leaves, the new name appears.

use vstd::prelude::*;
use crate::hosts::{HostAction, HostChange};
use crate::path::{
    file_name, file_name_of, is_child_of, is_child_path, is_plain_name, join,
    law_joined_path_lies_in_its_directory,
};

verus! {

/// What a file-system event reports.
#[derive(Debug, Clone, Copy, PartialEq, Eq, Structural)]
pub enum EventKind {
    /// Something was created.
    Create,
    /// Something was removed.
    Remove,
    /// Something was renamed; the event names what it was called before.
    RenameFrom,
    /// Something was renamed; the event names what it is called now.
    RenameTo,
    /// Something was modified in another way: its content, its metadata, or
    /// a rename that is not one of the two halves above.
    Modify,
    /// Any other event.
    Other,
}

/// A path named by an event, and whether a directory stood there when the
/// event was taken up.
#[derive(Debug, Clone, PartialEq, Eq)]
pub struct ObservedPath {
    pub path: String,
    pub is_dir: bool,
}

impl View for ObservedPath {
    type V = (Seq<char>, bool);

    open spec fn view(&self) -> (Seq<char>, bool) {
        (self.path@, self.is_dir)
    }
}

/// A file-system event below a watched directory.
#[derive(Debug, Clone, PartialEq, Eq)]
pub struct FsEvent {
    pub kind: EventKind,
    pub paths: Vec<ObservedPath>,
}

/// The model of an `FsEvent`.
pub struct FsEventView {
    pub kind: EventKind,
    pub paths: Seq<(Seq<char>, bool)>,
}

impl View for FsEvent {
    type V = FsEventView;

    open spec fn view(&self) -> FsEventView {
        FsEventView { kind: self.kind, paths: self.paths@.map_values(|p: ObservedPath| p@) }
    }
}

/// What the subscription of a watched directory handed over in one cycle.
#[derive(Debug, Clone, PartialEq, Eq)]
pub enum Observation {
    /// An event arrived.
    Changed(FsEvent),
    /// The subscription reported an error.
    Failed,
    /// Nothing arrived before the wait ran out.
    Quiet,
}

/// The project that `path` names in the watched directory `root`: the name
/// it ends in, where it lies directly in `root`.
pub open spec fn project_at(root: Seq<char>, path: Seq<char>) -> Option<Seq<char>> {
    if is_child_of(path, root) {
        file_name(path)
    } else {
        None
    }
}

/// The projects added by a creation of `paths`: one for each path that is a
/// directory and names a project of `root`, in the order of the paths.
pub open spec fn added_by(root: Seq<char>, paths: Seq<(Seq<char>, bool)>) -> Seq<HostChange>
    decreases paths.len(),
{
    if paths.len() == 0 {
        Seq::empty()
    } else {
        let front = added_by(root, paths.drop_last());
        let last = paths.last();
        if last.1 && project_at(root, last.0) is Some {
            front.push(HostChange::Add(project_at(root, last.0)->0))
        } else {
            front
        }
    }
}

/// The projects removed by a removal of `paths`: one for each path that
/// names a project of `root`, in the order of the paths.
pub open spec fn removed_by(root: Seq<char>, paths: Seq<(Seq<char>, bool)>) -> Seq<HostChange>
    decreases paths.len(),
{
    if paths.len() == 0 {
        Seq::empty()
    } else {
        let front = removed_by(root, paths.drop_last());
        let last = paths.last();
        if project_at(root, last.0) is Some {
            front.push(HostChange::Remove(project_at(root, last.0)->0))
        } else {
            front
        }
    }
}

/// The changes of the hosts file that `event`, seen below the watched
/// directory `root`, asks for.
///
/// A creation adds each directory that lies directly in `root`. A removal
/// removes each path that lies directly in `root`, directory or not: what is
/// gone cannot be looked at. The two halves of a rename speak of their first
/// path alone: the old name is removed, the new one added. Anything else
/// asks for nothing.
pub open spec fn changes_for(root: Seq<char>, event: FsEventView) -> Seq<HostChange> {
    match event.kind {
        EventKind::Create => added_by(root, event.paths),
        EventKind::Remove => removed_by(root, event.paths),
        EventKind::RenameFrom => if event.paths.len() > 0 && project_at(root, event.paths[0].0)
            is Some {
            seq![HostChange::Remove(project_at(root, event.paths[0].0)->0)]
        } else {
            Seq::empty()
        },
        EventKind::RenameTo => if event.paths.len() > 0 && project_at(root, event.paths[0].0)
            is Some {
            seq![HostChange::Add(project_at(root, event.paths[0].0)->0)]
        } else {
            Seq::empty()
        },
        EventKind::Modify => Seq::empty(),
        EventKind::Other => Seq::empty(),
    }
}

/// The changes that an observation asks for: those of its event, and none
/// where the subscription failed or stayed quiet.
pub open spec fn changes_observed(root: Seq<char>, seen: Observation) -> Seq<HostChange> {
    match seen {
        Observation::Changed(event) => changes_for(root, event@),
        Observation::Failed => Seq::empty(),
        Observation::Quiet => Seq::empty(),
    }
}

/// The models of a list of actions.
pub open spec fn changes(actions: Seq<HostAction>) -> Seq<HostChange> {
    actions.map_values(|action: HostAction| action@)
}

/// What lies directly in the watched directory under a plain name is the
/// project of that name: a directory `name` that appears in `root` gets the
/// host entry of `name`, and one that leaves `root` loses it.
pub proof fn law_child_of_root_is_project(root: Seq<char>, name: Seq<char>)
    requires
        is_plain_name(name),
        name != "."@,
        name != ".."@,
    ensures
        project_at(root, join(root, name)) == Some(name),
        changes_for(
            root,
            FsEventView { kind: EventKind::Create, paths: seq![(join(root, name), true)] },
        ) == seq![HostChange::Add(name)],
        changes_for(
            root,
            FsEventView { kind: EventKind::Remove, paths: seq![(join(root, name), false)] },
        ) == seq![HostChange::Remove(name)],
{
    law_joined_path_lies_in_its_directory(root, name);
    let created = seq![(join(root, name), true)];
    let removed = seq![(join(root, name), false)];
    assert(created.drop_last() =~= Seq::<(Seq<char>, bool)>::empty());
    assert(removed.drop_last() =~= Seq::<(Seq<char>, bool)>::empty());
    assert(added_by(root, created.drop_last()) =~= Seq::<HostChange>::empty());
    assert(removed_by(root, removed.drop_last()) =~= Seq::<HostChange>::empty());
    assert(added_by(root, created) =~= seq![HostChange::Add(name)]);
    assert(removed_by(root, removed) =~= seq![HostChange::Remove(name)]);
}

/// The name of the project that `path` names in the watched directory
/// `root`, if it names one.
pub fn project_name_at(root: &str, path: &str) -> (name: Option<String>)
    ensures
        name is Some <==> project_at(root@, path@) is Some,
        name matches Some(text) ==> Some(text@) == project_at(root@, path@),
{
    if is_child_path(path, root) {
        file_name_of(path)
    } else {
        None
    }
}

/// The reconciler of one watched directory.
pub struct WatchReconciler {
    root: String,
}

impl WatchReconciler {
    /// The watched directory.
    pub closed spec fn root_view(&self) -> Seq<char> {
        self.root@
    }

    /// A reconciler for the watched directory `root`.
    pub fn new(root: String) -> (reconciler: Self)
        ensures
            reconciler.root_view() == root@,
    {
        WatchReconciler { root }
    }

    /// The watched directory.
    pub fn root(&self) -> (root: &str)
        ensures
            root@ == self.root_view(),
    {
        self.root.as_str()
    }

    /// The changes of the hosts file that `event` asks for, in their order.
    pub fn on_event(&self, event: &FsEvent) -> (actions: Vec<HostAction>)
        ensures
            changes(actions@) == changes_for(self.root_view(), event@),
    {
        let root = self.root.as_str();
        let mut actions: Vec<HostAction> = Vec::new();
        assert(changes(actions@) =~= Seq::<HostChange>::empty());
        match event.kind {
            EventKind::Create => {
                return self.on_start(&event.paths);
            },
            EventKind::Remove => {
                let mut i: usize = 0;
                while i < event.paths.len()
                    invariant
                        i <= event.paths.len(),
                        root@ == self.root_view(),
                        changes(actions@) == removed_by(root@, event@.paths.take(i as int)),
                    decreases event.paths.len() - i,
                {
                    let seen = &event.paths[i];
                    let ghost before = event@.paths.take(i as int);
                    let ghost next = event@.paths.take(i + 1);
                    proof {
                        assert(next.drop_last() =~= before);
                        assert(next.last() == seen@);
                    }
                    match project_name_at(root, seen.path.as_str()) {
                        Some(name) => {
                            let ghost old_changes = changes(actions@);
                            let ghost change = HostChange::Remove(name@);
                            actions.push(HostAction::Remove(name));
                            proof {
                                assert(changes(actions@) =~= old_changes.push(change));
                            }
                        },
                        None => {},
                    }
                    i += 1;
                }
                proof {
                    assert(event@.paths.take(event.paths.len() as int) =~= event@.paths);
                }
            },
            EventKind::RenameFrom => {
                if event.paths.len() > 0 {
                    let seen = &event.paths[0];
                    assert(event@.paths[0] == seen@);
                    match project_name_at(root, seen.path.as_str()) {
                        Some(name) => {
                            let ghost change = HostChange::Remove(name@);
                            actions.push(HostAction::Remove(name));
                            proof {
                                assert(changes(actions@) =~= seq![change]);
                            }
                        },
                        None => {},
                    }
                }
            },
            EventKind::RenameTo => {
                if event.paths.len() > 0 {
                    let seen = &event.paths[0];
                    assert(event@.paths[0] == seen@);
                    match project_name_at(root, seen.path.as_str()) {
                        Some(name) => {
                            let ghost change = HostChange::Add(name@);
                            actions.push(HostAction::Add(name));
                            proof {
                                assert(changes(actions@) =~= seq![change]);
                            }
                        },
                        None => {},
                    }
                }
            },
            EventKind::Modify => {},
            EventKind::Other => {},
        }
        actions
    }

    /// The changes of the hosts file for what lies in the watched directory
    /// when watching starts: each directory directly in it is a project.
    pub fn on_start(&self, children: &Vec<ObservedPath>) -> (actions: Vec<HostAction>)
        ensures
            changes(actions@) == added_by(
                self.root_view(),
                children@.map_values(|p: ObservedPath| p@),
            ),
    {
        let root = self.root.as_str();
        let ghost seen_all = children@.map_values(|p: ObservedPath| p@);
        let mut actions: Vec<HostAction> = Vec::new();
        assert(changes(actions@) =~= Seq::<HostChange>::empty());
        let mut i: usize = 0;
        while i < children.len()
            invariant
                i <= children.len(),
                root@ == self.root_view(),
                seen_all == children@.map_values(|p: ObservedPath| p@),
                changes(actions@) == added_by(root@, seen_all.take(i as int)),
            decreases children.len() - i,
        {
            let seen = &children[i];
            let ghost before = seen_all.take(i as int);
            let ghost next = seen_all.take(i + 1);
            proof {
                assert(next.drop_last() =~= before);
                assert(next.last() == seen@);
            }
            if seen.is_dir {
                match project_name_at(root, seen.path.as_str()) {
                    Some(name) => {
                        let ghost old_changes = changes(actions@);
                        let ghost change = HostChange::Add(name@);
                        actions.push(HostAction::Add(name));
                        proof {
                            assert(changes(actions@) =~= old_changes.push(change));
                        }
                    },
                    None => {},
                }
            }
            i += 1;
        }
        proof {
            assert(seen_all.take(children.len() as int) =~= seen_all);
        }
        actions
    }

    /// The changes of the hosts file that one cycle of the watch loop asks
    /// for: those of the event that arrived, none after an error of the
    /// subscription or a quiet wait.
    pub fn on_observation(&self, seen: &Observation) -> (actions: Vec<HostAction>)
        ensures
            changes(actions@) == changes_observed(self.root_view(), *seen),
    {
        match seen {
            Observation::Changed(event) => self.on_event(event),
            Observation::Failed => {
                let actions: Vec<HostAction> = Vec::new();
                assert(changes(actions@) =~= Seq::<HostChange>::empty());
                actions
            },
            Observation::Quiet => {
                let actions: Vec<HostAction> = Vec::new();
                assert(changes(actions@) =~= Seq::<HostChange>::empty());
                actions
            },
        }
    }
}

} // verus!
