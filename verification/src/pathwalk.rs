use vstd::prelude::*;

verus! {

/// The kind of one component of a path.
#[derive(Clone, Copy, Debug, PartialEq, Eq, Structural)]
pub enum Component {
    /// A prefix such as a drive letter.
    Prefix,
    /// The root of the tree.
    RootDir,
    /// The directory itself, written as one dot.
    CurDir,
    /// The directory above, written as two dots.
    ParentDir,
    /// A name.
    Normal,
}

/// The directories on the way from the root after one more component of a path.
///
/// A name leads into what its lookup found, and leaves the way as it is where nothing was
/// found. Two dots lead one directory up, but never above the root. Any other component leads
/// nowhere.
pub open spec fn walk_step(way: Seq<u64>, component: Component, found: Option<u64>) -> Seq<u64> {
    match component {
        Component::Normal => match found {
            Some(fid) => way.push(fid),
            None => way,
        },
        Component::ParentDir => if way.len() > 1 {
            way.drop_last()
        } else {
            way
        },
        _ => way,
    }
}

/// Whether a walk can go on after a component: not after a name that was not found.
pub open spec fn walk_goes_on(component: Component, found: Option<u64>) -> bool {
    !(component is Normal && found is None)
}

/// The way from the root of a file system to a file: the identifiers of the directories that
/// lead to it, the root first, and the file itself last.
///
/// The walk looks nothing up. For each name of the path, `lookup_dir` says in which directory
/// the name is to be looked up, and `step` takes what was found.
pub struct FidPath {
    root: u64,
    below: Vec<u64>,
}

impl View for FidPath {
    type V = Seq<u64>;

    closed spec fn view(&self) -> Seq<u64> {
        seq![self.root] + self.below@
    }
}

impl FidPath {
    /// The way that starts and ends at `root`.
    pub fn new(root: u64) -> (way: FidPath)
        ensures
            way@ == seq![root],
    {
        let way = FidPath { root, below: Vec::new() };
        assert(way@ =~= seq![root]);
        way
    }

    /// The file or directory that the way has reached. A way is never empty.
    pub fn last(&self) -> (fid: u64)
        ensures
            self@.len() >= 1,
            fid == self@.last(),
    {
        if self.below.len() > 0 {
            self.below[self.below.len() - 1]
        } else {
            self.root
        }
    }

    /// The directory in which `component` is to be looked up: the one that the way has
    /// reached, for a name, and none for any other component.
    pub fn lookup_dir(&self, component: Component) -> (dir: Option<u64>)
        ensures
            self@.len() >= 1,
            component is Normal ==> dir == Some(self@.last()),
            !(component is Normal) ==> dir is None,
    {
        match component {
            Component::Normal => Some(self.last()),
            _ => None,
        }
    }

    /// Goes one component further, where `found` is what the lookup of a name found. The
    /// result says whether the walk can go on: it cannot after a name that was not found.
    pub fn step(&mut self, component: Component, found: Option<u64>) -> (goes_on: bool)
        ensures
            final(self)@ == walk_step(old(self)@, component, found),
            goes_on == walk_goes_on(component, found),
            final(self)@.len() >= 1,
    {
        match component {
            Component::Normal => match found {
                Some(fid) => {
                    self.below.push(fid);
                    assert(self@ =~= old(self)@.push(fid));
                    true
                },
                None => false,
            },
            Component::ParentDir => {
                if self.below.len() > 0 {
                    self.below.pop();
                    assert(self@ =~= old(self)@.drop_last());
                }
                true
            },
            _ => true,
        }
    }
}

} // verus!
