use crate::transactions::{qualified, qualify};
use vstd::prelude::*;
use vstd::string::{StrSliceExecFns, StringExecFns};

verus! {

/// One entry of a directory listing of the remote store.
pub struct DirEntry {
    pub name: String,
    pub object_type: String,
    pub size: u64,
    pub last_modified: String,
}

/// What a listing tells of a file: its kind, its size and when it was last modified.
pub struct FileAttributes {
    /// "directory", "file", "symlink", "branch" or "repo".
    pub ftype: String,
    pub size: usize,
    pub last_modified: String,
}

/// The kind of file that the remote store means by `object_type`. Whatever the store does not
/// name otherwise counts as a file.
pub open spec fn file_type_name(object_type: Seq<char>) -> Seq<char> {
    if object_type == "dir"@ {
        "directory"@
    } else if object_type == "blob"@ {
        "file"@
    } else if object_type == "blob+exec"@ {
        "file"@
    } else if object_type == "link"@ {
        "symlink"@
    } else if object_type == "branch"@ {
        "branch"@
    } else if object_type == "repo"@ {
        "repo"@
    } else {
        "file"@
    }
}

/// Codes of the file types of a mounted file system.
pub const NF3REG: u32 = 1;

pub const NF3DIR: u32 = 2;

pub const NF3LNK: u32 = 5;

/// The kind of file that a mounted file system means by the type code `ftype`.
pub open spec fn mounted_type_name(ftype: u32) -> Seq<char> {
    if ftype == NF3REG {
        "file"@
    } else if ftype == NF3DIR {
        "directory"@
    } else if ftype == NF3LNK {
        "symlink"@
    } else {
        "other"@
    }
}

/// A path as it is handed to the remote store for a listing: without one slash at its end,
/// and then without one slash at its start.
pub open spec fn listing_path(path: Seq<char>) -> Seq<char> {
    let head = if path.len() > 0 && path.last() == '/' {
        path.drop_last()
    } else {
        path
    };
    if head.len() > 0 && head[0] == '/' {
        head.drop_first()
    } else {
        head
    }
}

/// The name under which an entry of the directory `path` is listed: the name alone at the top
/// of the tree, and the path, a slash and the name below it.
pub open spec fn listed_name(path: Seq<char>, name: Seq<char>) -> Seq<char> {
    if path.len() == 0 {
        name
    } else {
        qualified(path, name)
    }
}

/// Whether two strings hold the same characters.
fn same_text(a: &str, b: &str) -> (r: bool)
    ensures
        r == (a@ == b@),
{
    String::from_str(a) == String::from_str(b)
}

impl FileAttributes {
    /// The attributes that a listing entry of the remote store stands for.
    pub fn from(ent: &DirEntry) -> (attrs: FileAttributes)
        ensures
            attrs.ftype@ == file_type_name(ent.object_type@),
            attrs.size == ent.size as usize,
            attrs.last_modified@ == ent.last_modified@,
    {
        let object_type: &str = ent.object_type.as_str();
        let ftype: &str = if same_text(object_type, "dir") {
            "directory"
        } else if same_text(object_type, "blob") {
            "file"
        } else if same_text(object_type, "blob+exec") {
            "file"
        } else if same_text(object_type, "link") {
            "symlink"
        } else if same_text(object_type, "branch") {
            "branch"
        } else if same_text(object_type, "repo") {
            "repo"
        } else {
            "file"
        };
        FileAttributes {
            ftype: String::from_str(ftype),
            size: #[verifier::truncate]
            (ent.size as usize),
            last_modified: ent.last_modified.clone(),
        }
    }

    /// The attributes of a file of a mounted file system, from its type code and its size. Such
    /// a file has no modification time to show.
    pub fn from_mounted(ftype: u32, size: u64) -> (attrs: FileAttributes)
        ensures
            attrs.ftype@ == mounted_type_name(ftype),
            attrs.size == size as usize,
            attrs.last_modified@ == Seq::<char>::empty(),
    {
        let name: &str = if ftype == NF3REG {
            "file"
        } else if ftype == NF3DIR {
            "directory"
        } else if ftype == NF3LNK {
            "symlink"
        } else {
            "other"
        };
        FileAttributes {
            ftype: String::from_str(name),
            size: #[verifier::truncate]
            (size as usize),
            last_modified: String::new(),
        }
    }
}

/// Strips one slash from the end of `path`, and then one from its start.
pub fn strip_listing_path(path: &str) -> (stripped: &str)
    ensures
        stripped@ == listing_path(path@),
{
    let len: usize = path.unicode_len();
    let end: usize = if len > 0 && path.get_char(len - 1) == '/' {
        len - 1
    } else {
        len
    };
    let start: usize = if end > 0 && path.get_char(0) == '/' {
        1
    } else {
        0
    };
    proof {
        let head = path@.subrange(0, end as int);
        assert(end == len ==> head =~= path@);
        assert(end < len ==> head =~= path@.drop_last());
        assert(start == 0 ==> path@.subrange(0, end as int) =~= head);
        assert(start == 1 ==> path@.subrange(1, end as int) =~= head.drop_first());
    }
    path.substring_char(start, end)
}

/// Names the entries of a listing of the directory `path`, and gives the attributes of each.
///
/// `path` is the path that the listing was asked for, as `strip_listing_path` returns it.
pub fn listdir(path: &str, listing: &Vec<DirEntry>) -> (r: (Vec<String>, Vec<FileAttributes>))
    ensures
        r.0.len() == listing.len(),
        r.1.len() == listing.len(),
        forall|i: int|
            0 <= i < listing.len() ==> (#[trigger] r.0[i])@ == listed_name(
                path@,
                listing[i].name@,
            ),
        forall|i: int|
            0 <= i < listing.len() ==> {
                &&& (#[trigger] r.1[i]).ftype@ == file_type_name(listing[i].object_type@)
                &&& r.1[i].size == listing[i].size as usize
                &&& r.1[i].last_modified@ == listing[i].last_modified@
            },
{
    let mut ret_names: Vec<String> = Vec::new();
    let mut ret_attrs: Vec<FileAttributes> = Vec::new();
    let at_top: bool = path.unicode_len() == 0;
    let mut i: usize = 0;
    while i < listing.len()
        invariant
            i <= listing.len(),
            at_top == (path@.len() == 0),
            ret_names@.len() == i,
            ret_attrs@.len() == i,
            forall|j: int|
                0 <= j < i ==> (#[trigger] ret_names@[j])@ == listed_name(path@, listing[j].name@),
            forall|j: int|
                0 <= j < i ==> {
                    &&& (#[trigger] ret_attrs@[j]).ftype@ == file_type_name(
                        listing[j].object_type@,
                    )
                    &&& ret_attrs@[j].size == listing[j].size as usize
                    &&& ret_attrs@[j].last_modified@ == listing[j].last_modified@
                },
        decreases listing.len() - i,
    {
        let ent: &DirEntry = &listing[i];
        let name = if at_top {
            ent.name.clone()
        } else {
            qualify(path, ent.name.as_str())
        };
        ret_names.push(name);
        ret_attrs.push(FileAttributes::from(ent));
        i += 1;
    }
    (ret_names, ret_attrs)
}

} // verus!
