//! What a listing of an object store is made of.

use vstd::prelude::*;
use vstd::string::StringExecFns;
use crate::error::ErrorCode;
use crate::error::ErrorKind;

verus! {

/// What kind of thing an object of the store is.
#[derive(Clone, Copy, Debug, PartialEq, Eq, Structural)]
pub enum ObjectMode {
    FILE,
    DIR,
    Unknown,
}

/// An object of the store, as its metadata describe it.
#[derive(Debug, PartialEq, Eq)]
pub struct ObjectEntry {
    pub mode: ObjectMode,
    pub path: String,
}

/// The paths of the files among `entries`, in their order.
pub open spec fn file_paths(entries: Seq<ObjectEntry>) -> Seq<Seq<char>>
    decreases entries.len(),
{
    if entries.len() == 0 {
        Seq::empty()
    } else {
        let before = file_paths(entries.drop_last());
        if entries.last().mode == ObjectMode::FILE {
            before.push(entries.last().path@)
        } else {
            before
        }
    }
}

/// The files under `path`, which is of kind `mode` and, if it is a
/// directory, holds `entries`.
pub open spec fn listing(mode: ObjectMode, path: Seq<char>, entries: Seq<ObjectEntry>) -> Option<
    Seq<Seq<char>>,
> {
    match mode {
        ObjectMode::FILE => Some(seq![path]),
        ObjectMode::DIR => Some(file_paths(entries)),
        ObjectMode::Unknown => None,
    }
}

/// Access to an object store.
#[derive(Clone, Copy, Debug, PartialEq, Eq, Structural)]
pub struct S3File {}

impl S3File {
    /// The files under `path`: the path itself if it is a file; the files
    /// among `entries`, which are what the directory holds, if it is a
    /// directory. A path of another kind cannot be listed.
    pub fn list(mode: ObjectMode, path: &str, entries: &Vec<ObjectEntry>) -> (r: Result<
        Vec<String>,
        ErrorCode,
    >)
        ensures
            r is Ok <==> listing(mode, path@, entries@) is Some,
            r is Ok ==> r->Ok_0@.len() == listing(mode, path@, entries@)->Some_0.len(),
            r is Ok ==> forall|i: int|
                0 <= i < r->Ok_0@.len() ==> (#[trigger] r->Ok_0@[i])@ == listing(
                    mode,
                    path@,
                    entries@,
                )->Some_0[i],
            r is Err ==> r->Err_0.kind == ErrorKind::StorageOther && r->Err_0.message@
                == "S3 list() can not handle the object mode: Unknown"@,
    {
        let mut list: Vec<String> = Vec::new();
        match mode {
            ObjectMode::FILE => {
                list.push(String::from_str(path));
            },
            ObjectMode::DIR => {
                let mut i: usize = 0;
                while i < entries.len()
                    invariant
                        i <= entries@.len(),
                        list@.len() == file_paths(entries@.take(i as int)).len(),
                        forall|k: int|
                            0 <= k < list@.len() ==> (#[trigger] list@[k])@ == file_paths(
                                entries@.take(i as int),
                            )[k],
                    decreases entries@.len() - i,
                {
                    let ghost before = list@;
                    proof {
                        assert(entries@.take(i + 1).drop_last() =~= entries@.take(i as int));
                    }
                    if entries[i].mode == ObjectMode::FILE {
                        list.push(entries[i].path.clone());
                        proof {
                            assert forall|k: int| 0 <= k < list@.len() implies (#[trigger] list@[k])@
                                == file_paths(entries@.take(i + 1))[k] by {
                                if k < before.len() {
                                    assert(list@[k] == before[k]);
                                }
                            }
                        }
                    }
                    i += 1;
                }
                proof {
                    assert(entries@.take(i as int) =~= entries@);
                }
            },
            ObjectMode::Unknown => {
                return Err(
                    ErrorCode::new(
                        ErrorKind::StorageOther,
                        "S3 list() can not handle the object mode: Unknown",
                    ),
                );
            },
        }
        Ok(list)
    }
}

} // verus!
