//! Where the ROCm libraries are looked for.

use vstd::prelude::*;

use crate::error::Error;
use crate::scan::{self, begins};
use crate::text::chars_of;

verus! {

/// A path below another; an absolute path stands for itself.
pub open spec fn path_below(base: Seq<char>, leaf: Seq<char>) -> Seq<char> {
    if leaf.len() > 0 && leaf[0] == '/' {
        leaf
    } else if base.len() == 0 || base.last() == '/' {
        base + leaf
    } else {
        base + "/"@ + leaf
    }
}

fn join(base: &str, leaf: &str) -> (path: String)
    ensures
        path@ == path_below(base@, leaf@),
{
    let tail: Vec<char> = chars_of(leaf);
    if tail.len() > 0 && tail[0] == '/' {
        return leaf.to_owned();
    }
    let chars: Vec<char> = chars_of(base);
    let mut path: String = base.to_owned();
    if chars.len() > 0 && chars[chars.len() - 1] != '/' {
        path.append("/");
    }
    path.append(leaf);
    path
}

/// The directories that are searched, in their order: below `ROCM_PATH` and `HIP_PATH`
/// where these are set, and then two fixed ones.
pub open spec fn search_dirs(rocm_path: Option<Seq<char>>, hip_path: Option<Seq<char>>) -> Seq<
    Seq<char>,
> {
    let first = match rocm_path {
        Some(path) => seq![path_below(path, "lib"@)],
        None => Seq::empty(),
    };
    let second = match hip_path {
        Some(path) => seq![path_below(path, "lib"@)],
        None => Seq::empty(),
    };
    first + second + seq!["/opt/rocm/lib"@, "/opt/rocm-7.2.4/lib"@]
}

/// Texts as models.
pub open spec fn texts(list: Seq<String>) -> Seq<Seq<char>> {
    list.map_values(|s: String| s@)
}

fn push_text(list: &mut Vec<String>, text: String)
    ensures
        texts(final(list)@) == texts(old(list)@).push(text@),
{
    list.push(text);
    proof {
        assert(texts(list@) =~= texts(old(list)@).push(text@));
    }
}

/// The directories that are searched, in their order.
pub fn library_dirs(rocm_path: Option<&str>, hip_path: Option<&str>) -> (dirs: Vec<String>)
    ensures
        texts(dirs@) == search_dirs(
            match rocm_path {
                Some(path) => Some(path@),
                None => None,
            },
            match hip_path {
                Some(path) => Some(path@),
                None => None,
            },
        ),
{
    let mut dirs: Vec<String> = Vec::new();
    if let Some(path) = rocm_path {
        push_text(&mut dirs, join(path, "lib"));
    }
    if let Some(path) = hip_path {
        push_text(&mut dirs, join(path, "lib"));
    }
    push_text(&mut dirs, "/opt/rocm/lib".to_owned());
    push_text(&mut dirs, "/opt/rocm-7.2.4/lib".to_owned());
    proof {
        assert(texts(dirs@) =~= search_dirs(
            match rocm_path {
                Some(path) => Some(path@),
                None => None,
            },
            match hip_path {
                Some(path) => Some(path@),
                None => None,
            },
        ));
    }
    dirs
}

/// What was found in a directory.
#[derive(Debug)]
pub struct Listing {
    pub dir: String,
    /// Whether a file of exactly the wanted name exists there.
    pub exact: bool,
    /// The names of the entries, in the order in which the system gives them; none where
    /// the directory cannot be read.
    pub entries: Vec<String>,
}

/// The first entry from number `from` on whose name starts with `name`.
pub open spec fn first_entry(entries: Seq<Seq<char>>, name: Seq<char>, from: int) -> Option<
    Seq<char>,
>
    decreases entries.len() - from,
{
    if from >= entries.len() {
        None
    } else if scan::starts_with(entries[from], name) {
        Some(entries[from])
    } else {
        first_entry(entries, name, from + 1)
    }
}

/// The first directory from number `from` on that has a file of exactly the name.
pub open spec fn exact_path(listings: Seq<Listing>, name: Seq<char>, from: int) -> Option<Seq<char>>
    decreases listings.len() - from,
{
    if from >= listings.len() {
        None
    } else if listings[from].exact {
        Some(path_below(listings[from].dir@, name))
    } else {
        exact_path(listings, name, from + 1)
    }
}

/// The first versioned file from directory number `from` on: one whose name starts with
/// the name.
pub open spec fn versioned_path(listings: Seq<Listing>, name: Seq<char>, from: int) -> Option<
    Seq<char>,
>
    decreases listings.len() - from,
{
    if from >= listings.len() {
        None
    } else {
        match first_entry(texts(listings[from].entries@), name, 0) {
            Some(entry) => Some(path_below(listings[from].dir@, entry)),
            None => versioned_path(listings, name, from + 1),
        }
    }
}

/// Where a library is: an exact name in any directory comes before a versioned one.
pub open spec fn library_path(listings: Seq<Listing>, name: Seq<char>) -> Option<Seq<char>> {
    match exact_path(listings, name, 0) {
        Some(path) => Some(path),
        None => versioned_path(listings, name, 0),
    }
}

fn find_entry(entries: &Vec<String>, name: &str) -> (found: Option<usize>)
    ensures
        match (found, first_entry(texts(entries@), name@, 0)) {
            (Some(at), Some(expected)) => at < entries@.len() && entries@[at as int]@ == expected,
            (None, None) => true,
            _ => false,
        },
{
    let mut index: usize = 0;
    while index < entries.len()
        invariant
            index <= entries@.len(),
            first_entry(texts(entries@), name@, 0) == first_entry(
                texts(entries@),
                name@,
                index as int,
            ),
        decreases entries@.len() - index,
    {
        proof {
            assert(texts(entries@)[index as int] == entries@[index as int]@);
        }
        if begins(entries[index].as_str(), name) {
            return Some(index);
        }
        index += 1;
    }
    None
}

/// Where a library is, by what was found in the directories, in their order.
pub fn find_library(name: &str, listings: &Vec<Listing>) -> (path: Result<String, Error>)
    ensures
        match (path, library_path(listings@, name@)) {
            (Ok(p), Some(expected)) => p@ == expected,
            (Err(e), None) => e matches Error::LibraryNotFound { name: n } && n@ == name@,
            _ => false,
        },
{
    let mut index: usize = 0;
    while index < listings.len()
        invariant
            index <= listings@.len(),
            exact_path(listings@, name@, 0) == exact_path(listings@, name@, index as int),
        decreases listings@.len() - index,
    {
        if listings[index].exact {
            return Ok(join(listings[index].dir.as_str(), name));
        }
        index += 1;
    }
    let mut index: usize = 0;
    while index < listings.len()
        invariant
            index <= listings@.len(),
            exact_path(listings@, name@, 0) is None,
            versioned_path(listings@, name@, 0) == versioned_path(listings@, name@, index as int),
        decreases listings@.len() - index,
    {
        match find_entry(&listings[index].entries, name) {
            Some(at) => {
                return Ok(
                    join(listings[index].dir.as_str(), listings[index].entries[at].as_str()),
                );
            },
            None => {},
        }
        index += 1;
    }
    Err(Error::LibraryNotFound { name: name.to_owned() })
}

} // verus!
