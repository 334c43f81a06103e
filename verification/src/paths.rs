//! Where a collection is stored: one file per collection, directly under the
//! data directory. A name that could lead out of that directory is refused.

use vstd::prelude::*;

verus! {

/// The configuration that every operation is given: the data directory.
#[derive(Clone, Debug)]
pub struct AppConfig {
    pub data_dir: String,
}

impl Default for AppConfig {
    fn default() -> (config: AppConfig)
        ensures
            config.data_dir@.len() == 0,
    {
        AppConfig { data_dir: String::new() }
    }
}

/// Whether the character separates the parts of a path.
pub open spec fn is_separator(c: char) -> bool {
    c == '/' || c == '\\'
}

/// Whether the name can be a file's stem under the data directory: it holds
/// no path separator and no two dots in a row.
pub open spec fn is_safe_name(name: Seq<char>) -> bool {
    &&& forall|i: int| 0 <= i < name.len() ==> !is_separator(#[trigger] name[i])
    &&& forall|i: int| 0 <= i < name.len() - 1 ==> !(#[trigger] name[i] == '.' && name[i + 1] == '.')
}

/// The path of a collection's file: `{data_dir}/{name}.json`.
pub open spec fn path_of(data_dir: Seq<char>, name: Seq<char>) -> Seq<char> {
    data_dir + seq!['/'] + name + seq!['.', 'j', 's', 'o', 'n']
}

/// Tests a collection's name for path separators and `..`.
pub fn check_name(name: &str) -> (safe: bool)
    ensures
        safe == is_safe_name(name@),
{
    let len = name.unicode_len();
    let mut i: usize = 0;
    let mut after_dot = false;
    while i < len
        invariant
            len == name@.len(),
            i <= len,
            forall|k: int| 0 <= k < i ==> !is_separator(#[trigger] name@[k]),
            forall|k: int| 0 <= k < i - 1 ==> !(#[trigger] name@[k] == '.' && name@[k + 1] == '.'),
            after_dot == (i > 0 && name@[i - 1] == '.'),
        decreases len - i,
    {
        let c = name.get_char(i);
        if c == '/' || c == '\\' {
            return false;
        }
        if c == '.' && after_dot {
            assert(name@[i - 1] == '.' && name@[i - 1 + 1] == '.');
            return false;
        }
        after_dot = c == '.';
        i += 1;
    }
    true
}

/// The path of the file that stores the collection `name` under `data_dir`,
/// or `None` for a name that is not safe.
pub fn resolve(data_dir: &str, name: &str) -> (path: Option<String>)
    ensures
        match path {
            Some(p) => is_safe_name(name@) && p@ == path_of(data_dir@, name@),
            None => !is_safe_name(name@),
        },
{
    if !check_name(name) {
        return None;
    }
    proof {
        reveal_strlit("/");
        reveal_strlit(".json");
    }
    let mut path = String::from_str(data_dir);
    path.append("/");
    path.append(name);
    path.append(".json");
    assert(path@ =~= path_of(data_dir@, name@));
    Some(path)
}

impl AppConfig {
    /// The path of the file that stores the collection `name`, or `None` for
    /// a name that is not safe.
    pub fn collection_path(&self, name: &str) -> (path: Option<String>)
        ensures
            match path {
                Some(p) => is_safe_name(name@) && p@ == path_of(self.data_dir@, name@),
                None => !is_safe_name(name@),
            },
    {
        resolve(self.data_dir.as_str(), name)
    }
}

} // verus!
