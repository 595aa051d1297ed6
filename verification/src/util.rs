//! Names and paths derived from a target identifier.

use crate::target::{display_name_of, lemma_invalid_text, INVALID};
use vstd::prelude::*;
use vstd::string::*;

verus! {

/// The index of the last `/` in `s`, or `-1` when `s` holds none.
pub open spec fn last_slash(s: Seq<char>) -> int
    decreases s.len(),
{
    if s.len() == 0 {
        -1
    } else if s.last() == '/' {
        s.len() - 1
    } else {
        last_slash(s.drop_last())
    }
}

/// The last segment of `s`: what follows its final `/`, or all of `s` when it
/// holds no `/`.
pub open spec fn name_of(s: Seq<char>) -> Seq<char> {
    s.subrange(last_slash(s) + 1, s.len() as int)
}

/// `name` is a suffix of `target` without `/` that either is all of `target`
/// or stands directly behind a `/`.
pub open spec fn is_last_segment(name: Seq<char>, target: Seq<char>) -> bool {
    &&& name.len() <= target.len()
    &&& name == target.subrange(target.len() - name.len(), target.len() as int)
    &&& forall|i: int| 0 <= i < name.len() ==> name[i] != '/'
    &&& (name.len() == target.len() || target[target.len() - name.len() - 1] == '/')
}

/// `last_slash` is in range, points at a `/`, and no `/` follows it.
pub proof fn lemma_last_slash(s: Seq<char>)
    ensures
        -1 <= last_slash(s) < s.len(),
        last_slash(s) >= 0 ==> s[last_slash(s)] == '/',
        forall|i: int| last_slash(s) < i < s.len() ==> s[i] != '/',
    decreases s.len(),
{
    if s.len() > 0 && s.last() != '/' {
        let front = s.drop_last();
        lemma_last_slash(front);
        assert forall|i: int| last_slash(s) < i < s.len() implies s[i] != '/' by {
            if i < front.len() {
                assert(front[i] == s[i]);
            }
        }
    }
}

/// The last segment of a target is the one sequence that `is_last_segment`
/// accepts for it.
pub proof fn lemma_name_of_is_last_segment(target: Seq<char>)
    ensures
        is_last_segment(name_of(target), target),
        forall|name: Seq<char>| is_last_segment(name, target) ==> name == name_of(target),
{
    lemma_last_slash(target);
    let n = name_of(target);
    assert(is_last_segment(n, target));
    assert forall|name: Seq<char>| is_last_segment(name, target) implies name == n by {
        let start = target.len() - name.len();
        if start - 1 > last_slash(target) {
            assert(target[start - 1] == '/');
        } else if start - 1 < last_slash(target) {
            assert(name[last_slash(target) - start] == '/');
        }
        assert(name =~= n);
    }
}

/// The last segment of `text` as it stands; see [`name_of`].
pub fn last_segment(text: &str) -> (name: &str)
    ensures
        name@ == name_of(text@),
        is_last_segment(name@, text@),
{
    let len: usize = text.unicode_len();
    let mut start: usize = len;
    while start > 0 && text.get_char(start - 1) != '/'
        invariant
            start <= len,
            len == text@.len(),
            forall|i: int| start <= i < len ==> text@[i] != '/',
        decreases start,
    {
        start = start - 1;
    }
    proof {
        lemma_last_slash(text@);
        lemma_name_of_is_last_segment(text@);
        if start > 0 {
            assert(text@[start - 1] == '/');
        }
        assert(last_slash(text@) == start - 1);
    }
    text.substring_char(start, len)
}

/// The display name of a target: the last segment of its identifier without one
/// trailing slash, and `INVALID` where nothing is left of the identifier then.
pub fn get_name(target: &str) -> (name: &str)
    ensures
        name@ == display_name_of(target@),
{
    let len: usize = target.unicode_len();
    let stripped: &str = if len > 0 && target.get_char(len - 1) == '/' {
        let front = target.substring_char(0, len - 1);
        assert(front@ =~= target@.drop_last());
        front
    } else {
        target
    };
    if stripped.unicode_len() == 0 {
        proof {
            lemma_invalid_text();
        }
        INVALID
    } else {
        last_segment(stripped)
    }
}

/// `path` begins with the sign for the home directory: it is `~` or begins
/// with `~/`.
pub open spec fn begins_at_home(path: Seq<char>) -> bool {
    path.len() >= 1 && path[0] == '~' && (path.len() == 1 || path[1] == '/')
}

/// `path` with the home directory in place of a leading `~`.
pub open spec fn expanded(path: Seq<char>, home: Seq<char>) -> Seq<char> {
    if begins_at_home(path) {
        home + path.subrange(1, path.len() as int)
    } else {
        path
    }
}

/// Puts the home directory `home` in place of a leading `~` of `path`; a path
/// without one stays as it is.
pub fn expand_path(path: &str, home: &str) -> (full: String)
    ensures
        full@ == expanded(path@, home@),
{
    let len: usize = path.unicode_len();
    if len >= 1 && path.get_char(0) == '~' && (len == 1 || path.get_char(1) == '/') {
        let mut full = home.to_owned();
        full.append(path.substring_char(1, len));
        full
    } else {
        path.to_owned()
    }
}

/// What follows the version where the tree was changed after the commit.
pub const DIRTY: &'static str = "-dirty";

/// The version as shown: the version of the package, then the short hash of
/// the commit where it is known, then a note where the tree was changed.
pub open spec fn version_of(
    version: Seq<char>,
    commit_hash: Option<Seq<char>>,
    dirty: Option<bool>,
) -> Seq<char> {
    let hash = match commit_hash {
        Some(h) => seq!['-'] + h,
        None => Seq::empty(),
    };
    let note = if dirty == Some(true) {
        DIRTY@
    } else {
        Seq::empty()
    };
    version + hash + note
}

/// The version as shown; see [`version_of`].
pub fn version_string(version: &str, commit_hash: Option<&str>, dirty: Option<bool>) -> (shown:
    String)
    ensures
        shown@ == version_of(
            version@,
            match commit_hash {
                Some(h) => Some(h@),
                None => None,
            },
            dirty,
        ),
{
    let mut shown = version.to_owned();
    match commit_hash {
        Some(hash) => {
            let mut part = "-".to_owned();
            part.append(hash);
            proof {
                reveal_strlit("-");
                assert("-"@ =~= seq!['-']);
            }
            shown.append(part.as_str());
        },
        None => {
            assert(shown@ + Seq::<char>::empty() =~= shown@);
        },
    }
    match dirty {
        Some(true) => {
            shown.append(DIRTY);
        },
        _ => {
            assert(shown@ + Seq::<char>::empty() =~= shown@);
        },
    }
    shown
}

/// What the directory of the user's settings is called under the home directory.
pub const CONFIG_HOME: &'static str = "/.config";

/// What the directory of this program is called under the settings.
pub const CONFIG_DIRECTORY: &'static str = "/dorst";

/// What the file of the configuration is called in its directory.
pub const CONFIG_FILE: &'static str = "/config.yaml";

/// The directory of the configuration: under the directory that the user set
/// for settings, or under `.config` in the home directory.
pub open spec fn config_directory_of(settings: Option<Seq<char>>, home: Seq<char>) -> Seq<char> {
    match settings {
        Some(directory) => directory + CONFIG_DIRECTORY@,
        None => home + CONFIG_HOME@ + CONFIG_DIRECTORY@,
    }
}

/// The directory of the configuration; see [`config_directory_of`].
pub fn config_directory(settings: Option<&str>, home: &str) -> (directory: String)
    ensures
        directory@ == config_directory_of(
            match settings {
                Some(d) => Some(d@),
                None => None,
            },
            home@,
        ),
{
    let mut directory = match settings {
        Some(d) => d.to_owned(),
        None => {
            let mut d = home.to_owned();
            d.append(CONFIG_HOME);
            d
        },
    };
    directory.append(CONFIG_DIRECTORY);
    directory
}

/// The file of the configuration in `directory`.
pub fn config_file(directory: &str) -> (file: String)
    ensures
        file@ == directory@ + CONFIG_FILE@,
{
    let mut file = directory.to_owned();
    file.append(CONFIG_FILE);
    file
}

} // verus!
