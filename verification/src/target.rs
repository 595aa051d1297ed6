//! Targets: the identifiers of the repositories to mirror, the names shown for
//! them, and the directories they are mirrored into.

use crate::util::{get_name, last_segment, lemma_last_slash, name_of};
use vstd::prelude::*;
use vstd::string::*;

verus! {

/// The identifier that stands for one that is empty once its trailing slash is
/// gone.
pub const INVALID: &'static str = "INVALID";

/// What the directory name of a backup mirror ends in.
pub const BACKUP_SUFFIX: &'static str = ".dorst";

/// `s` without one trailing `/`, where it has one.
pub open spec fn strip_slash(s: Seq<char>) -> Seq<char> {
    if s.len() > 0 && s.last() == '/' {
        s.drop_last()
    } else {
        s
    }
}

/// The stored form of an identifier: one trailing `/` is removed, and what is
/// empty then is replaced by `INVALID`.
pub open spec fn normalized(identifier: Seq<char>) -> Seq<char> {
    if strip_slash(identifier).len() == 0 {
        INVALID@
    } else {
        strip_slash(identifier)
    }
}

/// The display name of an identifier: the last segment of its stored form.
pub open spec fn display_name_of(identifier: Seq<char>) -> Seq<char> {
    name_of(normalized(identifier))
}

/// The directory of the primary mirror of `target` under `root`: the root, a
/// slash, the display name of the target.
pub open spec fn primary_destination_of(root: Seq<char>, target: Seq<char>) -> Seq<char> {
    root + seq!['/'] + display_name_of(target)
}

/// The directory of the backup mirror of `target` under `root`: the root, a
/// slash, the display name of the target, the suffix of a backup.
pub open spec fn backup_destination_of(root: Seq<char>, target: Seq<char>) -> Seq<char> {
    root + seq!['/'] + display_name_of(target) + BACKUP_SUFFIX@
}

/// The characters of `INVALID`.
pub proof fn lemma_invalid_text()
    ensures
        INVALID@ == seq!['I', 'N', 'V', 'A', 'L', 'I', 'D'],
        name_of(INVALID@) == INVALID@,
{
    reveal_strlit("INVALID");
    let s = seq!['I', 'N', 'V', 'A', 'L', 'I', 'D'];
    assert(INVALID@ =~= s);
    lemma_last_slash(s);
    assert(name_of(s) =~= s);
}

/// An identifier that ends in `/` is stored without that slash, and its display
/// name is the last segment of what is left. One that is empty once the slash
/// is gone is stored and shown as `INVALID`. The stored form is never empty,
/// and keeps a trailing `/` only where the identifier ended in two.
pub proof fn lemma_normalized(identifier: Seq<char>)
    ensures
        identifier.len() > 1 && identifier.last() == '/' ==> normalized(identifier)
            == identifier.drop_last(),
        identifier.len() > 0 && identifier.last() != '/' ==> normalized(identifier) == identifier,
        identifier.len() > 1 && identifier.last() == '/' ==> display_name_of(identifier) == name_of(
            identifier.drop_last(),
        ),
        identifier.len() > 0 && identifier.last() != '/' ==> display_name_of(identifier) == name_of(
            identifier,
        ),
        strip_slash(identifier).len() == 0 ==> normalized(identifier) == INVALID@
            && display_name_of(identifier) == INVALID@,
        normalized(identifier).len() > 0,
        normalized(identifier).last() == '/' ==> identifier.len() >= 2 && identifier.last() == '/'
            && identifier[identifier.len() - 2] == '/',
{
    lemma_invalid_text();
}

/// The stored form of `identifier`; see [`normalized`].
pub fn normalize(identifier: &str) -> (stored: String)
    ensures
        stored@ == normalized(identifier@),
{
    let len: usize = identifier.unicode_len();
    let stripped: &str = if len > 0 && identifier.get_char(len - 1) == '/' {
        let front = identifier.substring_char(0, len - 1);
        assert(front@ =~= identifier@.drop_last());
        front
    } else {
        identifier
    };
    if stripped.unicode_len() == 0 {
        INVALID.to_owned()
    } else {
        stripped.to_owned()
    }
}

/// The display name of `identifier`; see [`display_name_of`].
pub fn display_name(identifier: &str) -> (name: String)
    ensures
        name@ == display_name_of(identifier@),
{
    get_name(identifier).to_owned()
}

/// The directory of the primary mirror of `target` under `root`.
pub fn primary_destination(root: &str, target: &str) -> (path: String)
    ensures
        path@ == primary_destination_of(root@, target@),
{
    let mut path = root.to_owned();
    path.append("/");
    path.append(get_name(target));
    proof {
        reveal_strlit("/");
        assert("/"@ =~= seq!['/']);
    }
    path
}

/// The directory of the backup mirror of `target` under `root`.
pub fn backup_destination(root: &str, target: &str) -> (path: String)
    ensures
        path@ == backup_destination_of(root@, target@),
{
    let mut path = primary_destination(root, target);
    path.append(BACKUP_SUFFIX);
    path
}

/// A target as a list shows it: its stored identifier and its display name.
#[derive(Debug)]
pub struct Target {
    identifier: String,
    name: String,
}

/// What a [`Target`] stands for in contracts.
pub struct TargetView {
    pub identifier: Seq<char>,
    pub name: Seq<char>,
}

impl View for Target {
    type V = TargetView;

    closed spec fn view(&self) -> TargetView {
        TargetView { identifier: self.identifier@, name: self.name@ }
    }
}

/// The target that `text` stands for.
pub open spec fn target_of(text: Seq<char>) -> TargetView {
    TargetView { identifier: normalized(text), name: display_name_of(text) }
}

/// Whether a line typed by a user names a target: it does unless nothing is
/// left of it without its trailing slash.
pub open spec fn names_target(text: Seq<char>) -> bool {
    strip_slash(text).len() > 0
}

impl Target {
    /// The target that `text` stands for; text that is empty without its trailing
    /// slash gives the target `INVALID`.
    pub fn new(text: &str) -> (t: Target)
        ensures
            t@ == target_of(text@),
            t@.name == name_of(t@.identifier),
            t@.identifier.len() > 0,
    {
        proof {
            lemma_normalized(text@);
        }
        let identifier = normalize(text);
        let name = last_segment(identifier.as_str()).to_owned();
        Target { identifier, name }
    }

    /// The target that a line typed by a user stands for, if it names one.
    pub fn from_entry(text: &str) -> (t: Option<Target>)
        ensures
            t is Some <==> names_target(text@),
            t matches Some(target) ==> target@ == target_of(text@) && target@.identifier
                == strip_slash(text@),
    {
        let len: usize = text.unicode_len();
        if len == 0 {
            return None;
        }
        if len == 1 && text.get_char(0) == '/' {
            return None;
        }
        Some(Target::new(text))
    }

    /// The stored identifier.
    pub fn identifier(&self) -> (s: &str)
        ensures
            s@ == self@.identifier,
    {
        self.identifier.as_str()
    }

    /// The display name.
    pub fn name(&self) -> (s: &str)
        ensures
            s@ == self@.name,
    {
        self.name.as_str()
    }

    /// Whether the target is the one that stands for an empty identifier.
    pub fn is_invalid(&self) -> (b: bool)
        ensures
            b == (self@.identifier == INVALID@),
    {
        self.identifier == INVALID.to_owned()
    }
}

} // verus!
