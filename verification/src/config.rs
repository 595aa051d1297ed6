//! The configuration of a run: where the mirrors stand and which targets they
//! mirror, and the YAML document that keeps both.

use crate::error::{Error, ErrorView};
use crate::target::{strip_slash, target_of, Target, TargetView};
use crate::text::{split, split_on};
use vstd::prelude::*;
use vstd::string::*;

verus! {

/// The key of the directory that holds the primary mirrors.
pub const SOURCE_DIRECTORY_KEY: &'static str = "source_directory";

/// The key of the list of targets.
pub const TARGETS_KEY: &'static str = "targets";

/// What the message of a target with a trailing slash begins with.
pub const INVALID_URL_PREFIX: &'static str = "Invalid URL ";

/// What the message of a target with a trailing slash ends with.
pub const INVALID_URL_SUFFIX: &'static str = " (trailing slash)";

/// The configuration of a run.
#[derive(Debug)]
pub struct Config {
    /// The directory that holds the primary mirrors.
    pub source_directory: String,
    /// The targets, as stored.
    pub targets: Vec<String>,
    /// The number of targets.
    pub count: u64,
}

/// What a [`Config`] stands for in contracts.
pub struct ConfigView {
    pub source_directory: Seq<char>,
    pub targets: Seq<Seq<char>>,
    pub count: nat,
}

impl View for Config {
    type V = ConfigView;

    open spec fn view(&self) -> ConfigView {
        ConfigView {
            source_directory: self.source_directory@,
            targets: self.targets.deep_view(),
            count: self.count as nat,
        }
    }
}

impl Default for Config {
    /// A configuration without targets.
    fn default() -> (c: Config)
        ensures
            c@ == (ConfigView {
                source_directory: Seq::empty(),
                targets: Seq::empty(),
                count: 0,
            }),
    {
        let c = Config { source_directory: String::new(), targets: Vec::new(), count: 0 };
        assert(c.targets.deep_view() =~= Seq::<Seq<char>>::empty());
        c
    }
}

/// `s` ends in a slash.
pub open spec fn ends_with_slash(s: Seq<char>) -> bool {
    s.len() > 0 && s.last() == '/'
}

/// No target ends in a slash.
pub open spec fn all_valid(targets: Seq<Seq<char>>) -> bool {
    forall|i: int| 0 <= i < targets.len() ==> !ends_with_slash(#[trigger] targets[i])
}

/// `i` is the first target that ends in a slash.
pub open spec fn is_first_invalid(targets: Seq<Seq<char>>, i: int) -> bool {
    &&& 0 <= i < targets.len()
    &&& ends_with_slash(targets[i])
    &&& forall|j: int| 0 <= j < i ==> !ends_with_slash(#[trigger] targets[j])
}

/// The message for a target that ends in a slash.
pub open spec fn invalid_url_message(target: Seq<char>) -> Seq<char> {
    INVALID_URL_PREFIX@ + target + INVALID_URL_SUFFIX@
}

/// Whether `text` ends in a slash.
fn has_trailing_slash(text: &str) -> (b: bool)
    ensures
        b == ends_with_slash(text@),
{
    let len: usize = text.unicode_len();
    len > 0 && text.get_char(len - 1) == '/'
}

impl Config {
    /// Takes over a directory and a list of targets as read from a file. A list
    /// in which a target ends in a slash is refused, with the message for the
    /// first such target, and the configuration stays as it was.
    pub fn load_config(&mut self, source_directory: String, targets: Vec<String>) -> (r: Result<
        (),
        Error,
    >)
        ensures
            r is Ok <==> all_valid(targets.deep_view()),
            r is Ok ==> final(self)@ == (ConfigView {
                source_directory: source_directory@,
                targets: targets.deep_view(),
                count: targets@.len(),
            }),
            r matches Err(e) ==> final(self)@ == old(self)@ && exists|i: int|
                is_first_invalid(targets.deep_view(), i) && e@ == ErrorView::Config(
                    invalid_url_message(#[trigger] targets.deep_view()[i]),
                ),
    {
        let mut i: usize = 0;
        while i < targets.len()
            invariant
                i <= targets.len(),
                forall|j: int| 0 <= j < i ==> !ends_with_slash(#[trigger] targets.deep_view()[j]),
            decreases targets.len() - i,
        {
            if has_trailing_slash(targets[i].as_str()) {
                let mut message = INVALID_URL_PREFIX.to_owned();
                message.append(targets[i].as_str());
                message.append(INVALID_URL_SUFFIX);
                assert(is_first_invalid(targets.deep_view(), i as int));
                assert(message@ == invalid_url_message(targets.deep_view()[i as int]));
                return Err(Error::Config(message));
            }
            i = i + 1;
        }
        self.count = targets.len() as u64;
        self.source_directory = source_directory;
        self.targets = targets;
        Ok(())
    }
}

/// What a line of targets typed by a user stands for: its pieces between
/// commas, each without one trailing slash.
pub open spec fn prompted_targets(line: Seq<char>) -> Seq<Seq<char>> {
    split_on(line, ',').map_values(|piece: Seq<char>| strip_slash(piece))
}

/// The targets of a line typed by a user; see [`prompted_targets`].
pub fn targets_from_prompt(line: &str) -> (targets: Vec<String>)
    ensures
        targets.deep_view() == prompted_targets(line@),
        targets.len() >= 1,
{
    let pieces = split(line, ',');
    let mut targets: Vec<String> = Vec::new();
    let mut i: usize = 0;
    while i < pieces.len()
        invariant
            i <= pieces.len(),
            targets.len() == i,
            forall|j: int|
                0 <= j < i ==> #[trigger] targets.deep_view()[j] == strip_slash(
                    pieces.deep_view()[j],
                ),
        decreases pieces.len() - i,
    {
        let ghost before = targets.deep_view();
        let piece = pieces[i].as_str();
        if has_trailing_slash(piece) {
            let len: usize = piece.unicode_len();
            let front = piece.substring_char(0, len - 1);
            assert(front@ =~= piece@.drop_last());
            targets.push(front.to_owned());
        } else {
            targets.push(piece.to_owned());
        }
        assert(targets.deep_view() =~= before.push(strip_slash(pieces.deep_view()[i as int])));
        i = i + 1;
    }
    assert(targets.deep_view() =~= prompted_targets(line@));
    targets
}

/// What a configuration document holds, as far as a run reads it.
#[derive(Debug)]
pub struct Document {
    /// The text under the key of the source directory, where there is one.
    pub source_directory: Option<String>,
    /// The items under the key of the targets, where they are a sequence; an
    /// item that is no text is `None`.
    pub targets: Option<Vec<Option<String>>>,
}

/// What a [`Document`] stands for in contracts.
pub struct DocumentView {
    pub source_directory: Option<Seq<char>>,
    pub targets: Option<Seq<Option<Seq<char>>>>,
}

/// The views of a list of items.
pub open spec fn item_views(items: Seq<Option<String>>) -> Seq<Option<Seq<char>>> {
    Seq::new(
        items.len(),
        |i: int|
            match items[i] {
                Some(s) => Some(s@),
                None => None,
            },
    )
}

impl View for Document {
    type V = DocumentView;

    open spec fn view(&self) -> DocumentView {
        DocumentView {
            source_directory: match self.source_directory {
                Some(s) => Some(s@),
                None => None,
            },
            targets: match self.targets {
                Some(items) => Some(item_views(items@)),
                None => None,
            },
        }
    }
}

/// What `serde_yaml` reads out of `text`: the text found under `text_key` and
/// the items found under `list_key`, or the reader's message where `text` is no
/// YAML document.
pub uninterp spec fn yaml_document(
    text: Seq<char>,
    text_key: Seq<char>,
    list_key: Seq<char>,
) -> Result<DocumentView, Seq<char>>;

/// What `serde_yaml` writes for a mapping of `text_key` to `text` and of
/// `list_key` to the sequence `list`, or the writer's message.
pub uninterp spec fn yaml_text(
    text_key: Seq<char>,
    text: Seq<char>,
    list_key: Seq<char>,
    list: Seq<Seq<char>>,
) -> Result<Seq<char>, Seq<char>>;

/// The view of what was read.
pub open spec fn read_view(r: Result<Document, String>) -> Result<DocumentView, Seq<char>> {
    match r {
        Ok(d) => Ok(d@),
        Err(m) => Err(m@),
    }
}

/// The view of what was written.
pub open spec fn written_view(r: Result<String, String>) -> Result<Seq<char>, Seq<char>> {
    match r {
        Ok(s) => Ok(s@),
        Err(m) => Err(m@),
    }
}

/// Calls `serde_yaml::from_str` for a `serde_yaml::Value` and reads two entries
/// out of the value with its `Index`, `as_str` and `as_sequence`. The contract
/// claims only that the outcome is a function of the three arguments, and gives
/// that function the name `yaml_document`.
#[verifier::external_body]
fn parse_document(text: &str, text_key: &str, list_key: &str) -> (r: Result<Document, String>)
    ensures
        read_view(r) == yaml_document(text@, text_key@, list_key@),
{
    let value: serde_yaml::Value = serde_yaml::from_str(text).map_err(|e| e.to_string())?;
    let items = value[list_key].as_sequence();
    Ok(
        Document {
            source_directory: value[text_key].as_str().map(str::to_owned),
            targets: items.map(
                |list| list.iter().map(|item| item.as_str().map(str::to_owned)).collect(),
            ),
        },
    )
}

/// Builds a `serde_yaml::Mapping` of two entries and calls
/// `serde_yaml::to_string` on it. The contract claims only that the outcome is
/// a function of the four arguments, and gives that function the name
/// `yaml_text`.
#[verifier::external_body]
fn write_document(text_key: &str, text: &str, list_key: &str, list: &Vec<String>) -> (r: Result<
    String,
    String,
>)
    ensures
        written_view(r) == yaml_text(text_key@, text@, list_key@, list.deep_view()),
{
    let mut mapping = serde_yaml::Mapping::new();
    let key = serde_yaml::Value::String(text_key.to_owned());
    mapping.insert(key, serde_yaml::Value::String(text.to_owned()));
    let items = list.iter().map(|item| serde_yaml::Value::String(item.clone())).collect();
    let key = serde_yaml::Value::String(list_key.to_owned());
    mapping.insert(key, serde_yaml::Value::Sequence(items));
    serde_yaml::to_string(&mapping).map_err(|e| e.to_string())
}

/// What is restored from a document: the source directory, where the document
/// names one, and the targets.
#[derive(Debug)]
pub struct Restored {
    pub source_directory: Option<String>,
    pub targets: Vec<Target>,
}

/// What a [`Restored`] stands for in contracts.
pub struct RestoredView {
    pub source_directory: Option<Seq<char>>,
    pub targets: Seq<TargetView>,
}

impl View for Restored {
    type V = RestoredView;

    open spec fn view(&self) -> RestoredView {
        RestoredView {
            source_directory: match self.source_directory {
                Some(s) => Some(s@),
                None => None,
            },
            targets: Seq::new(self.targets@.len(), |i: int| self.targets@[i]@),
        }
    }
}

/// The targets that a list of items stands for: each item that is text gives
/// one, in order; the others are passed over.
pub open spec fn restored_targets(items: Seq<Option<Seq<char>>>) -> Seq<TargetView>
    decreases items.len(),
{
    if items.len() == 0 {
        Seq::empty()
    } else {
        match items.last() {
            Some(text) => restored_targets(items.drop_last()).push(target_of(text)),
            None => restored_targets(items.drop_last()),
        }
    }
}

/// What is restored from `document`.
pub open spec fn restored_from(document: DocumentView) -> RestoredView {
    RestoredView {
        source_directory: document.source_directory,
        targets: match document.targets {
            Some(items) => restored_targets(items),
            None => Seq::empty(),
        },
    }
}

/// Restores a run's directory and targets from a document that was read. Each
/// item that is text becomes a target in its stored form; a document without a
/// list of targets gives none.
pub fn restore_data(document: &Document) -> (restored: Restored)
    ensures
        restored@ == restored_from(document@),
{
    let source_directory = match &document.source_directory {
        Some(s) => Some(s.clone()),
        None => None,
    };
    let mut targets: Vec<Target> = Vec::new();
    match &document.targets {
        None => {},
        Some(items) => {
            let mut i: usize = 0;
            while i < items.len()
                invariant
                    i <= items.len(),
                    Seq::new(targets@.len(), |k: int| targets@[k]@) == restored_targets(
                        item_views(items@).subrange(0, i as int),
                    ),
                decreases items.len() - i,
            {
                let ghost before = Seq::new(targets@.len(), |k: int| targets@[k]@);
                let ghost prefix = item_views(items@).subrange(0, i as int + 1);
                proof {
                    assert(prefix.drop_last() =~= item_views(items@).subrange(0, i as int));
                    assert(prefix.last() == item_views(items@)[i as int]);
                }
                match &items[i] {
                    Some(text) => {
                        targets.push(Target::new(text.as_str()));
                        assert(Seq::new(targets@.len(), |k: int| targets@[k]@) =~= before.push(
                            target_of(text@),
                        ));
                    },
                    None => {},
                }
                i = i + 1;
            }
            assert(item_views(items@).subrange(0, items@.len() as int) =~= item_views(items@));
        },
    }
    let restored = Restored { source_directory, targets };
    assert(restored@.targets =~= restored_from(document@).targets);
    restored
}

/// What reading `text` as a configuration gives, for what `serde_yaml` made of it.
pub open spec fn config_read(parsed: Result<DocumentView, Seq<char>>) -> Result<
    RestoredView,
    ErrorView,
> {
    match parsed {
        Ok(document) => Ok(restored_from(document)),
        Err(message) => Err(ErrorView::Config(message)),
    }
}

/// The view of what was restored.
pub open spec fn restored_view(r: Result<Restored, Error>) -> Result<RestoredView, ErrorView> {
    match r {
        Ok(restored) => Ok(restored@),
        Err(e) => Err(e@),
    }
}

/// Reads a configuration from the text of a YAML document. Text that is no YAML
/// gives an error of the configuration with the reader's message.
pub fn read_config(text: &str) -> (r: Result<Restored, Error>)
    ensures
        restored_view(r) == config_read(
            yaml_document(text@, SOURCE_DIRECTORY_KEY@, TARGETS_KEY@),
        ),
{
    match parse_document(text, SOURCE_DIRECTORY_KEY, TARGETS_KEY) {
        Ok(document) => Ok(restore_data(&document)),
        Err(message) => Err(Error::Config(message)),
    }
}

/// The stored identifiers of `targets`.
pub open spec fn identifiers_of(targets: Seq<TargetView>) -> Seq<Seq<char>> {
    targets.map_values(|t: TargetView| t.identifier)
}

/// The view of what was written, as an error of the configuration where writing
/// failed.
pub open spec fn saved_view(r: Result<String, Error>) -> Result<Seq<char>, ErrorView> {
    match r {
        Ok(s) => Ok(s@),
        Err(e) => Err(e@),
    }
}

/// What writing a configuration gives, for what `serde_yaml` made of it.
pub open spec fn config_written(written: Result<Seq<char>, Seq<char>>) -> Result<
    Seq<char>,
    ErrorView,
> {
    match written {
        Ok(text) => Ok(text),
        Err(message) => Err(ErrorView::Config(message)),
    }
}

/// Writes a run's directory and the identifiers of its targets as the text of a
/// YAML document.
pub fn save_config(source_directory: &str, targets: &Vec<Target>) -> (r: Result<String, Error>)
    ensures
        saved_view(r) == config_written(
            yaml_text(
                SOURCE_DIRECTORY_KEY@,
                source_directory@,
                TARGETS_KEY@,
                identifiers_of(Seq::new(targets@.len(), |i: int| targets@[i]@)),
            ),
        ),
{
    let mut links: Vec<String> = Vec::new();
    let mut i: usize = 0;
    while i < targets.len()
        invariant
            i <= targets.len(),
            links.len() == i,
            forall|j: int| 0 <= j < i ==> #[trigger] links.deep_view()[j] == targets@[j]@.identifier,
        decreases targets.len() - i,
    {
        let ghost before = links.deep_view();
        links.push(targets[i].identifier().to_owned());
        assert(links.deep_view() =~= before.push(targets@[i as int]@.identifier));
        i = i + 1;
    }
    assert(links.deep_view() =~= identifiers_of(Seq::new(targets@.len(), |i: int| targets@[i]@)));
    match write_document(SOURCE_DIRECTORY_KEY, source_directory, TARGETS_KEY, &links) {
        Ok(text) => Ok(text),
        Err(message) => Err(Error::Config(message)),
    }
}

} // verus!
