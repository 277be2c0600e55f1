//! The project registry: the watched and the linked paths, the JSON
//! document that holds them, and how the document is read and repaired.
//!
//! The document is an object with the members `watched_paths` and
//! `linked_paths`, each an array of strings. A member that is missing
//! stands for the empty set, other members are passed over, and a path
//! named twice counts once.

use vstd::prelude::*;
use crate::json::{
    json_parse, json_pretty, list_or_empty_under, list_or_empty_under_key, list_under,
    list_under_key, member, member_keys, members_tree, members_view, parse_json, print_members,
    strings_of, Json, JsonTree,
};
use crate::path_set::{first_occurrences, lemma_first_occurrences, PathSet};
use crate::text::{copy_text, from_chars, push_str, text_of, texts, to_chars};

verus! {

/// The first system-wide place of the registry file.
pub const SYSTEM_CONFIG: &'static str = r"C:\laracli\config.json";

/// The second system-wide place of the registry file.
pub const PROGRAM_DATA_CONFIG: &'static str = r"C:\ProgramData\laracli\config.json";

/// The key of the watched paths in the registry document.
pub const WATCHED_PATHS: &'static str = "watched_paths";

/// The key of the linked paths in the registry document.
pub const LINKED_PATHS: &'static str = "linked_paths";

/// The registry: the directories that are watched for projects, and the
/// directories that are linked as projects.
#[derive(Debug)]
pub struct Config {
    pub watched_paths: PathSet,
    pub linked_paths: PathSet,
}

/// The model of a `Config`: its two sets of paths.
pub struct ConfigView {
    pub watched_paths: Set<Seq<char>>,
    pub linked_paths: Set<Seq<char>>,
}

impl View for Config {
    type V = ConfigView;

    open spec fn view(&self) -> ConfigView {
        ConfigView { watched_paths: self.watched_paths@, linked_paths: self.linked_paths@ }
    }
}

/// A registry as it was loaded.
#[derive(Debug)]
pub struct Loaded {
    /// The registry to go on with.
    pub config: Config,
    /// Whether the file has to be written anew from `config`: it was
    /// missing, unreadable, or did not hold a registry.
    pub rewrite: bool,
}

/// The members of the registry document for the two lists of paths.
pub open spec fn registry_members(watched: Seq<Seq<char>>, linked: Seq<Seq<char>>) -> Seq<
    (Seq<char>, Seq<Seq<char>>),
> {
    seq![(WATCHED_PATHS@, watched), (LINKED_PATHS@, linked)]
}

/// The two lists of paths that a registry document holds: nothing where the
/// tree is no object, or where one of the two members is there and is not an
/// array of strings.
pub open spec fn registry_lists(doc: JsonTree) -> Option<(Seq<Seq<char>>, Seq<Seq<char>>)> {
    match (list_or_empty_under(doc, WATCHED_PATHS@), list_or_empty_under(doc, LINKED_PATHS@)) {
        (Some(watched), Some(linked)) => Some((watched, linked)),
        _ => None,
    }
}

/// The watched paths that can be saved from a document that holds no
/// registry: those of its member `watched_paths`, where it has one that is
/// an array of strings.
pub open spec fn recovered_watched(doc: JsonTree) -> Seq<Seq<char>> {
    match list_under(doc, WATCHED_PATHS@) {
        Some(watched) => watched,
        None => Seq::empty(),
    }
}

/// What loading makes of the file: the list of watched paths, the list of
/// linked paths, and whether the file has to be written anew.
///
/// `doc` is the tree that the file's text denotes, or nothing where there
/// was no file, no text, or no JSON in it. A registry document gives its
/// paths, each once. Anything else gives the default, with the watched
/// paths that can be saved, and has the file written anew.
pub open spec fn loaded_lists(doc: Option<JsonTree>) -> (Seq<Seq<char>>, Seq<Seq<char>>, bool) {
    match doc {
        Some(tree) => match registry_lists(tree) {
            Some((watched, linked)) => (
                first_occurrences(watched),
                first_occurrences(linked),
                false,
            ),
            None => (first_occurrences(recovered_watched(tree)), Seq::empty(), true),
        },
        None => (Seq::empty(), Seq::empty(), true),
    }
}

/// The tree that the text of a file denotes, if there is a text and it is
/// one JSON document.
pub open spec fn parsed(contents: Option<Seq<char>>) -> Option<JsonTree> {
    match contents {
        Some(text) => json_parse(text),
        None => None,
    }
}

/// The tree of an optional document.
pub open spec fn tree_of(doc: Option<&Json>) -> Option<JsonTree> {
    match doc {
        Some(found) => Some(found@),
        None => None,
    }
}

impl Config {
    /// The empty registry.
    pub fn new() -> (config: Self)
        ensures
            config.watched_paths.list() == Seq::<Seq<char>>::empty(),
            config.linked_paths.list() == Seq::<Seq<char>>::empty(),
    {
        Config { watched_paths: PathSet::new(), linked_paths: PathSet::new() }
    }

    /// A copy of the registry.
    pub fn copy(&self) -> (config: Self)
        ensures
            config.watched_paths.list() == self.watched_paths.list(),
            config.linked_paths.list() == self.linked_paths.list(),
    {
        Config { watched_paths: self.watched_paths.copy(), linked_paths: self.linked_paths.copy() }
    }

    /// The text of the registry document: the JSON object of the two lists
    /// of paths, watched paths first, as `serde_json` prints it with
    /// indentation.
    pub fn to_json_text(&self) -> (text: String)
        ensures
            text@ == json_pretty(
                registry_members(self.watched_paths.list(), self.linked_paths.list()),
            ),
    {
        let mut members: Vec<(String, Vec<String>)> = Vec::new();
        members.push((copy_text(WATCHED_PATHS), self.watched_paths.to_vec()));
        members.push((copy_text(LINKED_PATHS), self.linked_paths.to_vec()));
        proof {
            let expected = registry_members(
                self.watched_paths.list(),
                self.linked_paths.list(),
            );
            assert(members_view(members@) =~= expected);
            lemma_keys_differ();
            assert(member_keys(expected) =~= seq![WATCHED_PATHS@, LINKED_PATHS@]);
        }
        print_members(&members)
    }
}

/// The two keys of the registry document are different.
pub proof fn lemma_keys_differ()
    ensures
        WATCHED_PATHS@ != LINKED_PATHS@,
{
    reveal_strlit("watched_paths");
    reveal_strlit("linked_paths");
    assert(WATCHED_PATHS@.len() == 13);
    assert(LINKED_PATHS@.len() == 12);
}

/// The registry that a document gives.
///
/// `doc` is the document that the file's text denotes, or nothing where
/// there was no file, no text, or no JSON in it.
pub fn config_from_json(doc: Option<&Json>) -> (loaded: Loaded)
    ensures
        (loaded.config.watched_paths.list(), loaded.config.linked_paths.list(), loaded.rewrite)
            == loaded_lists(tree_of(doc)),
{
    let found = match doc {
        Some(found) => found,
        None => {
            return Loaded { config: Config::new(), rewrite: true };
        },
    };
    let watched = list_or_empty_under_key(found, WATCHED_PATHS);
    let linked = list_or_empty_under_key(found, LINKED_PATHS);
    match (watched, linked) {
        (Some(watched), Some(linked)) => Loaded {
            config: Config {
                watched_paths: PathSet::from_vec(watched),
                linked_paths: PathSet::from_vec(linked),
            },
            rewrite: false,
        },
        _ => {
            let watched_paths = match list_under_key(found, WATCHED_PATHS) {
                Some(saved) => PathSet::from_vec(saved),
                None => PathSet::new(),
            };
            Loaded { config: Config { watched_paths, linked_paths: PathSet::new() }, rewrite: true }
        },
    }
}

/// Loads the registry from the text of its file.
///
/// `contents` is the text of the file, or nothing where the file is missing
/// or cannot be read. This never fails: what is no registry gives the
/// default registry, and has the file written anew.
pub fn load_config(contents: Option<&str>) -> (loaded: Loaded)
    ensures
        (loaded.config.watched_paths.list(), loaded.config.linked_paths.list(), loaded.rewrite)
            == loaded_lists(parsed(text_of(contents))),
{
    match contents {
        Some(text) => match parse_json(text) {
            Some(doc) => config_from_json(Some(&doc)),
            None => config_from_json(None),
        },
        None => config_from_json(None),
    }
}

/// The list of linked paths that the registry document in `doc` holds, as
/// the link reconciler reads it: the strings of its member `linked_paths`,
/// in their order and as often as they are named. Nothing where the tree is
/// no object, has no such member, or the member is not an array of strings.
pub fn linked_paths_from_json(doc: &Json) -> (paths: Option<Vec<String>>)
    ensures
        match paths {
            Some(found) => list_under(doc@, LINKED_PATHS@) == Some(texts(found@)),
            None => list_under(doc@, LINKED_PATHS@) is None,
        },
{
    list_under_key(doc, LINKED_PATHS)
}

/// What the link reconciler reads from a tree, if there is one.
pub open spec fn linked_list(doc: Option<JsonTree>) -> Option<Seq<Seq<char>>> {
    match doc {
        Some(tree) => list_under(tree, LINKED_PATHS@),
        None => None,
    }
}

/// The list of linked paths in the text of the registry file, as the link
/// reconciler reads it.
///
/// `contents` is the text of the file, or nothing where the file is missing
/// or cannot be read.
pub fn load_linked_paths(contents: Option<&str>) -> (paths: Option<Vec<String>>)
    ensures
        match paths {
            Some(found) => linked_list(parsed(text_of(contents))) == Some(texts(found@)),
            None => linked_list(parsed(text_of(contents))) is None,
        },
{
    match contents {
        Some(text) => match parse_json(text) {
            Some(doc) => linked_paths_from_json(&doc),
            None => None,
        },
        None => None,
    }
}

/// The watched directories that the registry document in `doc` holds, as
/// the watch service reads it: the strings of its member `watched_paths`,
/// each once. None where the tree is no object, has no such member, or the
/// member is not an array of strings.
pub fn watched_paths_from_json(doc: &Json) -> (paths: PathSet)
    ensures
        paths.list() == first_occurrences(recovered_watched(doc@)),
{
    match list_under_key(doc, WATCHED_PATHS) {
        Some(found) => PathSet::from_vec(found),
        None => PathSet::new(),
    }
}

/// What the watch service reads from a tree, if there is one.
pub open spec fn watched_list(doc: Option<JsonTree>) -> Seq<Seq<char>> {
    match doc {
        Some(tree) => first_occurrences(recovered_watched(tree)),
        None => Seq::empty(),
    }
}

/// The watched directories in the text of the registry file, as the watch
/// service reads it.
///
/// `contents` is the text of the file, or nothing where the file is missing
/// or cannot be read.
pub fn load_watched_paths(contents: Option<&str>) -> (paths: PathSet)
    ensures
        paths.list() == watched_list(parsed(text_of(contents))),
{
    match contents {
        Some(text) => match parse_json(text) {
            Some(doc) => watched_paths_from_json(&doc),
            None => PathSet::new(),
        },
        None => PathSet::new(),
    }
}

/// What `add_to_watched_paths` says of a path that is watched already.
pub open spec fn already_watched(path: Seq<char>) -> Seq<char> {
    "Path already exists in watched_paths: "@ + path
}

/// What `remove_from_watched_paths` says of a path that is not watched.
pub open spec fn not_watched(path: Seq<char>) -> Seq<char> {
    "Path not found in watched_paths: "@ + path
}

/// What `remove_from_linked_paths` says of a path that is not linked.
pub open spec fn not_linked(path: Seq<char>) -> Seq<char> {
    "Path not found in linked_paths: "@ + path
}

/// `prefix` followed by `path`.
fn message(prefix: &str, path: &str) -> (text: String)
    ensures
        text@ == prefix@ + path@,
{
    let mut out = to_chars(prefix);
    push_str(&mut out, path);
    from_chars(&out)
}

/// Links `normalized_path`. Returns whether the path was new to the linked
/// paths, in which case the registry has to be written; a path that is
/// linked already changes nothing.
pub fn add_to_linked_paths(config: &mut Config, normalized_path: &str) -> (inserted: bool)
    ensures
        inserted == !old(config).linked_paths@.contains(normalized_path@),
        final(config).linked_paths@ == old(config).linked_paths@.insert(normalized_path@),
        final(config).linked_paths.list() == if inserted {
            old(config).linked_paths.list().push(normalized_path@)
        } else {
            old(config).linked_paths.list()
        },
        final(config).watched_paths == old(config).watched_paths,
{
    config.linked_paths.insert(copy_text(normalized_path))
}

/// Watches `normalized_path`. A path that is watched already is an error
/// and changes nothing; after a success the registry has to be written.
pub fn add_to_watched_paths(config: &mut Config, normalized_path: &str) -> (result: Result<
    (),
    String,
>)
    ensures
        result is Ok <==> !old(config).watched_paths@.contains(normalized_path@),
        result matches Err(text) ==> text@ == already_watched(normalized_path@),
        final(config).watched_paths@ == old(config).watched_paths@.insert(normalized_path@),
        final(config).watched_paths.list() == if result is Ok {
            old(config).watched_paths.list().push(normalized_path@)
        } else {
            old(config).watched_paths.list()
        },
        final(config).linked_paths == old(config).linked_paths,
{
    if config.watched_paths.insert(copy_text(normalized_path)) {
        Ok(())
    } else {
        Err(message("Path already exists in watched_paths: ", normalized_path))
    }
}

/// Stops watching `normalized_path`. A path that is not watched is an error
/// and changes nothing; after a success the registry has to be written.
pub fn remove_from_watched_paths(config: &mut Config, normalized_path: &str) -> (result: Result<
    (),
    String,
>)
    ensures
        result is Ok <==> old(config).watched_paths@.contains(normalized_path@),
        result matches Err(text) ==> text@ == not_watched(normalized_path@),
        final(config).watched_paths@ == old(config).watched_paths@.remove(normalized_path@),
        final(config).linked_paths == old(config).linked_paths,
{
    if config.watched_paths.remove(normalized_path) {
        Ok(())
    } else {
        Err(message("Path not found in watched_paths: ", normalized_path))
    }
}

/// Unlinks `normalized_path`. A path that is not linked is an error and
/// changes nothing; after a success the registry has to be written.
pub fn remove_from_linked_paths(config: &mut Config, normalized_path: &str) -> (result: Result<
    (),
    String,
>)
    ensures
        result is Ok <==> old(config).linked_paths@.contains(normalized_path@),
        result matches Err(text) ==> text@ == not_linked(normalized_path@),
        final(config).linked_paths@ == old(config).linked_paths@.remove(normalized_path@),
        final(config).watched_paths == old(config).watched_paths,
{
    if config.linked_paths.remove(normalized_path) {
        Ok(())
    } else {
        Err(message("Path not found in linked_paths: ", normalized_path))
    }
}

/// Puts the stored forms `normalized` of the linked paths in their place.
/// Returns whether the set of linked paths changed by that, in which case
/// the registry has to be written; where the set is the same, nothing
/// changes.
pub fn set_linked_paths(config: &mut Config, normalized: Vec<String>) -> (changed: bool)
    ensures
        changed == (old(config).linked_paths@ != texts(normalized@).to_set()),
        final(config).linked_paths@ == texts(normalized@).to_set(),
        final(config).linked_paths.list() == if changed {
            first_occurrences(texts(normalized@))
        } else {
            old(config).linked_paths.list()
        },
        final(config).watched_paths == old(config).watched_paths,
{
    let stored = PathSet::from_vec(normalized);
    if config.linked_paths.same_set(&stored) {
        false
    } else {
        config.linked_paths = stored;
        true
    }
}

/// The place of the registry file for the command line: the first of the
/// two system-wide places at which a file exists, else the place below the
/// user's home directory. Nothing where neither file exists and there is
/// no home directory.
pub open spec fn config_path(
    system_exists: bool,
    program_data_exists: bool,
    home_dir: Option<Seq<char>>,
) -> Option<Seq<char>> {
    if system_exists {
        Some(SYSTEM_CONFIG@)
    } else if program_data_exists {
        Some(PROGRAM_DATA_CONFIG@)
    } else {
        match home_dir {
            Some(home) => Some(crate::path::join(crate::path::join(home, ".laracli"@), "config.json"@)),
            None => None,
        }
    }
}

/// The place of the registry file for the command line.
///
/// `system_exists` and `program_data_exists` say whether a file exists at
/// the first and at the second system-wide place.
pub fn get_config_path(system_exists: bool, program_data_exists: bool, home_dir: Option<&str>) -> (path:
    Option<String>)
    ensures
        match path {
            Some(found) => config_path(system_exists, program_data_exists, text_of(home_dir))
                == Some(found@),
            None => config_path(system_exists, program_data_exists, text_of(home_dir)) is None,
        },
{
    if system_exists {
        Some(copy_text(SYSTEM_CONFIG))
    } else if program_data_exists {
        Some(copy_text(PROGRAM_DATA_CONFIG))
    } else {
        match home_dir {
            Some(home) => {
                let dir = crate::path::join_path(home, ".laracli");
                Some(crate::path::join_path(dir.as_str(), "config.json"))
            },
            None => None,
        }
    }
}

/// The place of the registry file for the watch service: the file below the
/// user's home directory where it exists, else the first of the two
/// system-wide places at which a file exists, else the second of them.
pub open spec fn service_config_path(
    user_config: Option<Seq<char>>,
    system_exists: bool,
    program_data_exists: bool,
) -> Seq<char> {
    match user_config {
        Some(found) => found,
        None => if system_exists {
            SYSTEM_CONFIG@
        } else {
            PROGRAM_DATA_CONFIG@
        },
    }
}

/// The place of the registry file for the watch service.
///
/// `user_config` is the place of the file below the user's home directory,
/// given where that file exists.
pub fn get_service_config_path(
    user_config: Option<&str>,
    system_exists: bool,
    program_data_exists: bool,
) -> (path: String)
    ensures
        path@ == service_config_path(text_of(user_config), system_exists, program_data_exists),
{
    match user_config {
        Some(found) => copy_text(found),
        None => if system_exists {
            copy_text(SYSTEM_CONFIG)
        } else {
            copy_text(PROGRAM_DATA_CONFIG)
        },
    }
}

/// A registry document holds the lists of paths that it was made of: what
/// is written is what is read.
pub proof fn law_registry_document_round_trip(watched: Seq<Seq<char>>, linked: Seq<Seq<char>>)
    ensures
        registry_lists(members_tree(registry_members(watched, linked))) == Some((watched, linked)),
        watched.no_duplicates() && linked.no_duplicates() ==> loaded_lists(
            Some(members_tree(registry_members(watched, linked))),
        ) == (watched, linked, false),
{
    lemma_keys_differ();
    let members = registry_members(watched, linked);
    let tree = members_tree(members);
    let trees = tree->Object_0;
    assert(trees.len() == 2);
    assert(trees[0].0 == WATCHED_PATHS@);
    assert(trees[1].0 == LINKED_PATHS@);
    assert(member(trees, WATCHED_PATHS@) == Some(trees[0].1));
    assert(trees.skip(1)[0] == trees[1]);
    assert(member(trees.skip(1), LINKED_PATHS@) == Some(trees[1].1));
    assert(member(trees, LINKED_PATHS@) == Some(trees[1].1));
    lemma_strings_of_array(watched);
    lemma_strings_of_array(linked);
    lemma_first_occurrences(watched);
    lemma_first_occurrences(linked);
}

/// An array of strings holds its strings.
pub proof fn lemma_strings_of_array(list: Seq<Seq<char>>)
    ensures
        strings_of(JsonTree::Array(list.map_values(|text: Seq<char>| JsonTree::Text(text))))
            == Some(list),
{
    let items = list.map_values(|text: Seq<char>| JsonTree::Text(text));
    assert forall|i: int| 0 <= i < items.len() implies #[trigger] items[i] is Text by {}
    assert(Seq::new(items.len(), |i: int| items[i]->Text_0) =~= list);
}

} // verus!
