//! The host-entry manager: which line maps a project's `.test` domain to the
//! loopback address in the hosts file, when one is added and which are removed.
//!
//! The functions here work on the file's text. Reading and writing the file
//! is the caller's part.

use vstd::prelude::*;
use crate::text::{
    any_contains, any_line_contains, contains, count_containing, ends_lines, from_chars,
    is_unix_text, join_lines, join_lines_without, lemma_contains_middle, lemma_contains_part,
    lemma_count_zero, lemma_join_of_lines, lemma_lines_hold_no_line_feed, lemma_lines_of_concat,
    lemma_join_ends_lines, lemma_lines_of_grown, lemma_lines_of_join, lemma_lines_of_one,
    lemma_lines_without_holds_none,
    lemma_lines_without_none, lines_of, lines_without, no_line_feed, push_all, push_str,
    split_lines, to_chars, without_cr,
};

verus! {

/// The place of the hosts file.
pub const HOSTS_PATH: &'static str = r"C:\Windows\System32\drivers\etc\hosts";

/// The place of the file in which the hosts file is put together before it
/// takes the place of the old one.
pub const HOSTS_TEMP_PATH: &'static str = r"C:\laracli\hosts.tmp";

/// The address that every project's domain is mapped to.
pub const LOOPBACK: &'static str = "127.0.0.1";

/// What follows a project's name in its domain.
pub const DOMAIN_SUFFIX: &'static str = ".test";

/// The mark at the end of a line that this tool added.
pub const OWNER_TAG: &'static str = "#added by laracli";

/// The domain of a project: its name followed by `.test`.
pub open spec fn host_domain(name: Seq<char>) -> Seq<char> {
    name + DOMAIN_SUFFIX@
}

/// The line that maps a project's domain to the loopback address, with the
/// mark of this tool: the address, a tab, the domain, a blank and the mark.
pub open spec fn host_entry(name: Seq<char>) -> Seq<char> {
    LOOPBACK@ + seq!['\t'] + host_domain(name) + seq![' '] + OWNER_TAG@
}

/// Some line of the hosts file `text` holds the domain of the project `name`.
pub open spec fn has_entry(text: Seq<char>, name: Seq<char>) -> bool {
    any_contains(lines_of(text), host_domain(name))
}

/// The hosts file after the entry of `name` was added: unchanged where a line
/// holds the domain already, else with the entry and a line feed at its end.
pub open spec fn text_after_add(text: Seq<char>, name: Seq<char>) -> Seq<char> {
    if has_entry(text, name) {
        text
    } else {
        text + host_entry(name) + seq!['\n']
    }
}

/// The hosts file after the entries of `name` were removed: the lines that
/// do not hold the domain, each followed by a line feed.
pub open spec fn text_after_remove(text: Seq<char>, name: Seq<char>) -> Seq<char> {
    join_lines(lines_without(lines_of(text), host_domain(name)))
}

/// Why the hosts file was not touched.
#[derive(Debug, Clone, Copy, PartialEq, Eq, Structural)]
pub enum HostsError {
    /// The process does not hold the elevated privileges that a change of the
    /// hosts file needs.
    ElevationRequired,
}

/// What removing a project's entries makes of the hosts file.
#[derive(Debug, Clone, PartialEq, Eq)]
pub struct Removal {
    /// The text to put in place of the file's.
    pub contents: String,
    /// Whether a line held the project's domain.
    pub found: bool,
}

/// A change of the hosts file, as text: the model of a `HostAction`.
pub enum HostChange {
    /// The entry of the named project is added.
    Add(Seq<char>),
    /// The entries of the named project are removed.
    Remove(Seq<char>),
}

/// A change of the hosts file that a reconciler asks for.
#[derive(Debug, Clone, PartialEq, Eq)]
pub enum HostAction {
    /// Add the entry of the named project.
    Add(String),
    /// Remove the entries of the named project.
    Remove(String),
}

impl View for HostAction {
    type V = HostChange;

    open spec fn view(&self) -> HostChange {
        match self {
            HostAction::Add(name) => HostChange::Add(name@),
            HostAction::Remove(name) => HostChange::Remove(name@),
        }
    }
}

/// The hosts file after `change`.
pub open spec fn text_after(text: Seq<char>, change: HostChange) -> Seq<char> {
    match change {
        HostChange::Add(name) => text_after_add(text, name),
        HostChange::Remove(name) => text_after_remove(text, name),
    }
}

/// The domain of the project `name`.
pub fn domain_chars(name: &str) -> (domain: Vec<char>)
    ensures
        domain@ == host_domain(name@),
{
    let mut domain = to_chars(name);
    push_str(&mut domain, DOMAIN_SUFFIX);
    domain
}

/// The entry line of the project `name`, without a line end.
pub fn entry_chars(name: &str) -> (entry: Vec<char>)
    ensures
        entry@ == host_entry(name@),
{
    let mut entry = to_chars(LOOPBACK);
    entry.push('\t');
    let domain = domain_chars(name);
    push_all(&mut entry, &domain);
    entry.push(' ');
    push_str(&mut entry, OWNER_TAG);
    entry
}

/// Adds the entry of a project to the hosts file whose text is `contents`.
///
/// Returns the text to append to the file: nothing where a line holds the
/// project's domain already, else the entry line with its line feed. Fails,
/// whatever the file holds, where the process is not elevated.
pub fn add_host_entry(contents: &str, project_name: &str, elevated: bool) -> (result: Result<
    Option<String>,
    HostsError,
>)
    ensures
        !elevated ==> result == Err::<Option<String>, HostsError>(HostsError::ElevationRequired),
        elevated ==> result is Ok,
        elevated && has_entry(contents@, project_name@) ==> result == Ok::<
            Option<String>,
            HostsError,
        >(None),
        elevated && !has_entry(contents@, project_name@) ==> (result matches Ok(Some(line))
            && line@ == host_entry(project_name@) + seq!['\n']),
{
    if !elevated {
        return Err(HostsError::ElevationRequired);
    }
    let text = to_chars(contents);
    let lines = split_lines(&text);
    let domain = domain_chars(project_name);
    if any_line_contains(&lines, &domain) {
        return Ok(None);
    }
    let mut entry = entry_chars(project_name);
    entry.push('\n');
    Ok(Some(from_chars(&entry)))
}

/// Removes the entries of a project from the hosts file whose text is
/// `contents`.
///
/// Returns the text that replaces the file's: its lines without those that
/// hold the project's domain, each ended by a line feed, and whether there
/// was such a line. Fails, whatever the file holds, where the process is not
/// elevated.
pub fn remove_host_entry(contents: &str, project_name: &str, elevated: bool) -> (result: Result<
    Removal,
    HostsError,
>)
    ensures
        !elevated ==> result == Err::<Removal, HostsError>(HostsError::ElevationRequired),
        elevated ==> (result matches Ok(removal) && removal.contents@ == text_after_remove(
            contents@,
            project_name@,
        ) && removal.found == has_entry(contents@, project_name@)),
{
    if !elevated {
        return Err(HostsError::ElevationRequired);
    }
    let text = to_chars(contents);
    let lines = split_lines(&text);
    let domain = domain_chars(project_name);
    let found = any_line_contains(&lines, &domain);
    let out = join_lines_without(&lines, &domain);
    Ok(Removal { contents: from_chars(&out), found })
}

/// The text of the hosts file after `action`, given its text before.
///
/// Fails, whatever the file holds, where the process is not elevated.
pub fn apply_host_action(contents: &str, action: &HostAction, elevated: bool) -> (result: Result<
    String,
    HostsError,
>)
    ensures
        !elevated ==> result == Err::<String, HostsError>(HostsError::ElevationRequired),
        elevated ==> (result matches Ok(text) && text@ == text_after(contents@, action@)),
{
    match action {
        HostAction::Add(name) => {
            match add_host_entry(contents, name.as_str(), elevated) {
                Ok(Some(line)) => {
                    let mut text = to_chars(contents);
                    push_str(&mut text, line.as_str());
                    assert(text@ =~= contents@ + host_entry(name@) + seq!['\n']);
                    Ok(from_chars(&text))
                },
                Ok(None) => {
                    let text = to_chars(contents);
                    Ok(from_chars(&text))
                },
                Err(error) => Err(error),
            }
        },
        HostAction::Remove(name) => {
            match remove_host_entry(contents, name.as_str(), elevated) {
                Ok(removal) => Ok(removal.contents),
                Err(error) => Err(error),
            }
        },
    }
}

/// The entry line of a project whose name holds no line feed holds none
/// either, does not end in a carriage return, and holds the project's domain.
proof fn lemma_entry_shape(name: Seq<char>)
    requires
        no_line_feed(name),
    ensures
        no_line_feed(host_entry(name)),
        host_entry(name).len() > 0,
        host_entry(name).last() != '\r',
        contains(host_entry(name), host_domain(name)),
{
    reveal_strlit("127.0.0.1");
    reveal_strlit(".test");
    reveal_strlit("#added by laracli");
    let head = LOOPBACK@ + seq!['\t'];
    let tail = seq![' '] + OWNER_TAG@;
    let entry = host_entry(name);
    assert(entry =~= head + host_domain(name) + tail);
    lemma_contains_middle(head, host_domain(name), tail);
    assert(entry.last() == tail[tail.len() - 1]);
    assert forall|j: int| 0 <= j < entry.len() implies entry[j] != '\n' by {
        if j < head.len() {
            assert(entry[j] == head[j]);
        } else if j < head.len() + name.len() {
            assert(entry[j] == name[j - head.len()]);
        } else if j < head.len() + name.len() + 5 {
            assert(entry[j] == DOMAIN_SUFFIX@[j - head.len() - name.len()]);
        } else {
            assert(entry[j] == tail[j - head.len() - name.len() - 5]);
        }
    }
}

/// The lines of the hosts file after an entry was appended to it: the entry
/// is the last line, or the end of the last line where the file did not end
/// its last line; the lines before it stay.
proof fn lemma_lines_after_append(text: Seq<char>, name: Seq<char>)
    requires
        no_line_feed(name),
    ensures
        ({
            let lines = lines_of(text);
            let grown = lines_of(text + host_entry(name) + seq!['\n']);
            if ends_lines(text) {
                grown == lines.push(host_entry(name))
            } else {
                lines.len() > 0 && grown == lines.drop_last().push(lines.last() + host_entry(name))
            }
        }),
{
    let entry = host_entry(name);
    lemma_entry_shape(name);
    if ends_lines(text) {
        assert(text + entry + seq!['\n'] =~= text + (entry + seq!['\n']));
        lemma_lines_of_concat(text, entry + seq!['\n']);
        lemma_lines_of_one(entry);
        assert(lines_of(text) + seq![entry] =~= lines_of(text).push(entry));
    } else {
        lemma_lines_of_grown(text, entry);
        let line = lines_of(text).last() + entry;
        assert(line.last() == entry.last());
    }
}

/// Adding an entry leaves what the hosts file held where it was: the text
/// after it starts with the text before it.
pub proof fn law_add_keeps_the_text(text: Seq<char>, name: Seq<char>)
    ensures
        text_after_add(text, name).len() >= text.len(),
        text_after_add(text, name).take(text.len() as int) == text,
{
    assert(text_after_add(text, name).take(text.len() as int) =~= text);
}

/// Adding an entry that is there changes nothing, and after an entry was
/// added it is there: adding twice is adding once. The project's name holds
/// no line feed.
pub proof fn law_add_twice_is_add_once(text: Seq<char>, name: Seq<char>)
    requires
        no_line_feed(name),
    ensures
        has_entry(text_after_add(text, name), name),
        text_after_add(text_after_add(text, name), name) == text_after_add(text, name),
{
    if !has_entry(text, name) {
        let lines = lines_of(text);
        let entry = host_entry(name);
        let grown = lines_of(text_after_add(text, name));
        lemma_entry_shape(name);
        lemma_lines_after_append(text, name);
        if ends_lines(text) {
            assert(contains(grown[grown.len() - 1], host_domain(name)));
        } else {
            let line = lines.last() + entry;
            assert(line.subrange(lines.last().len() as int, line.len() as int) =~= entry);
            lemma_contains_part(line, lines.last().len() as int, line.len() as int, host_domain(name));
            assert(contains(grown[grown.len() - 1], host_domain(name)));
        }
    }
}

/// After the entry of a project was added twice in a row, exactly one line
/// holds the project's domain. This is stated for a hosts file in which at
/// most one line held it before, and for a name without a line feed.
pub proof fn law_add_twice_yields_one_entry(text: Seq<char>, name: Seq<char>)
    requires
        no_line_feed(name),
        count_containing(lines_of(text), host_domain(name)) <= 1,
    ensures
        count_containing(
            lines_of(text_after_add(text_after_add(text, name), name)),
            host_domain(name),
        ) == 1,
{
    let domain = host_domain(name);
    let lines = lines_of(text);
    law_add_twice_is_add_once(text, name);
    lemma_count_zero(lines, domain);
    if !has_entry(text, name) {
        let entry = host_entry(name);
        let grown = lines_of(text_after_add(text, name));
        lemma_entry_shape(name);
        lemma_lines_after_append(text, name);
        if ends_lines(text) {
            assert(grown.drop_last() =~= lines);
        } else {
            let line = lines.last() + entry;
            assert(line.subrange(lines.last().len() as int, line.len() as int) =~= entry);
            lemma_contains_part(line, lines.last().len() as int, line.len() as int, domain);
            assert(grown.drop_last() =~= lines.drop_last());
            lemma_count_zero(lines.drop_last(), domain);
            if any_contains(lines.drop_last(), domain) {
                let k = choose|k: int|
                    0 <= k < lines.drop_last().len() && contains(
                        #[trigger] lines.drop_last()[k],
                        domain,
                    );
                assert(lines[k] == lines.drop_last()[k]);
            }
        }
    }
}

/// Removing the entries of a project of which the hosts file holds none
/// keeps every line: the file's lines come back in their order, each ended
/// by one line feed.
pub proof fn law_remove_absent_keeps_lines(text: Seq<char>, name: Seq<char>)
    requires
        !has_entry(text, name),
    ensures
        text_after_remove(text, name) == join_lines(lines_of(text)),
{
    lemma_lines_without_none(lines_of(text), host_domain(name));
}

/// Removing the entries of a project of which the hosts file holds none
/// leaves the text as it was, character for character, where the file ends
/// each line with a line feed alone.
pub proof fn law_remove_absent_keeps_text(text: Seq<char>, name: Seq<char>)
    requires
        !has_entry(text, name),
        is_unix_text(text),
    ensures
        text_after_remove(text, name) == text,
{
    law_remove_absent_keeps_lines(text, name);
    lemma_join_of_lines(text);
}

/// After the entries of a project were removed, no line of the hosts file
/// holds the project's domain, and the other lines stand in their order,
/// each without a carriage return at its end.
pub proof fn law_remove_leaves_other_lines(text: Seq<char>, name: Seq<char>)
    ensures
        !has_entry(text_after_remove(text, name), name),
        lines_of(text_after_remove(text, name)) == lines_without(
            lines_of(text),
            host_domain(name),
        ).map_values(|line: Seq<char>| without_cr(line)),
{
    let domain = host_domain(name);
    let lines = lines_of(text);
    let kept = lines_without(lines, domain);
    let after = lines_of(text_after_remove(text, name));
    lemma_lines_hold_no_line_feed(text);
    lemma_lines_without_holds_none(lines, domain);
    assert forall|k: int| 0 <= k < kept.len() implies no_line_feed(#[trigger] kept[k]) by {
        let at = choose|at: int| 0 <= at < lines.len() && lines[at] == kept[k];
        assert(no_line_feed(lines[at]));
    }
    lemma_lines_of_join(kept);
    assert forall|k: int| 0 <= k < after.len() implies !contains(#[trigger] after[k], domain) by {
        let line = kept[k];
        assert(after[k] == without_cr(line));
        if contains(after[k], domain) {
            if after[k] != line {
                assert(after[k] =~= line.subrange(0, line.len() - 1));
                lemma_contains_part(line, 0, line.len() - 1, domain);
            }
            assert(contains(kept[k], domain));
        }
    }
}

/// After the entries of one project were removed and the entry of another
/// was added, as when a project is renamed, a line holds the new domain and
/// none holds the old one. This is stated for a new name without a line
/// feed whose entry line does not hold the old domain.
pub proof fn law_rename_moves_the_entry(text: Seq<char>, old_name: Seq<char>, new_name: Seq<char>)
    requires
        no_line_feed(new_name),
        !contains(host_entry(new_name), host_domain(old_name)),
    ensures
        has_entry(text_after_add(text_after_remove(text, old_name), new_name), new_name),
        !has_entry(text_after_add(text_after_remove(text, old_name), new_name), old_name),
{
    let removed = text_after_remove(text, old_name);
    let after = text_after_add(removed, new_name);
    law_add_twice_is_add_once(removed, new_name);
    law_remove_leaves_other_lines(text, old_name);
    if !has_entry(removed, new_name) {
        lemma_join_ends_lines(lines_without(lines_of(text), host_domain(old_name)));
        lemma_lines_after_append(removed, new_name);
        let before = lines_of(removed);
        let lines = lines_of(after);
        assert forall|k: int| 0 <= k < lines.len() implies !contains(
            #[trigger] lines[k],
            host_domain(old_name),
        ) by {
            if k < before.len() {
                assert(lines[k] == before[k]);
            }
        }
    }
}

} // verus!
