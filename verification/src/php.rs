//! The extensions of the bundled PHP: how its configuration is edited to
//! enable or disable one, and how the process id of the running PHP is read.

use vstd::prelude::*;
use crate::cli::{steps_of, Operation, Step};
use crate::number::{parse_decimal, parsed_decimal};
use crate::text::{
    contains, contains_chars, from_chars, join_lines, lines_of, push_all, push_str, replace_all,
    replace_all_chars, same_chars, split_lines, starts_with, starts_with_chars, text_of, to_chars,
    trim,
    trim_chars, trim_end, trim_end_chars, trim_start, trim_start_chars, views,
};

verus! {

/// The line that names the directory of the extensions.
pub const EXTENSION_DIR_LINE: &'static str = "extension_dir = \"ext\"";

/// The line that names the directory of the extensions, commented out.
pub const COMMENTED_EXTENSION_DIR_LINE: &'static str = ";extension_dir = \"ext\"";

/// Why the configuration of PHP was not edited.
#[derive(Debug, Clone, PartialEq, Eq)]
pub enum PhpError {
    /// There is no configuration file.
    IniNotFound,
    /// The library of the extension is not installed; the error names the
    /// file that is missing.
    ExtensionNotInstalled(String),
}

/// The configuration after an extension was disabled.
#[derive(Debug, Clone, PartialEq, Eq)]
pub struct Disabled {
    /// The text to put in place of the configuration's.
    pub contents: String,
    /// Whether a line enabled the extension.
    pub found: bool,
}

/// The line that enables the extension `name`.
pub open spec fn extension_line(name: Seq<char>) -> Seq<char> {
    "extension="@ + name
}

/// The line that enables the extension `name`, commented out.
pub open spec fn commented_extension_line(name: Seq<char>) -> Seq<char> {
    ";extension="@ + name
}

/// The file name of the library of the extension `name`.
pub open spec fn extension_library(name: Seq<char>) -> Seq<char> {
    "php_"@ + name + ".dll"@
}

/// The configuration with the directory of the extensions named: where the
/// line is commented out, each commented line gives way to the plain one;
/// where the line is missing, it is put at the end, after the configuration
/// without the white space at its end; else nothing changes.
pub open spec fn with_extension_dir(content: Seq<char>) -> Seq<char> {
    if contains(content, COMMENTED_EXTENSION_DIR_LINE@) {
        replace_all(content, COMMENTED_EXTENSION_DIR_LINE@, EXTENSION_DIR_LINE@)
    } else if !contains(content, EXTENSION_DIR_LINE@) {
        trim_end(content) + seq!['\n'] + EXTENSION_DIR_LINE@
    } else {
        content
    }
}

/// `line`, but for white space at its start, is `wanted`.
pub open spec fn reads(line: Seq<char>, wanted: Seq<char>) -> bool {
    trim_start(line) == wanted
}

/// Some line of `lines` reads `wanted`.
pub open spec fn any_reads(lines: Seq<Seq<char>>, wanted: Seq<char>) -> bool {
    exists|i: int| 0 <= i < lines.len() && reads(#[trigger] lines[i], wanted)
}

/// A line of the configuration after the extension `name` was enabled: the
/// commented line of the extension gives way to the plain one, any other
/// line stays.
pub open spec fn enabled_line(line: Seq<char>, name: Seq<char>) -> Seq<char> {
    if reads(line, commented_extension_line(name)) {
        extension_line(name)
    } else {
        line
    }
}

/// The lines of the configuration after the extension `name` was enabled.
pub open spec fn enabled_lines(lines: Seq<Seq<char>>, name: Seq<char>) -> Seq<Seq<char>> {
    lines.map_values(|line: Seq<char>| enabled_line(line, name))
}

/// The configuration after the extension `name` was enabled: the directory
/// of the extensions is named, a commented line of the extension is plain,
/// and where no line named the extension, its line is put at the end.
pub open spec fn enabled_ini(content: Seq<char>, name: Seq<char>) -> Seq<char> {
    let lines = lines_of(with_extension_dir(content));
    let body = join_lines(enabled_lines(lines, name));
    if any_reads(lines, extension_line(name)) || any_reads(lines, commented_extension_line(name)) {
        body
    } else {
        trim_end(body) + seq!['\n'] + extension_line(name)
    }
}

/// Naming the directory of the extensions changes the configuration: its
/// line was commented out or missing.
pub open spec fn extension_dir_changes(content: Seq<char>) -> bool {
    contains(content, COMMENTED_EXTENSION_DIR_LINE@) || !contains(content, EXTENSION_DIR_LINE@)
}

/// Enabling the extension `name` changes the configuration: the directory
/// of the extensions was not named, a line of the extension was commented
/// out, or no plain line enabled the extension.
pub open spec fn enabling_changes(content: Seq<char>, name: Seq<char>) -> bool {
    let lines = lines_of(with_extension_dir(content));
    ||| extension_dir_changes(content)
    ||| any_reads(lines, commented_extension_line(name))
    ||| !any_reads(lines, extension_line(name))
}

/// `line` enables the extension `name` or one whose name starts with it.
pub open spec fn enables(line: Seq<char>, name: Seq<char>) -> bool {
    starts_with(trim_start(line), extension_line(name))
}

/// Some line of `lines` enables the extension `name`.
pub open spec fn any_enables(lines: Seq<Seq<char>>, name: Seq<char>) -> bool {
    exists|i: int| 0 <= i < lines.len() && enables(#[trigger] lines[i], name)
}

/// A line of the configuration after the extension `name` was disabled: a
/// line that enables it gives way to the commented line of the extension,
/// any other line stays.
pub open spec fn disabled_line(line: Seq<char>, name: Seq<char>) -> Seq<char> {
    if enables(line, name) {
        commented_extension_line(name)
    } else {
        line
    }
}

/// The configuration after the extension `name` was disabled.
pub open spec fn disabled_ini(content: Seq<char>, name: Seq<char>) -> Seq<char> {
    join_lines(lines_of(content).map_values(|line: Seq<char>| disabled_line(line, name)))
}

/// The file name of the library of the extension `name`.
pub fn extension_library_name(name: &str) -> (file: String)
    ensures
        file@ == extension_library(name@),
{
    let mut out = to_chars("php_");
    push_str(&mut out, name);
    push_str(&mut out, ".dll");
    from_chars(&out)
}

/// The configuration with the directory of the extensions named.
fn name_extension_dir(content: &Vec<char>) -> (out: Vec<char>)
    ensures
        out@ == with_extension_dir(content@),
{
    let plain = to_chars(EXTENSION_DIR_LINE);
    let commented = to_chars(COMMENTED_EXTENSION_DIR_LINE);
    if contains_chars(content, &commented) {
        replace_all_chars(content, &commented, &plain)
    } else if !contains_chars(content, &plain) {
        let mut out = trim_end_chars(content);
        out.push('\n');
        push_all(&mut out, &plain);
        out
    } else {
        let mut out: Vec<char> = Vec::new();
        push_all(&mut out, content);
        assert(out@ =~= content@);
        out
    }
}

/// Whether naming the directory of the extensions changes the configuration.
fn extension_dir_is_unnamed(content: &Vec<char>) -> (changes: bool)
    ensures
        changes == extension_dir_changes(content@),
{
    let plain = to_chars(EXTENSION_DIR_LINE);
    let commented = to_chars(COMMENTED_EXTENSION_DIR_LINE);
    contains_chars(content, &commented) || !contains_chars(content, &plain)
}

/// Enables the extension `extension` in the configuration of PHP.
///
/// `ini` is the text of the configuration file, or nothing where there is
/// no such file; `library_exists` says whether the library of the extension
/// is installed. Returns the text to write to the file, or nothing where the
/// configuration enables the extension already and nothing is to be written.
pub fn enable_php_extension(ini: Option<&str>, library_exists: bool, extension: &str) -> (result:
    Result<Option<String>, PhpError>)
    ensures
        match ini {
            None => result == Err::<Option<String>, PhpError>(PhpError::IniNotFound),
            Some(content) => if !library_exists {
                result matches Err(PhpError::ExtensionNotInstalled(file)) && file@
                    == extension_library(extension@)
            } else {
                match result {
                    Ok(Some(text)) => enabling_changes(content@, extension@) && text@
                        == enabled_ini(content@, extension@),
                    Ok(None) => !enabling_changes(content@, extension@),
                    Err(_) => false,
                }
            },
        },
{
    let content = match ini {
        Some(content) => content,
        None => {
            return Err(PhpError::IniNotFound);
        },
    };
    if !library_exists {
        return Err(PhpError::ExtensionNotInstalled(extension_library_name(extension)));
    }
    let given = to_chars(content);
    let named = name_extension_dir(&given);
    let dir_changes = extension_dir_is_unnamed(&given);
    let mut plain = to_chars("extension=");
    push_str(&mut plain, extension);
    let mut commented = to_chars(";extension=");
    push_str(&mut commented, extension);
    let lines = split_lines(&named);
    let mut out: Vec<char> = Vec::new();
    let mut found_plain = false;
    let mut found_commented = false;
    let mut i: usize = 0;
    let ghost name = extension@;
    let ghost all = views(lines@);
    proof {
        assert(enabled_lines(all.take(0), name) =~= Seq::<Seq<char>>::empty());
    }
    while i < lines.len()
        invariant
            i <= lines.len(),
            all == views(lines@),
            name == extension@,
            plain@ == extension_line(name),
            commented@ == commented_extension_line(name),
            out@ == join_lines(enabled_lines(all.take(i as int), name)),
            found_plain == any_reads(all.take(i as int), extension_line(name)),
            found_commented == any_reads(all.take(i as int), commented_extension_line(name)),
        decreases lines.len() - i,
    {
        let ghost before = all.take(i as int);
        let ghost next = all.take(i + 1);
        proof {
            assert(next.drop_last() =~= before);
            assert(next.last() == lines@[i as int]@);
            assert(enabled_lines(next, name).drop_last() =~= enabled_lines(before, name));
            assert(enabled_lines(next, name).last() == enabled_line(next.last(), name));
        }
        let trimmed = trim_start_chars(&lines[i]);
        let is_plain = same_chars(&trimmed, &plain);
        let is_commented = same_chars(&trimmed, &commented);
        if is_commented {
            push_all(&mut out, &plain);
        } else {
            push_all(&mut out, &lines[i]);
        }
        out.push('\n');
        proof {
            assert(out@ =~= join_lines(enabled_lines(next, name)));
            lemma_any_reads_grows(before, next, extension_line(name));
            lemma_any_reads_grows(before, next, commented_extension_line(name));
        }
        if is_plain {
            found_plain = true;
        }
        if is_commented {
            found_commented = true;
        }
        i += 1;
    }
    proof {
        assert(all.take(lines.len() as int) =~= all);
    }
    if !found_plain && !found_commented {
        let mut grown = trim_end_chars(&out);
        grown.push('\n');
        push_all(&mut grown, &plain);
        out = grown;
    }
    if dir_changes || found_commented || !found_plain {
        Ok(Some(from_chars(&out)))
    } else {
        Ok(None)
    }
}

/// A line reads `wanted` in a list with one line more exactly when one did
/// before or the new line does.
proof fn lemma_any_reads_grows(before: Seq<Seq<char>>, next: Seq<Seq<char>>, wanted: Seq<char>)
    requires
        next.len() > 0,
        next.drop_last() == before,
    ensures
        any_reads(next, wanted) == (any_reads(before, wanted) || reads(next.last(), wanted)),
{
    if any_reads(next, wanted) {
        let k = choose|k: int| 0 <= k < next.len() && reads(#[trigger] next[k], wanted);
        if k < before.len() {
            assert(before[k] == next[k]);
        }
    }
    if any_reads(before, wanted) {
        let k = choose|k: int| 0 <= k < before.len() && reads(#[trigger] before[k], wanted);
        assert(before[k] == next[k]);
    }
    if reads(next.last(), wanted) {
        assert(reads(next[next.len() - 1], wanted));
    }
}

/// Disables the extension `extension` in the configuration of PHP.
///
/// `ini` is the text of the configuration file, or nothing where there is
/// no such file. Returns the text to write to the file, and whether a line
/// enabled the extension.
pub fn disable_php_extension(ini: Option<&str>, extension: &str) -> (result: Result<
    Disabled,
    PhpError,
>)
    ensures
        match ini {
            None => result == Err::<Disabled, PhpError>(PhpError::IniNotFound),
            Some(content) => result matches Ok(disabled) && disabled.contents@ == disabled_ini(
                content@,
                extension@,
            ) && disabled.found == any_enables(lines_of(content@), extension@),
        },
{
    let content = match ini {
        Some(content) => content,
        None => {
            return Err(PhpError::IniNotFound);
        },
    };
    let given = to_chars(content);
    let mut plain = to_chars("extension=");
    push_str(&mut plain, extension);
    let mut commented = to_chars(";extension=");
    push_str(&mut commented, extension);
    let lines = split_lines(&given);
    let mut out: Vec<char> = Vec::new();
    let mut found = false;
    let mut i: usize = 0;
    let ghost name = extension@;
    let ghost all = views(lines@);
    let ghost edit = |line: Seq<char>| disabled_line(line, name);
    proof {
        assert(all.take(0).map_values(edit) =~= Seq::<Seq<char>>::empty());
    }
    while i < lines.len()
        invariant
            i <= lines.len(),
            all == views(lines@),
            name == extension@,
            edit == |line: Seq<char>| disabled_line(line, name),
            plain@ == extension_line(name),
            commented@ == commented_extension_line(name),
            out@ == join_lines(all.take(i as int).map_values(edit)),
            found == any_enables(all.take(i as int), name),
        decreases lines.len() - i,
    {
        let ghost before = all.take(i as int);
        let ghost next = all.take(i + 1);
        proof {
            assert(next.drop_last() =~= before);
            assert(next.last() == lines@[i as int]@);
            assert(next.map_values(edit).drop_last() =~= before.map_values(edit));
            assert(next.map_values(edit).last() == disabled_line(next.last(), name));
        }
        let trimmed = trim_start_chars(&lines[i]);
        let enabled = starts_with_chars(&trimmed, &plain);
        if enabled {
            push_all(&mut out, &commented);
        } else {
            push_all(&mut out, &lines[i]);
        }
        out.push('\n');
        proof {
            assert(out@ =~= join_lines(next.map_values(edit)));
            if any_enables(next, name) {
                let k = choose|k: int| 0 <= k < next.len() && enables(#[trigger] next[k], name);
                if k < i {
                    assert(before[k] == next[k]);
                }
            }
            if any_enables(before, name) {
                let k = choose|k: int| 0 <= k < before.len() && enables(
                    #[trigger] before[k],
                    name,
                );
                assert(before[k] == next[k]);
            }
            if enabled {
                assert(enables(next[i as int], name));
            }
        }
        if enabled {
            found = true;
        }
        i += 1;
    }
    proof {
        assert(all.take(lines.len() as int) =~= all);
    }
    Ok(Disabled { contents: from_chars(&out), found })
}

/// The process id that the file of the running PHP holds: the number that
/// its text reads, white space at both ends apart, where that is a decimal
/// number of at most 32 bits.
pub open spec fn process_id(contents: Seq<char>) -> Option<u32> {
    match parsed_decimal(trim(contents)) {
        Some(value) => if value <= u32::MAX {
            Some(value as u32)
        } else {
            None
        },
        None => None,
    }
}

/// The process id that the file of the running PHP holds, if it holds one.
pub fn read_process_id(contents: &str) -> (id: Option<u32>)
    ensures
        id == process_id(contents@),
{
    let text = to_chars(contents);
    let text = trim_chars(&text);
    match parse_decimal(&text) {
        Some(value) => if value <= 0xFFFF_FFFF {
            Some(value as u32)
        } else {
            None
        },
        None => None,
    }
}

/// How the running PHP is stopped.
#[derive(Debug, Clone, Copy, PartialEq, Eq, Structural)]
pub enum StopPhp {
    /// No file holds its process id: every process of PHP is ended.
    AllProcesses,
    /// The process with this id is ended, and the file that held the id is
    /// removed.
    Process(u32),
}

/// The file of the running PHP holds no process id.
#[derive(Debug, Clone, Copy, PartialEq, Eq, Structural)]
pub struct InvalidProcessId {}

/// How the running PHP is to be stopped: by the process id in its file,
/// which is an error where the file holds none, or by its name where there
/// is no file.
pub open spec fn stop_plan(pid_file: Option<Seq<char>>) -> Result<StopPhp, InvalidProcessId> {
    match pid_file {
        None => Ok(StopPhp::AllProcesses),
        Some(contents) => match process_id(contents) {
            Some(id) => Ok(StopPhp::Process(id)),
            None => Err(InvalidProcessId {  }),
        },
    }
}

/// How the running PHP is to be stopped.
///
/// `pid_file` is the text of the file that holds its process id, or nothing
/// where there is no such file.
pub fn plan_stop_php(pid_file: Option<&str>) -> (plan: Result<StopPhp, InvalidProcessId>)
    ensures
        plan == stop_plan(text_of(pid_file)),
{
    match pid_file {
        None => Ok(StopPhp::AllProcesses),
        Some(contents) => match read_process_id(contents) {
            Some(id) => Ok(StopPhp::Process(id)),
            None => Err(InvalidProcessId {  }),
        },
    }
}

/// The operations that restart PHP: it is stopped, then started.
pub fn restart_php_service() -> (operations: Vec<Operation>)
    ensures
        steps_of(operations@) == seq![Step::StopPhp, Step::StartPhp],
{
    let mut operations: Vec<Operation> = Vec::new();
    operations.push(Operation::StopPhp);
    operations.push(Operation::StartPhp);
    assert(steps_of(operations@) =~= seq![Step::StopPhp, Step::StartPhp]);
    operations
}

} // verus!
