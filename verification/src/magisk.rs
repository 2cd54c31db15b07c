//! The installed framework: its version, its modules, its settings and the
//! list of apps that may become root.

use crate::paths::{join, join_path};
use crate::text::{
    after_last, after_last_char, contains_chars, decimal_chars, decimal_of, ends_with_chars,
    eq_chars, first_index_of, from_chars, has_subseq, is_suffix, lemma_first_index_is,
    lemma_texts_push, lines_of, parse_i32_chars, parse_i32_of,
    split_lines_chars, split_once_chars, split_once_of, split_whitespace_chars, strip_suffixes,
    texts, to_chars, trim_chars, trim_end_matches_chars, trim_of, views, words_of,
};
use vstd::prelude::*;
use vstd::string::StringExecFns;
use vstd::string::StrSliceExecFns;

verus! {

/// What ends the version that the framework reports.
pub const VERSION_MARK: &'static str = ":MAGISK:R";

/// Where the modules are, below the data home.
pub const MODULES_DIR: &'static str = "waydroid/data/adb/modules";

/// The query for the Zygisk setting.
pub const ZYGISK_QUERY: &'static str = "\"SELECT value FROM settings WHERE key == 'zygisk'\"";

/// The statement that switches Zygisk on.
pub const ZYGISK_ON: &'static str = "\"REPLACE INTO settings (key,value) VALUES('zygisk',1)\"";

/// The statement that switches Zygisk off.
pub const ZYGISK_OFF: &'static str = "\"REPLACE INTO settings (key,value) VALUES('zygisk',0)\"";

/// The query for the apps that asked to become root.
pub const POLICY_QUERY: &'static str = "\"SELECT uid,policy FROM policies\"";

/// Why the framework cannot do what was asked.
#[derive(Clone, Copy, PartialEq, Eq, Debug, Structural)]
pub enum MagiskError {
    ContainerNotRunning,
    SessionNotRunning,
    NotInstalled,
    ModuleNotFound,
    AlreadyDisabled,
    AlreadyEnabled,
    NoSuchFile,
    NotZip,
    NoModuleName,
    InvalidPackage,
}

/// The installed framework.
#[derive(Debug)]
pub struct Magisk {
    /// The framework is installed and set up.
    pub installed: bool,
    /// Its version, without the mark at its end; empty if the mark is
    /// missing.
    pub version: String,
    /// The directory of its modules.
    pub modules_path: String,
}

/// A module and whether it is switched off.
#[derive(Debug)]
pub struct ModuleEntry {
    pub name: String,
    pub disabled: bool,
}

/// The version without the mark: the report without the white space around
/// it and without every mark at its end, if it holds the mark at all;
/// otherwise nothing.
pub open spec fn normalized_version(report: Seq<char>) -> Seq<char> {
    if has_subseq(trim_of(report), VERSION_MARK@) {
        strip_suffixes(trim_of(report), VERSION_MARK@)
    } else {
        Seq::empty()
    }
}

/// The version without the mark.
pub fn normalize_version(report: &str) -> (version: String)
    ensures
        version@ == normalized_version(report@),
{
    let text = to_chars(report);
    let trimmed = trim_chars(text.as_slice());
    let mark = to_chars(VERSION_MARK);
    if contains_chars(trimmed.as_slice(), mark.as_slice()) {
        let bare = trim_end_matches_chars(trimmed.as_slice(), mark.as_slice());
        from_chars(bare.as_slice())
    } else {
        String::new()
    }
}

/// The installed version holds the version on offer: nothing has to be
/// updated.
pub fn is_current(local: &str, remote: &str) -> (r: bool)
    ensures
        r == has_subseq(local@, remote@),
{
    crate::text::str_contains(local, remote)
}

/// The installed version is one that can be updated: the framework
/// reported a version with its mark, so that there is a version to speak of.
pub fn is_recognized(local: &str) -> (r: bool)
    ensures
        r == (local@.len() > 0),
{
    local.unicode_len() > 0
}

/// The installed version is of the modern kind.
pub fn is_modern(local: &str) -> (r: bool)
    ensures
        r == !has_subseq(local@, "v27.2"@),
{
    !crate::text::str_contains(local, "v27.2")
}

/// The installed version is of the legacy kind, which has its own applets.
pub fn is_kitsune(version: &str) -> (r: bool)
    ensures
        r == (has_subseq(version@, "kitsune"@) || has_subseq(version@, "v27.2-Waydroid"@)),
{
    crate::text::str_contains(version, "kitsune") || crate::text::str_contains(
        version,
        "v27.2-Waydroid",
    )
}

/// What a module is listed as: its name, and that it is switched off.
pub open spec fn module_label(name: Seq<char>, disabled: bool) -> Seq<char> {
    if disabled {
        name + " (disabled)"@
    } else {
        name
    }
}

/// The labels of the modules, in order.
pub open spec fn module_labels(modules: Seq<ModuleEntry>) -> Seq<Seq<char>> {
    Seq::new(modules.len(), |i: int| module_label(modules[i].name@, modules[i].disabled))
}

/// A character in lower case, if it is an ASCII letter.
pub open spec fn lower(c: char) -> char {
    if 'A' <= c && c <= 'Z' {
        ((c as u32 + 32) as u8) as char
    } else {
        c
    }
}

/// The path names a zip archive: it ends in `.zip`, in whatever case, not
/// counting the white space around it.
pub open spec fn names_zip(path: Seq<char>) -> bool {
    is_suffix(".zip"@, trim_of(path).map_values(|c: char| lower(c)))
}

fn to_lower(c: char) -> (r: char)
    ensures
        r == lower(c),
{
    if 'A' <= c && c <= 'Z' {
        ((c as u32 + 32) as u8) as char
    } else {
        c
    }
}

fn path_names_zip(path: &str) -> (r: bool)
    ensures
        r == names_zip(path@),
{
    let text = to_chars(path);
    let trimmed = trim_chars(text.as_slice());
    let mut lowered: Vec<char> = Vec::new();
    let mut i: usize = 0;
    while i < trimmed.len()
        invariant
            i <= trimmed@.len(),
            lowered@ == trimmed@.subrange(0, i as int).map_values(|c: char| lower(c)),
        decreases trimmed@.len() - i,
    {
        let c = to_lower(trimmed[i]);
        proof {
            assert(trimmed@.subrange(0, i + 1).map_values(|c: char| lower(c)) =~= trimmed@.subrange(
                0,
                i as int,
            ).map_values(|c: char| lower(c)).push(lower(trimmed@[i as int])));
        }
        lowered.push(c);
        i += 1;
    }
    assert(trimmed@.subrange(0, trimmed@.len() as int) =~= trimmed@);
    let zip = to_chars(".zip");
    ends_with_chars(lowered.as_slice(), zip.as_slice())
}

/// A module archive that is ready to be installed.
#[derive(Debug)]
pub struct ModuleInstall {
    /// The name of the archive.
    pub file_name: String,
    /// Where the guest finds the archive once it is copied there.
    pub guest_path: String,
}

/// The id that a module's property file names: the value of the first line
/// whose key is `id`. Lines that are empty or start with `#` do not count;
/// a line is read without the white space around it, its key ends at the
/// first `=`.
pub open spec fn module_id(lines: Seq<Seq<char>>) -> Option<Seq<char>>
    decreases lines.len(),
{
    if lines.len() == 0 {
        None
    } else {
        match line_id(lines[0]) {
            Some(id) => Some(id),
            None => module_id(lines.subrange(1, lines.len() as int)),
        }
    }
}

/// The id that one line of a property file names, if it names one.
pub open spec fn line_id(line: Seq<char>) -> Option<Seq<char>> {
    let text = trim_of(line);
    if text.len() == 0 || text[0] == '#' {
        None
    } else {
        match split_once_of(text, '=') {
            Some(pair) => if pair.0 == "id"@ {
                Some(pair.1)
            } else {
                None
            },
            None => None,
        }
    }
}

/// The view of an optional string.
pub open spec fn opt_text(o: Option<String>) -> Option<Seq<char>> {
    match o {
        Some(s) => Some(s@),
        None => None,
    }
}

/// The id that a module's property file names.
pub fn get_module_name(prop: &str) -> (r: Result<String, MagiskError>)
    ensures
        match r {
            Ok(id) => module_id(lines_of(prop@, '\n', '\r')) == Some(id@),
            Err(e) => e == MagiskError::NoModuleName && module_id(lines_of(prop@, '\n', '\r'))
                is None,
        },
{
    let text = to_chars(prop);
    let lines = split_lines_chars(text.as_slice());
    let key = to_chars("id");
    let mut i: usize = 0;
    assert(views(lines@).subrange(0, views(lines@).len() as int) =~= views(lines@));
    while i < lines.len()
        invariant
            i <= lines@.len(),
            key@ == "id"@,
            views(lines@) == lines_of(prop@, '\n', '\r'),
            module_id(views(lines@)) == module_id(
                views(lines@).subrange(i as int, lines@.len() as int),
            ),
        decreases lines@.len() - i,
    {
        let ghost rest = views(lines@).subrange(i as int, lines@.len() as int);
        proof {
            assert(rest[0] == lines@[i as int]@);
            assert(rest.subrange(1, rest.len() as int) =~= views(lines@).subrange(
                i + 1,
                lines@.len() as int,
            ));
        }
        let line = trim_chars(lines[i].as_slice());
        if line.len() > 0 && line[0] != '#' {
            match split_once_chars(line.as_slice(), '=') {
                Some(pair) => {
                    if eq_chars(pair.0.as_slice(), key.as_slice()) {
                        let id = from_chars(pair.1.as_slice());
                        assert(line_id(rest[0]) == Some(id@));
                        return Ok(id);
                    }
                },
                None => {},
            }
        }
        i += 1;
    }
    Err(MagiskError::NoModuleName)
}

/// Whether Zygisk is on, going by the answer to [`ZYGISK_QUERY`]: what
/// follows the last `=` of the answer is `1`.
pub open spec fn zygisk_on(answer: Seq<char>) -> bool {
    after_last(trim_of(answer), '=') == "1"@
}

/// The uid and the policy that one line of the policy table names: the uid
/// in its first field, the policy in its second, each after the last `=` of
/// the field; fields end at `|`.
pub open spec fn policy_entry(line: Seq<char>) -> Option<(i32, i32)> {
    match split_once_of(line, '|') {
        None => None,
        Some(pair) => {
            let second = pair.1.subrange(0, first_index_of(pair.1, '|'));
            let policy = parse_i32_of(trim_of(after_last(trim_of(second), '=')));
            let uid = parse_i32_of(trim_of(after_last(trim_of(pair.0), '=')));
            if policy is Some && uid is Some {
                Some((uid->0, policy->0))
            } else {
                None
            }
        },
    }
}

/// The entries of the policy table: the uid of each line that names one and
/// a policy, and whether the policy allows.
pub open spec fn policy_entries(lines: Seq<Seq<char>>) -> Seq<(i32, bool)>
    decreases lines.len(),
{
    if lines.len() == 0 {
        Seq::empty()
    } else {
        let before = policy_entries(lines.drop_last());
        match policy_entry(lines.last()) {
            Some(entry) => before.push((entry.0, entry.1 == 2)),
            None => before,
        }
    }
}

fn field_number(field: &[char]) -> (r: Option<i32>)
    ensures
        r == parse_i32_of(trim_of(after_last(trim_of(field@), '='))),
{
    let trimmed = trim_chars(field);
    let value = after_last_char(trimmed.as_slice(), '=');
    let bare = trim_chars(value.as_slice());
    parse_i32_chars(bare.as_slice())
}

fn read_policy_line(line: &[char]) -> (r: Option<(i32, i32)>)
    ensures
        r == policy_entry(line@),
{
    match split_once_chars(line, '|') {
        None => None,
        Some(pair) => {
            let rest = pair.1.as_slice();
            let mut j: usize = 0;
            while j < rest.len() && rest[j] != '|'
                invariant
                    j <= rest@.len(),
                    forall|k: int| 0 <= k < j ==> rest@[k] != '|',
                decreases rest@.len() - j,
            {
                j += 1;
            }
            proof {
                lemma_first_index_is(rest@, '|', j as int);
            }
            let second = vstd::slice::slice_subrange(rest, 0, j);
            let policy = field_number(second);
            let uid = field_number(pair.0.as_slice());
            match (uid, policy) {
                (Some(u), Some(p)) => Some((u, p)),
                _ => None,
            }
        },
    }
}

/// The name that one line of the package list names: what follows the last
/// `:` of its first word, without the white space around it.
pub open spec fn line_package(line: Seq<char>) -> Option<Seq<char>> {
    if words_of(line).len() > 0 {
        Some(trim_of(after_last(words_of(line)[0], ':')))
    } else {
        None
    }
}

/// The names that the lines of a package list name, in order.
pub open spec fn package_names(lines: Seq<Seq<char>>) -> Seq<Seq<char>>
    decreases lines.len(),
{
    if lines.len() == 0 {
        Seq::empty()
    } else {
        let before = package_names(lines.drop_last());
        match line_package(lines.last()) {
            Some(name) => before.push(name),
            None => before,
        }
    }
}

/// The packages of a uid: the names of the package list, or the uid itself
/// if the list names none or the guest gave no list.
pub open spec fn spec_get_package(listing: Option<Seq<char>>, uid: i32) -> Seq<Seq<char>> {
    let names = match listing {
        Some(text) => package_names(lines_of(text, '\n', '\r')),
        None => Seq::empty(),
    };
    if names.len() == 0 {
        seq!["uid:"@ + decimal_of(uid as int)]
    } else {
        names
    }
}

/// The packages of a uid, from what the guest listed for it.
pub fn get_package(listing: Option<&str>, uid: i32) -> (names: Vec<String>)
    ensures
        texts(names@) == spec_get_package(
            match listing {
                Some(text) => Some(text@),
                None => None,
            },
            uid,
        ),
{
    let mut names: Vec<String> = Vec::new();
    assert(texts(names@) =~= Seq::<Seq<char>>::empty());
    match listing {
        Some(text) => {
            let chars = to_chars(text);
            let lines = split_lines_chars(chars.as_slice());
            let mut i: usize = 0;
            assert(views(lines@).subrange(0, 0) =~= Seq::<Seq<char>>::empty());
            while i < lines.len()
                invariant
                    i <= lines@.len(),
                    texts(names@) == package_names(views(lines@).subrange(0, i as int)),
                decreases lines@.len() - i,
            {
                let ghost done = views(lines@).subrange(0, i + 1);
                proof {
                    assert(done.drop_last() =~= views(lines@).subrange(0, i as int));
                    assert(done.last() == lines@[i as int]@);
                }
                let words = split_whitespace_chars(lines[i].as_slice());
                if words.len() > 0 {
                    assert(views(words@)[0] == words@[0]@);
                    let tail = after_last_char(words[0].as_slice(), ':');
                    let name = trim_chars(tail.as_slice());
                    let text = from_chars(name.as_slice());
                    proof {
                        lemma_texts_push(names@, text);
                    }
                    names.push(text);
                }
                i += 1;
            }
            assert(views(lines@).subrange(0, lines@.len() as int) =~= views(lines@));
        },
        None => {},
    }
    if names.len() == 0 {
        let mut label = String::from_str("uid:");
        let digits = decimal_chars(uid as i64);
        let number = from_chars(digits.as_slice());
        label.append(number.as_str());
        proof {
            lemma_texts_push(names@, label);
        }
        names.push(label);
        assert(texts(names@) =~= seq!["uid:"@ + decimal_of(uid as int)]);
    }
    names
}

/// Some line of the package list names the package: what follows the last
/// `:` of its first word is the package's name.
pub open spec fn lists_package(lines: Seq<Seq<char>>, package: Seq<char>) -> bool {
    exists|i: int|
        0 <= i < lines.len() && words_of(#[trigger] lines[i]).len() > 0 && after_last(
            words_of(lines[i])[0],
            ':',
        ) == package
}

/// The app id of a package: what follows the last `:` of the second word of
/// the package list, if the list names the package; otherwise nothing.
pub open spec fn spec_get_app_id(listing: Option<Seq<char>>, package: Seq<char>) -> Seq<char> {
    match listing {
        Some(text) => if lists_package(lines_of(text, '\n', '\r'), package) && words_of(
            text,
        ).len() > 1 {
            after_last(words_of(text)[1], ':')
        } else {
            Seq::empty()
        },
        None => Seq::empty(),
    }
}

/// The app id of a package, from what the guest listed for it.
pub fn get_app_id(listing: Option<&str>, package: &str) -> (id: String)
    ensures
        id@ == spec_get_app_id(
            match listing {
                Some(text) => Some(text@),
                None => None,
            },
            package@,
        ),
{
    match listing {
        None => String::new(),
        Some(text) => {
            let chars = to_chars(text);
            let wanted = to_chars(package);
            let lines = split_lines_chars(chars.as_slice());
            let mut listed = false;
            let mut i: usize = 0;
            while i < lines.len()
                invariant
                    i <= lines@.len(),
                    wanted@ == package@,
                    listed == lists_package(views(lines@).subrange(0, i as int), package@),
                decreases lines@.len() - i,
            {
                let ghost before = views(lines@).subrange(0, i as int);
                let ghost after = views(lines@).subrange(0, i + 1);
                let words = split_whitespace_chars(lines[i].as_slice());
                let mut here = false;
                if words.len() > 0 {
                    assert(views(words@)[0] == words@[0]@);
                    let name = after_last_char(words[0].as_slice(), ':');
                    here = eq_chars(name.as_slice(), wanted.as_slice());
                }
                proof {
                    assert(after[i as int] == lines@[i as int]@);
                    assert forall|k: int| 0 <= k < i implies after[k] == before[k] by {}
                    if listed {
                        let k = choose|k: int|
                            0 <= k < before.len() && words_of(#[trigger] before[k]).len() > 0
                                && after_last(words_of(before[k])[0], ':') == package@;
                        assert(after[k] == before[k]);
                        assert(lists_package(after, package@));
                    }
                    if here {
                        assert(lists_package(after, package@));
                    }
                    if !listed && !here {
                        if lists_package(after, package@) {
                            let k = choose|k: int|
                                0 <= k < after.len() && words_of(#[trigger] after[k]).len() > 0
                                    && after_last(words_of(after[k])[0], ':') == package@;
                            if k < i {
                                assert(before[k] == after[k]);
                                assert(lists_package(before, package@));
                            }
                        }
                    }
                }
                listed = listed || here;
                i += 1;
            }
            assert(views(lines@).subrange(0, lines@.len() as int) =~= views(lines@));
            let words = split_whitespace_chars(chars.as_slice());
            if listed && words.len() > 1 {
                assert(views(words@)[1] == words@[1]@);
                let id = after_last_char(words[1].as_slice(), ':');
                from_chars(id.as_slice())
            } else {
                String::new()
            }
        },
    }
}

/// The arguments that list the packages that match a uid or a name.
pub fn package_query(query: &str) -> (argv: Vec<String>)
    ensures
        texts(argv@) == seq!["pm"@, "list"@, "packages"@, "-U"@, "|"@, "grep"@, query@],
{
    let mut argv: Vec<String> = Vec::new();
    argv.push(String::from_str("pm"));
    argv.push(String::from_str("list"));
    argv.push(String::from_str("packages"));
    argv.push(String::from_str("-U"));
    argv.push(String::from_str("|"));
    argv.push(String::from_str("grep"));
    argv.push(String::from_str(query));
    assert(texts(argv@) =~= seq!["pm"@, "list"@, "packages"@, "-U"@, "|"@, "grep"@, query@]);
    argv
}

/// The statement that records whether an app may become root.
pub open spec fn policy_statement(app_id: Seq<char>, allow: bool) -> Seq<char> {
    "\"REPLACE INTO policies VALUES("@ + app_id + ","@ + (if allow {
        "2"@
    } else {
        "1"@
    }) + ",0,1,1)\""@
}

/// The arguments that call an applet of the framework.
pub open spec fn applet_args(applet: Seq<char>, args: Seq<Seq<char>>) -> Seq<Seq<char>> {
    seq!["magisk"@, applet] + args
}

/// The view of a result that holds arguments.
pub open spec fn args_view(r: Result<Vec<String>, MagiskError>) -> Result<
    Seq<Seq<char>>,
    MagiskError,
> {
    match r {
        Ok(argv) => Ok(texts(argv@)),
        Err(e) => Err(e),
    }
}

impl Magisk {
    /// What every request to the framework needs: the container runs, and
    /// the framework is installed.
    pub open spec fn spec_ready(self, container_running: bool) -> Result<(), MagiskError> {
        if !container_running {
            Err(MagiskError::ContainerNotRunning)
        } else if !self.installed {
            Err(MagiskError::NotInstalled)
        } else {
            Ok(())
        }
    }

    /// The installed framework, from what it reports as its version.
    pub fn new(installed: bool, report: &str, data_home: &str) -> (r: Result<Magisk, MagiskError>)
        ensures
            installed ==> r is Ok && r->Ok_0.installed && r->Ok_0.version@ == normalized_version(
                report@,
            ) && r->Ok_0.modules_path@ == join_path(data_home@, MODULES_DIR@),
            !installed ==> r == Err::<Magisk, MagiskError>(MagiskError::NotInstalled),
    {
        if !installed {
            return Err(MagiskError::NotInstalled);
        }
        Ok(
            Magisk {
                installed,
                version: normalize_version(report),
                modules_path: join(data_home, MODULES_DIR),
            },
        )
    }

    /// The version of the framework.
    pub fn version(&self) -> (v: &str)
        ensures
            v@ == self.version@,
    {
        self.version.as_str()
    }

    /// Checks what every request to the framework needs.
    pub fn ready(&self, container_running: bool) -> (r: Result<(), MagiskError>)
        ensures
            r == self.spec_ready(container_running),
    {
        if !container_running {
            Err(MagiskError::ContainerNotRunning)
        } else if !self.installed {
            Err(MagiskError::NotInstalled)
        } else {
            Ok(())
        }
    }

    /// The lines that list the modules: one for each, in order. A session
    /// has to run, and the framework has to be installed.
    pub fn list_modules(&self, session_running: bool, modules: &Vec<ModuleEntry>) -> (r: Result<
        Vec<String>,
        MagiskError,
    >)
        ensures
            !session_running ==> r == Err::<Vec<String>, MagiskError>(
                MagiskError::SessionNotRunning,
            ),
            session_running && !self.installed ==> r == Err::<Vec<String>, MagiskError>(
                MagiskError::NotInstalled,
            ),
            session_running && self.installed ==> r is Ok && texts(r->Ok_0@) == module_labels(
                modules@,
            ),
    {
        if !session_running {
            return Err(MagiskError::SessionNotRunning);
        }
        if !self.installed {
            return Err(MagiskError::NotInstalled);
        }
        let mut labels: Vec<String> = Vec::new();
        let mut i: usize = 0;
        while i < modules.len()
            invariant
                i <= modules@.len(),
                texts(labels@) == module_labels(modules@).subrange(0, i as int),
            decreases modules@.len() - i,
        {
            let mut label = String::from_str(modules[i].name.as_str());
            if modules[i].disabled {
                label.append(" (disabled)");
            }
            proof {
                lemma_texts_push(labels@, label);
                assert(module_labels(modules@).subrange(0, i + 1) =~= module_labels(
                    modules@,
                ).subrange(0, i as int).push(label@));
            }
            labels.push(label);
            i += 1;
        }
        assert(module_labels(modules@).subrange(0, modules@.len() as int) =~= module_labels(
            modules@,
        ));
        Ok(labels)
    }

    /// The directory of a module.
    pub fn module_dir(&self, module: &str) -> (path: String)
        ensures
            path@ == join_path(self.modules_path@, module@),
    {
        join(self.modules_path.as_str(), module)
    }

    /// The file whose presence switches a module off.
    pub fn disable_marker(&self, module: &str) -> (path: String)
        ensures
            path@ == join_path(join_path(self.modules_path@, module@), "disable"@),
    {
        let dir = join(self.modules_path.as_str(), module);
        join(dir.as_str(), "disable")
    }

    /// Whether a module is switched off. `found` says that its directory
    /// exists, `marked` that the marker is there.
    pub fn is_module_disabled(&self, container_running: bool, found: bool, marked: bool) -> (r:
        Result<bool, MagiskError>)
        ensures
            r == (match self.spec_ready(container_running) {
                Err(e) => Err(e),
                Ok(()) => if !found {
                    Err(MagiskError::ModuleNotFound)
                } else {
                    Ok(marked)
                },
            }),
    {
        match self.ready(container_running) {
            Err(e) => Err(e),
            Ok(()) => {
                if !found {
                    Err(MagiskError::ModuleNotFound)
                } else {
                    Ok(marked)
                }
            },
        }
    }

    /// Whether a module may be switched off: it has to exist and to be on.
    /// On `Ok` the caller creates the marker.
    pub fn disable_module(&self, container_running: bool, found: bool, marked: bool) -> (r: Result<
        (),
        MagiskError,
    >)
        ensures
            r == (match self.spec_ready(container_running) {
                Err(e) => Err(e),
                Ok(()) => if !found {
                    Err(MagiskError::ModuleNotFound)
                } else if marked {
                    Err(MagiskError::AlreadyDisabled)
                } else {
                    Ok(())
                },
            }),
    {
        match self.is_module_disabled(container_running, found, marked) {
            Err(e) => Err(e),
            Ok(true) => Err(MagiskError::AlreadyDisabled),
            Ok(false) => Ok(()),
        }
    }

    /// Whether a module may be switched on: it has to exist and to be off.
    /// On `Ok` the caller removes the marker.
    pub fn enable_module(&self, container_running: bool, found: bool, marked: bool) -> (r: Result<
        (),
        MagiskError,
    >)
        ensures
            r == (match self.spec_ready(container_running) {
                Err(e) => Err(e),
                Ok(()) => if !found {
                    Err(MagiskError::ModuleNotFound)
                } else if !marked {
                    Err(MagiskError::AlreadyEnabled)
                } else {
                    Ok(())
                },
            }),
    {
        match self.is_module_disabled(container_running, found, marked) {
            Err(e) => Err(e),
            Ok(true) => Ok(()),
            Ok(false) => Err(MagiskError::AlreadyEnabled),
        }
    }

    /// Whether a module may be removed: it has to exist. On `Ok` the caller
    /// removes its directory.
    pub fn remove_module(&self, container_running: bool, found: bool) -> (r: Result<
        (),
        MagiskError,
    >)
        ensures
            r == (match self.spec_ready(container_running) {
                Err(e) => Err(e),
                Ok(()) => if !found {
                    Err(MagiskError::ModuleNotFound)
                } else {
                    Ok(())
                },
            }),
    {
        match self.ready(container_running) {
            Err(e) => Err(e),
            Ok(()) => {
                if !found {
                    Err(MagiskError::ModuleNotFound)
                } else {
                    Ok(())
                }
            },
        }
    }

    /// Whether a module archive may be installed, and under which name: the
    /// file has to exist and to end in `.zip`. Its name is what follows the
    /// last `/` of its path; the guest finds it under `/data/local/tmp`.
    pub fn install_module(&self, container_running: bool, module: &str, exists: bool) -> (r:
        Result<ModuleInstall, MagiskError>)
        ensures
            match self.spec_ready(container_running) {
                Err(e) => r is Err && r->Err_0 == e,
                Ok(()) => if !exists {
                    r is Err && r->Err_0 == MagiskError::NoSuchFile
                } else if !names_zip(module@) {
                    r is Err && r->Err_0 == MagiskError::NotZip
                } else {
                    r is Ok && r->Ok_0.file_name@ == after_last(module@, '/') && r->Ok_0.guest_path@
                        == join_path("/data/local/tmp"@, after_last(module@, '/'))
                },
            },
    {
        match self.ready(container_running) {
            Err(e) => {
                return Err(e);
            },
            Ok(()) => {},
        }
        if !exists {
            return Err(MagiskError::NoSuchFile);
        }
        if !path_names_zip(module) {
            return Err(MagiskError::NotZip);
        }
        let chars = to_chars(module);
        let name = after_last_char(chars.as_slice(), '/');
        let file_name = from_chars(name.as_slice());
        let guest_path = join("/data/local/tmp", file_name.as_str());
        Ok(ModuleInstall { file_name, guest_path })
    }

    /// The arguments that call an applet of the framework in the guest.
    pub fn cmd(&self, container_running: bool, applet: &str, args: &Vec<String>) -> (r: Result<
        Vec<String>,
        MagiskError,
    >)
        ensures
            args_view(r) == (match self.spec_ready(container_running) {
                Err(e) => Err(e),
                Ok(()) => Ok(applet_args(applet@, texts(args@))),
            }),
    {
        match self.ready(container_running) {
            Err(e) => {
                return Err(e);
            },
            Ok(()) => {},
        }
        let mut argv: Vec<String> = Vec::new();
        argv.push(String::from_str("magisk"));
        argv.push(String::from_str(applet));
        let ghost head = texts(argv@);
        assert(head =~= seq!["magisk"@, applet@]);
        let mut i: usize = 0;
        assert(texts(argv@) =~= head + texts(args@).subrange(0, 0));
        while i < args.len()
            invariant
                i <= args@.len(),
                texts(argv@) == head + texts(args@).subrange(0, i as int),
            decreases args@.len() - i,
        {
            let arg = String::from_str(args[i].as_str());
            proof {
                lemma_texts_push(argv@, arg);
                assert(texts(argv@).push(arg@) =~= head + texts(args@).subrange(0, i + 1));
            }
            argv.push(arg);
            i += 1;
        }
        assert(texts(args@).subrange(0, args@.len() as int) =~= texts(args@));
        Ok(argv)
    }

    /// The arguments that hand a statement to the framework's database.
    pub fn sqlite(&self, container_running: bool, arg: &str) -> (r: Result<
        Vec<String>,
        MagiskError,
    >)
        ensures
            args_view(r) == (match self.spec_ready(container_running) {
                Err(e) => Err(e),
                Ok(()) => Ok(seq!["magisk"@, "--sqlite"@, arg@]),
            }),
    {
        let mut args: Vec<String> = Vec::new();
        args.push(String::from_str(arg));
        assert(texts(args@) =~= seq![arg@]);
        let r = self.cmd(container_running, "--sqlite", &args);
        proof {
            assert(applet_args("--sqlite"@, seq![arg@]) =~= seq!["magisk"@, "--sqlite"@, arg@]);
        }
        r
    }

    /// Whether Zygisk is on, going by the answer to [`ZYGISK_QUERY`].
    pub fn get_zygisk(&self, container_running: bool, answer: &str) -> (r: Result<
        bool,
        MagiskError,
    >)
        ensures
            r == (match self.spec_ready(container_running) {
                Err(e) => Err(e),
                Ok(()) => Ok(zygisk_on(answer@)),
            }),
    {
        match self.ready(container_running) {
            Err(e) => {
                return Err(e);
            },
            Ok(()) => {},
        }
        let text = to_chars(answer);
        let trimmed = trim_chars(text.as_slice());
        let value = after_last_char(trimmed.as_slice(), '=');
        let one = to_chars("1");
        Ok(eq_chars(value.as_slice(), one.as_slice()))
    }

    /// The arguments that switch Zygisk on or off.
    pub fn set_zygisk(&self, container_running: bool, enabled: bool) -> (r: Result<
        Vec<String>,
        MagiskError,
    >)
        ensures
            args_view(r) == (match self.spec_ready(container_running) {
                Err(e) => Err(e),
                Ok(()) => Ok(
                    seq![
                        "magisk"@,
                        "--sqlite"@,
                        if enabled {
                            ZYGISK_ON@
                        } else {
                            ZYGISK_OFF@
                        },
                    ],
                ),
            }),
    {
        if enabled {
            self.sqlite(container_running, ZYGISK_ON)
        } else {
            self.sqlite(container_running, ZYGISK_OFF)
        }
    }

    /// The apps that asked to become root, going by the answer to
    /// [`POLICY_QUERY`]: the uid of each, and whether it is allowed.
    pub fn superuser_list(&self, container_running: bool, answer: &str) -> (r: Result<
        Vec<(i32, bool)>,
        MagiskError,
    >)
        ensures
            match self.spec_ready(container_running) {
                Err(e) => r is Err && r->Err_0 == e,
                Ok(()) => r is Ok && r->Ok_0@ == policy_entries(lines_of(answer@, '\n', '\r')),
            },
    {
        match self.ready(container_running) {
            Err(e) => {
                return Err(e);
            },
            Ok(()) => {},
        }
        let text = to_chars(answer);
        let lines = split_lines_chars(text.as_slice());
        let mut entries: Vec<(i32, bool)> = Vec::new();
        let mut i: usize = 0;
        assert(views(lines@).subrange(0, 0) =~= Seq::<Seq<char>>::empty());
        while i < lines.len()
            invariant
                i <= lines@.len(),
                entries@ == policy_entries(views(lines@).subrange(0, i as int)),
            decreases lines@.len() - i,
        {
            let ghost done = views(lines@).subrange(0, i + 1);
            proof {
                assert(done.drop_last() =~= views(lines@).subrange(0, i as int));
                assert(done.last() == lines@[i as int]@);
            }
            match read_policy_line(lines[i].as_slice()) {
                Some(entry) => {
                    entries.push((entry.0, entry.1 == 2));
                },
                None => {},
            }
            i += 1;
        }
        assert(views(lines@).subrange(0, lines@.len() as int) =~= views(lines@));
        Ok(entries)
    }

    /// The arguments that record whether an app may become root. The app id
    /// is what [`get_app_id`] found; an empty one names no package.
    pub fn superuser_manage(&self, container_running: bool, app_id: &str, allow: bool) -> (r:
        Result<Vec<String>, MagiskError>)
        ensures
            args_view(r) == (match self.spec_ready(container_running) {
                Err(e) => Err(e),
                Ok(()) => if app_id@.len() == 0 {
                    Err(MagiskError::InvalidPackage)
                } else {
                    Ok(seq!["magisk"@, "--sqlite"@, policy_statement(app_id@, allow)])
                },
            }),
    {
        match self.ready(container_running) {
            Err(e) => {
                return Err(e);
            },
            Ok(()) => {},
        }
        if app_id.unicode_len() == 0 {
            return Err(MagiskError::InvalidPackage);
        }
        let mut statement = String::from_str("\"REPLACE INTO policies VALUES(");
        statement.append(app_id);
        statement.append(",");
        if allow {
            statement.append("2");
        } else {
            statement.append("1");
        }
        statement.append(",0,1,1)\"");
        self.sqlite(container_running, statement.as_str())
    }
}

} // verus!
