//! The decisions of a search between its reads of the file system: the
//! settings each root is walked with, which directories are entered, what
//! is done with each entry, the values of the fields read from a file's
//! metadata, and the order, offset and limit of buffered results.
//!
//! The caller reads directories and metadata and performs each action; the
//! rules are here.

use vstd::prelude::*;

use crate::config::{check_extension, spec_check_extension, Config};
use crate::dockerignore::{
    docker_filters_view, matches_dockerignore_filter, single_slashes, slashes_only, spec_docker_excluded,
    DockerignoreFilter,
};
use crate::expr::Expr;
use crate::gitignore::{git_filters_view, matches_gitignore_filter, spec_git_ignored, GitignoreFilter};
use crate::hgignore::{hg_filters_view, matches_hgignore_filter, spec_hg_ignored, HgignoreFilter};
use crate::field::Field;
use crate::mode::{
    format_mode, has_bits, mode_group_exec, mode_group_read, mode_group_write, mode_other_exec,
    mode_other_read, mode_other_write, mode_user_exec, mode_user_read, mode_user_write,
    spec_format_mode, S_IRGRP, S_IROTH, S_IRUSR, S_IWGRP, S_IWOTH, S_IWUSR, S_IXGRP, S_IXOTH, S_IXUSR,
};
use crate::query::{RootOptions, TraversalMode};
use crate::search::{law_text_order, lemma_text_order_strict, plan_entry, text_less, text_lt, Descent, Value};
use crate::strings::{i64_to_string, int_text, parse_i64, spec_parse_i64, str_eq, str_to_string, substring};

verus! {

/// What the walk of one root goes by.
pub struct WalkSettings {
    pub min_depth: u32,
    pub max_depth: u32,
    pub follow_symlinks: bool,
    pub search_archives: bool,
    pub apply_gitignore: bool,
    pub apply_hgignore: bool,
    pub apply_dockerignore: bool,
    pub traversal: TraversalMode,
}

/// An ignore-file setting: the root's own, else the configured one, else off.
pub open spec fn setting_or(own: Option<bool>, configured: Option<bool>) -> bool {
    match own {
        Some(b) => b,
        None => match configured {
            Some(b) => b,
            None => false,
        },
    }
}

fn or_configured(own: Option<bool>, configured: Option<bool>) -> (r: bool)
    ensures
        r == setting_or(own, configured),
{
    match own {
        Some(b) => b,
        None => match configured {
            Some(b) => b,
            None => false,
        },
    }
}

/// The settings of a root's walk: its depth bounds, links, archives and
/// order, and each ignore file applied as the root says or else as the
/// configuration says.
pub fn walk_settings(
    options: &RootOptions,
    gitignore: Option<bool>,
    hgignore: Option<bool>,
    dockerignore: Option<bool>,
) -> (r: WalkSettings)
    ensures
        r.min_depth == options.min_depth,
        r.max_depth == options.max_depth,
        r.follow_symlinks == options.symlinks,
        r.search_archives == options.archives,
        r.apply_gitignore == setting_or(options.gitignore, gitignore),
        r.apply_hgignore == setting_or(options.hgignore, hgignore),
        r.apply_dockerignore == setting_or(options.dockerignore, dockerignore),
        r.traversal == options.traversal,
{
    WalkSettings {
        min_depth: options.min_depth,
        max_depth: options.max_depth,
        follow_symlinks: options.symlinks,
        search_archives: options.archives,
        apply_gitignore: or_configured(options.gitignore, gitignore),
        apply_hgignore: or_configured(options.hgignore, hgignore),
        apply_dockerignore: or_configured(options.dockerignore, dockerignore),
        traversal: options.traversal,
    }
}

/// Whether directories are taken by their canonical paths: to catch link
/// loops, or to match ignore rules.
pub fn needs_canonical(s: &WalkSettings) -> (r: bool)
    ensures
        r == (s.follow_symlinks || s.apply_gitignore || s.apply_hgignore || s.apply_dockerignore),
{
    s.follow_symlinks || s.apply_gitignore || s.apply_hgignore || s.apply_dockerignore
}

/// What is done with an entry of a directory: whether it is checked as a
/// result, whether the archive it is is searched too, and whether the walk
/// goes into it.
pub struct EntryPlan {
    pub check: bool,
    pub search_archive: bool,
    pub descend: Descent,
}

/// The state of the walk of one root: its settings, whether results are
/// buffered, the limit, the results found, the canonical paths of the
/// directories entered while links are followed, and the directories that
/// wait to be walked, breadth first, each with the base depth of its
/// children.
pub struct Walk {
    pub settings: WalkSettings,
    pub buffered: bool,
    pub limit: u32,
    pub found: u32,
    pub visited: Vec<String>,
    pub queue: Vec<(String, u32)>,
}

pub open spec fn texts_of(v: Seq<String>) -> Seq<Seq<char>> {
    Seq::new(v.len(), |i: int| v[i]@)
}

pub open spec fn queue_view(v: Seq<(String, u32)>) -> Seq<(Seq<char>, u32)> {
    Seq::new(v.len(), |i: int| (v[i].0@, v[i].1))
}

impl Walk {
    /// The canonical paths of the directories entered, in order.
    pub open spec fn visited(&self) -> Seq<Seq<char>> {
        texts_of(self.visited@)
    }

    /// The directories waiting, first to be walked first.
    pub open spec fn waiting(&self) -> Seq<(Seq<char>, u32)> {
        queue_view(self.queue@)
    }

    /// A walk that has entered nothing and found nothing.
    pub fn new(settings: WalkSettings, buffered: bool, limit: u32) -> (r: Walk)
        ensures
            r.settings == settings,
            r.buffered == buffered,
            r.limit == limit,
            r.found == 0,
            r.visited() == Seq::<Seq<char>>::empty(),
            r.waiting() == Seq::<(Seq<char>, u32)>::empty(),
    {
        let r = Walk { settings, buffered, limit, found: 0, visited: Vec::new(), queue: Vec::new() };
        assert(r.visited() =~= Seq::<Seq<char>>::empty());
        assert(r.waiting() =~= Seq::<(Seq<char>, u32)>::empty());
        r
    }

    /// Whether the walk takes no more entries: results are written as they
    /// are found and the limit has been reached.
    pub fn stopped(&self) -> (r: bool)
        ensures
            r == (!self.buffered && self.limit > 0 && self.limit <= self.found),
    {
        !self.buffered && self.limit > 0 && self.limit <= self.found
    }

    /// Whether a directory is walked. While links are followed, a directory
    /// whose canonical path was entered before is not (a link loop); one
    /// that is walked is remembered. Otherwise every directory is walked.
    pub fn enter_dir(&mut self, canonical: Option<&str>) -> (r: bool)
        ensures
            final(self).settings == old(self).settings,
            final(self).buffered == old(self).buffered,
            final(self).limit == old(self).limit,
            final(self).found == old(self).found,
            final(self).waiting() == old(self).waiting(),
            (old(self).settings.follow_symlinks && canonical is Some) ==> ({
                let c = canonical.unwrap()@;
                &&& r == !old(self).visited().contains(c)
                &&& final(self).visited() == if r {
                    old(self).visited().push(c)
                } else {
                    old(self).visited()
                }
            }),
            !(old(self).settings.follow_symlinks && canonical is Some) ==> (r && final(self).visited()
                == old(self).visited()),
    {
        if !self.settings.follow_symlinks {
            return true;
        }
        let c = match canonical {
            Some(c) => c,
            None => {
                return true;
            },
        };
        let mut i: usize = 0;
        while i < self.visited.len()
            invariant
                *self == *old(self),
                self.settings.follow_symlinks,
                canonical == Some(c),
                i <= self.visited@.len(),
                forall|j: int| 0 <= j < i ==> self.visited@[j]@ != c@,
            decreases self.visited@.len() - i,
        {
            if str_eq(self.visited[i].as_str(), c) {
                assert(self.visited()[i as int] == c@);
                return false;
            }
            i = i + 1;
        }
        assert(!self.visited().contains(c@)) by {
            if self.visited().contains(c@) {
                let j = choose|j: int| 0 <= j < self.visited().len() && self.visited()[j] == c@;
                assert(self.visited@[j]@ == c@);
            }
        }
        let ghost before = self.visited@;
        self.visited.push(str_to_string(c));
        assert(self.visited() =~= texts_of(before).push(c@));
        true
    }

    /// What is done with an entry found at level `depth`: one that the
    /// ignore files leave out (`ignored`) is neither checked nor entered;
    /// another is checked from the least depth on; an archive that is
    /// checked is searched too when the root asks for archives; the walk
    /// goes into a directory (or a followed link to one) that may be
    /// visited, while the greatest depth (0: none) is not reached, at once
    /// depth first or later breadth first.
    pub fn plan(&self, depth: u32, enterable: bool, is_archive: bool, ignored: bool) -> (r: EntryPlan)
        ensures
            r.check == (!ignored && (self.settings.min_depth == 0 || depth >= self.settings.min_depth)),
            r.search_archive == (r.check && self.settings.search_archives && is_archive),
            r.descend == if !ignored && enterable && (self.settings.max_depth == 0 || depth < self.settings.max_depth) {
                match self.settings.traversal {
                    TraversalMode::Dfs => Descent::Now,
                    TraversalMode::Bfs => Descent::Later,
                }
            } else {
                Descent::No
            },
    {
        if ignored {
            return EntryPlan { check: false, search_archive: false, descend: Descent::No };
        }
        let (check, descend) = plan_entry(
            depth,
            self.settings.min_depth,
            self.settings.max_depth,
            enterable,
            self.settings.traversal,
        );
        EntryPlan { check, search_archive: check && self.settings.search_archives && is_archive, descend }
    }

    /// Whether an entry is left out by the ignore files applied to this
    /// walk: its (canonical) path matches the `.gitignore` filters that
    /// apply in its directory, the `.hgignore` filters or the
    /// `.dockerignore` filters, each only where the walk applies it.
    pub fn ignored(
        &self,
        git: &Option<Vec<GitignoreFilter>>,
        hg: &Vec<HgignoreFilter>,
        docker: &Vec<DockerignoreFilter>,
        path: &str,
        is_dir: bool,
    ) -> (r: bool)
        ensures
            r == ((self.settings.apply_gitignore && match *git {
                Some(v) => spec_git_ignored(git_filters_view(v@), path@, is_dir),
                None => false,
            }) || (self.settings.apply_hgignore && spec_hg_ignored(hg_filters_view(hg@), path@)) || (
            self.settings.apply_dockerignore && spec_docker_excluded(
                docker_filters_view(docker@),
                single_slashes(slashes_only(path@)),
            ))),
    {
        (self.settings.apply_gitignore && matches_gitignore_filter(git, path, is_dir)) || (
        self.settings.apply_hgignore && matches_hgignore_filter(hg.as_slice(), path)) || (
        self.settings.apply_dockerignore && matches_dockerignore_filter(docker, path))
    }

    /// Puts a directory at the end of those waiting.
    pub fn queue_dir(&mut self, path: String, base_depth: u32)
        ensures
            final(self).settings == old(self).settings,
            final(self).buffered == old(self).buffered,
            final(self).limit == old(self).limit,
            final(self).found == old(self).found,
            final(self).visited() == old(self).visited(),
            final(self).waiting() == old(self).waiting().push((path@, base_depth)),
    {
        let ghost before = self.queue@;
        self.queue.push((path, base_depth));
        assert(self.waiting() =~= queue_view(before).push((path@, base_depth)));
    }

    /// Takes the first directory waiting, if any.
    pub fn next_dir(&mut self) -> (r: Option<(String, u32)>)
        ensures
            final(self).settings == old(self).settings,
            final(self).buffered == old(self).buffered,
            final(self).limit == old(self).limit,
            final(self).found == old(self).found,
            final(self).visited() == old(self).visited(),
            old(self).waiting().len() == 0 ==> r is None && final(self).waiting() == old(self).waiting(),
            old(self).waiting().len() > 0 ==> (r matches Some(d) && (d.0@, d.1) == old(self).waiting()[0]
                && final(self).waiting() == old(self).waiting().drop_first()),
    {
        if self.queue.len() == 0 {
            return None;
        }
        let ghost before = self.queue@;
        let d = self.queue.remove(0);
        assert(self.waiting() =~= queue_view(before).drop_first());
        Some(d)
    }

    /// Counts one more result found (never past the largest count).
    pub fn record_found(&mut self)
        ensures
            final(self).settings == old(self).settings,
            final(self).buffered == old(self).buffered,
            final(self).limit == old(self).limit,
            final(self).found == if old(self).found < u32::MAX {
                old(self).found + 1
            } else {
                old(self).found as int
            },
            final(self).visited() == old(self).visited(),
            final(self).waiting() == old(self).waiting(),
    {
        self.found = self.found.saturating_add(1);
    }
}

/// What is read of a file for its fields.
pub struct FileMetadata {
    /// The file's name.
    pub name: String,
    /// Its path below the root.
    pub path: String,
    pub size: u64,
    pub is_dir: bool,
    pub is_file: bool,
    pub is_symlink: bool,
    /// The Unix mode bits, where the system gives them.
    pub mode: Option<u32>,
    pub uid: Option<u32>,
    pub gid: Option<u32>,
}

/// The value a field takes for a file, from what was read of it; `None`
/// for the fields not decided by that alone.
pub open spec fn spec_field_value(field: Field, m: FileMetadata) -> Option<Value> {
    match field {
        Field::Name => Some(Value::Text(m.name)),
        Field::Path => Some(Value::Text(m.path)),
        Field::Size => Some(Value::Int(m.size as i64)),
        Field::IsDir => Some(Value::Bool(m.is_dir)),
        Field::IsFile => Some(Value::Bool(m.is_file)),
        Field::IsSymlink => Some(Value::Bool(m.is_symlink)),
        Field::Uid => match m.uid {
            Some(u) => Some(Value::Int(u as i64)),
            None => None,
        },
        Field::Gid => match m.gid {
            Some(g) => Some(Value::Int(g as i64)),
            None => None,
        },
        _ => None,
    }
}

/// The value a field takes for a file (see `spec_field_value`).
pub fn field_value(field: Field, m: &FileMetadata) -> (r: Option<Value>)
    ensures
        r == spec_field_value(field, *m),
{
    match field {
        Field::Name => Some(Value::Text(m.name.clone())),
        Field::Path => Some(Value::Text(m.path.clone())),
        Field::Size => Some(Value::Int(m.size as i64)),
        Field::IsDir => Some(Value::Bool(m.is_dir)),
        Field::IsFile => Some(Value::Bool(m.is_file)),
        Field::IsSymlink => Some(Value::Bool(m.is_symlink)),
        Field::Uid => match m.uid {
            Some(u) => Some(Value::Int(u as i64)),
            None => None,
        },
        Field::Gid => match m.gid {
            Some(g) => Some(Value::Int(g as i64)),
            None => None,
        },
        _ => None,
    }
}

/// The position of the last `.` in `s`, if it has one.
pub open spec fn last_dot(s: Seq<char>) -> Option<int>
    decreases s.len(),
{
    if s.len() == 0 {
        None
    } else if s.last() == '.' {
        Some(s.len() - 1)
    } else {
        last_dot(s.drop_last())
    }
}

/// A file name's extension: the text after its last `.`, empty when it
/// has none.
pub open spec fn spec_extension(name: Seq<char>) -> Seq<char> {
    match last_dot(name) {
        Some(i) => name.skip(i + 1),
        None => Seq::empty(),
    }
}

/// A file name's extension (see `spec_extension`).
pub fn extension(name: &str) -> (r: String)
    ensures
        r@ == spec_extension(name@),
{
    let n = name.unicode_len();
    let mut i = n;
    assert(name@.take(n as int) =~= name@);
    while i > 0
        invariant
            i <= n,
            n == name@.len(),
            last_dot(name@) == last_dot(name@.take(i as int)),
        decreases i,
    {
        if name.get_char(i - 1) == '.' {
            let r = substring(name, i, n);
            assert(name@.subrange(i as int, n as int) =~= name@.skip(i as int));
            return r;
        }
        assert(name@.take(i as int).drop_last() =~= name@.take(i - 1));
        i = i - 1;
    }
    String::new()
}

/// Whether a file name is that of a hidden file: it starts with `.`.
pub open spec fn spec_is_hidden(name: Seq<char>) -> bool {
    name.len() > 0 && name[0] == '.'
}

/// The text of a name that may be missing: empty when it is.
pub open spec fn name_text(o: Option<String>) -> Seq<char> {
    match o {
        Some(s) => s@,
        None => Seq::empty(),
    }
}

/// The text a field takes for a file from its name and the names of its
/// owner and group: the extension, the owner's name, the group's name;
/// `None` for the other fields.
pub open spec fn spec_entry_text(field: Field, m: FileMetadata, owner: Option<String>, group: Option<String>) -> Option<Seq<char>> {
    match field {
        Field::Extension => Some(spec_extension(m.name@)),
        Field::User => Some(name_text(owner)),
        Field::Group => Some(name_text(group)),
        _ => None,
    }
}

/// The truth value a field takes for a file from its name: whether it is
/// hidden, and whether its extension is in the list of a kind of file
/// (the configured list, else the default one); `None` for the other fields.
pub open spec fn spec_entry_flag(field: Field, name: Seq<char>, config: Config, defaults: Config) -> Option<bool> {
    match field {
        Field::IsHidden => Some(spec_is_hidden(name)),
        Field::IsArchive => Some(spec_check_extension(name, config.is_archive, defaults.is_archive)),
        Field::IsAudio => Some(spec_check_extension(name, config.is_audio, defaults.is_audio)),
        Field::IsBook => Some(spec_check_extension(name, config.is_book, defaults.is_book)),
        Field::IsDoc => Some(spec_check_extension(name, config.is_doc, defaults.is_doc)),
        Field::IsFont => Some(spec_check_extension(name, config.is_font, defaults.is_font)),
        Field::IsImage => Some(spec_check_extension(name, config.is_image, defaults.is_image)),
        Field::IsSource => Some(spec_check_extension(name, config.is_source, defaults.is_source)),
        Field::IsVideo => Some(spec_check_extension(name, config.is_video, defaults.is_video)),
        _ => None,
    }
}

/// The value a field takes for a file, from what was read of it, the
/// configuration and its defaults, and the names of the file's owner and
/// group (an empty text where a name was not found): a text or truth value
/// as `spec_entry_text` and `spec_entry_flag` say, else as
/// `spec_field_value` says.
pub fn entry_field(
    field: Field,
    m: &FileMetadata,
    config: &Config,
    defaults: &Config,
    owner: Option<String>,
    group: Option<String>,
) -> (r: Option<Value>)
    ensures
        spec_entry_text(field, *m, owner, group) matches Some(t) ==> (r matches Some(Value::Text(s)) && s@ == t),
        spec_entry_flag(field, m.name@, *config, *defaults) matches Some(b) ==> r == Some(Value::Bool(b)),
        (spec_entry_text(field, *m, owner, group) is None && spec_entry_flag(field, m.name@, *config, *defaults) is None)
            ==> r == spec_field_value(field, *m),
{
    let name = m.name.as_str();
    match field {
        Field::Extension => Some(Value::Text(extension(name))),
        Field::User => Some(Value::Text(match owner {
            Some(s) => s,
            None => String::new(),
        })),
        Field::Group => Some(Value::Text(match group {
            Some(s) => s,
            None => String::new(),
        })),
        Field::IsHidden => Some(Value::Bool(name.unicode_len() > 0 && name.get_char(0) == '.')),
        Field::IsArchive => Some(Value::Bool(check_extension(name, &config.is_archive, &defaults.is_archive))),
        Field::IsAudio => Some(Value::Bool(check_extension(name, &config.is_audio, &defaults.is_audio))),
        Field::IsBook => Some(Value::Bool(check_extension(name, &config.is_book, &defaults.is_book))),
        Field::IsDoc => Some(Value::Bool(check_extension(name, &config.is_doc, &defaults.is_doc))),
        Field::IsFont => Some(Value::Bool(check_extension(name, &config.is_font, &defaults.is_font))),
        Field::IsImage => Some(Value::Bool(check_extension(name, &config.is_image, &defaults.is_image))),
        Field::IsSource => Some(Value::Bool(check_extension(name, &config.is_source, &defaults.is_source))),
        Field::IsVideo => Some(Value::Bool(check_extension(name, &config.is_video, &defaults.is_video))),
        _ => field_value(field, m),
    }
}

/// Calls `uzers::get_user_by_uid` and takes the user's name, with any
/// character that is not valid Unicode replaced. Nothing is stated of the
/// result: it is what the system's user database holds at the time.
#[verifier::external_body]
fn user_name(uid: u32) -> (r: Option<String>) {
    uzers::get_user_by_uid(uid).map(|u| u.name().to_string_lossy().to_string())
}

/// Calls `uzers::get_group_by_gid` and takes the group's name, with any
/// character that is not valid Unicode replaced. Nothing is stated of the
/// result: it is what the system's group database holds at the time.
#[verifier::external_body]
fn group_name(gid: u32) -> (r: Option<String>) {
    uzers::get_group_by_gid(gid).map(|g| g.name().to_string_lossy().to_string())
}

/// The value a field takes for a file, looking up the names of its owner
/// and group in the system's databases where the field is `user` or
/// `group` and the file's ids were read: as `entry_field` says, with the
/// names found (an empty text where none is found or no id was read).
pub fn file_field(field: Field, m: &FileMetadata, config: &Config, defaults: &Config) -> (r: Option<Value>)
    ensures
        field is User || field is Group ==> r matches Some(Value::Text(_)),
        (field is User && m.uid is None) || (field is Group && m.gid is None) ==> (r matches Some(Value::Text(s)) && s@.len() == 0),
        !(field is User || field is Group) ==> ({
            &&& spec_entry_text(field, *m, None, None) matches Some(t) ==> (r matches Some(Value::Text(s)) && s@ == t)
            &&& spec_entry_flag(field, m.name@, *config, *defaults) matches Some(b) ==> r == Some(Value::Bool(b))
            &&& (spec_entry_text(field, *m, None, None) is None && spec_entry_flag(field, m.name@, *config, *defaults) is None)
                ==> r == spec_field_value(field, *m)
        }),
{
    let owner = match (field, m.uid) {
        (Field::User, Some(u)) => user_name(u),
        _ => None,
    };
    let group = match (field, m.gid) {
        (Field::Group, Some(g)) => group_name(g),
        _ => None,
    };
    entry_field(field, m, config, defaults, owner, group)
}

/// The value a mode field takes for a file whose mode bits were read: the
/// mode as `ls -l` prints it, or whether a permission bit is set; `None`
/// for the other fields.
pub open spec fn spec_mode_field(field: Field, mode: u32) -> Option<Option<bool>> {
    match field {
        Field::UserRead => Some(Some(has_bits(mode, S_IRUSR))),
        Field::UserWrite => Some(Some(has_bits(mode, S_IWUSR))),
        Field::UserExec => Some(Some(has_bits(mode, S_IXUSR))),
        Field::GroupRead => Some(Some(has_bits(mode, S_IRGRP))),
        Field::GroupWrite => Some(Some(has_bits(mode, S_IWGRP))),
        Field::GroupExec => Some(Some(has_bits(mode, S_IXGRP))),
        Field::OtherRead => Some(Some(has_bits(mode, S_IROTH))),
        Field::OtherWrite => Some(Some(has_bits(mode, S_IWOTH))),
        Field::OtherExec => Some(Some(has_bits(mode, S_IXOTH))),
        Field::Mode => Some(None),
        _ => None,
    }
}

/// The value of a mode field (see `spec_mode_field`): the mode's text for
/// `mode`, a truth value for a permission bit.
pub fn mode_field_value(field: Field, mode: u32) -> (r: Option<Value>)
    ensures
        match spec_mode_field(field, mode) {
            Some(Some(b)) => r == Some(Value::Bool(b)),
            Some(None) => r matches Some(Value::Text(s)) && s@ == spec_format_mode(mode),
            None => r is None,
        },
{
    match field {
        Field::UserRead => Some(Value::Bool(mode_user_read(mode))),
        Field::UserWrite => Some(Value::Bool(mode_user_write(mode))),
        Field::UserExec => Some(Value::Bool(mode_user_exec(mode))),
        Field::GroupRead => Some(Value::Bool(mode_group_read(mode))),
        Field::GroupWrite => Some(Value::Bool(mode_group_write(mode))),
        Field::GroupExec => Some(Value::Bool(mode_group_exec(mode))),
        Field::OtherRead => Some(Value::Bool(mode_other_read(mode))),
        Field::OtherWrite => Some(Value::Bool(mode_other_write(mode))),
        Field::OtherExec => Some(Value::Bool(mode_other_exec(mode))),
        Field::Mode => Some(Value::Text(format_mode(mode))),
        _ => None,
    }
}

/// The text of a truth value.
pub open spec fn bool_text(b: bool) -> Seq<char> {
    if b {
        "true"@
    } else {
        "false"@
    }
}

/// The text a value is shown as; a moment has no text here.
pub open spec fn spec_value_text(v: Value) -> Option<Seq<char>> {
    match v {
        Value::Text(s) => Some(s@),
        Value::Int(i) => Some(int_text(i)),
        Value::Bool(b) => Some(bool_text(b)),
        Value::DateTime(_) => None,
    }
}

/// The text a value is shown as (see `spec_value_text`).
pub fn value_text(v: &Value) -> (r: Option<String>)
    ensures
        match r {
            Some(s) => spec_value_text(*v) == Some(s@),
            None => spec_value_text(*v) is None,
        },
{
    match v {
        Value::Text(s) => Some(s.clone()),
        Value::Int(i) => Some(i64_to_string(*i)),
        Value::Bool(b) => Some(
            if *b {
                str_to_string("true")
            } else {
                str_to_string("false")
            },
        ),
        Value::DateTime(_) => None,
    }
}

/// A written value taken as the type of the value it is compared with: a
/// whole number where a number is compared with and the text reads as
/// one, `true` or `false` where a truth value is; otherwise the text.
pub open spec fn spec_literal(text: String, like: Option<Value>) -> Value {
    match like {
        Some(Value::Int(_)) => match spec_parse_i64(text@) {
            Some(v) => Value::Int(v),
            None => Value::Text(text),
        },
        Some(Value::Bool(_)) => if text@ == "true"@ {
            Value::Bool(true)
        } else if text@ == "false"@ {
            Value::Bool(false)
        } else {
            Value::Text(text)
        },
        _ => Value::Text(text),
    }
}

/// A written value taken as the type of `like` (see `spec_literal`).
pub fn literal_value(text: &String, like: Option<&Value>) -> (r: Value)
    ensures
        r == spec_literal(*text, match like {
            Some(v) => Some(*v),
            None => None,
        }),
{
    match like {
        Some(Value::Int(_)) => match parse_i64(text.as_str()) {
            Some(v) => Value::Int(v),
            None => Value::Text(text.clone()),
        },
        Some(Value::Bool(_)) => {
            if str_eq(text.as_str(), "true") {
                Value::Bool(true)
            } else if str_eq(text.as_str(), "false") {
                Value::Bool(false)
            } else {
                Value::Text(text.clone())
            }
        },
        _ => Value::Text(text.clone()),
    }
}

/// The value given for a field (the first entry for it).
pub open spec fn field_lookup(fields: Seq<(Field, Value)>, f: Field) -> Option<Value>
    decreases fields.len(),
{
    if fields.len() == 0 {
        None
    } else if fields[0].0 == f {
        Some(fields[0].1)
    } else {
        field_lookup(fields.drop_first(), f)
    }
}

/// The value an operand takes for a file whose field values are `fields`:
/// a field's value, or a written value (without a sign) taken as the type
/// of `like`; `None` for other operands (functions, arithmetic, signed
/// values, subqueries) and fields without a value.
pub open spec fn spec_operand_value(e: Expr, fields: Seq<(Field, Value)>, like: Option<Value>) -> Option<Value> {
    match e.field {
        Some(f) => field_lookup(fields, f),
        None => match e.val {
            Some(t) => if e.left is None && e.right is None && e.function is None && e.args is None
                && e.subquery is None && !e.minus {
                Some(spec_literal(t, like))
            } else {
                None
            },
            None => None,
        },
    }
}

/// The value an operand takes for a file (see `spec_operand_value`).
pub fn operand_value(e: &Expr, fields: &Vec<(Field, Value)>, like: Option<&Value>) -> (r: Option<Value>)
    ensures
        r == spec_operand_value(*e, fields@, match like {
            Some(v) => Some(*v),
            None => None,
        }),
{
    match e.field {
        Some(f) => {
            let mut i: usize = 0;
            assert(fields@.skip(0) =~= fields@);
            while i < fields.len()
                invariant
                    e.field == Some(f),
                    i <= fields@.len(),
                    field_lookup(fields@, f) == field_lookup(fields@.skip(i as int), f),
                decreases fields@.len() - i,
            {
                assert(fields@.skip(i as int)[0] == fields@[i as int]);
                if fields[i].0 == f {
                    return Some(fields[i].1.duplicate());
                }
                assert(fields@.skip(i as int).drop_first() =~= fields@.skip(i + 1));
                i = i + 1;
            }
            None
        },
        None => match &e.val {
            Some(t) => {
                if e.left.is_none() && e.right.is_none() && e.function.is_none() && e.args.is_none()
                    && e.subquery.is_none() && !e.minus {
                    Some(literal_value(t, like))
                } else {
                    None
                }
            },
            None => None,
        },
    }
}

/// `a` comes before `b` as an ordering value: numbers by size, texts in
/// the order of texts, `false` before `true`, moments by their start (a
/// text that reads as no date first); values of two types in neither order.
pub open spec fn value_lt(a: Value, b: Value) -> bool {
    match (a, b) {
        (Value::Int(x), Value::Int(y)) => x < y,
        (Value::Text(x), Value::Text(y)) => text_lt(x@, y@),
        (Value::Bool(x), Value::Bool(y)) => !x && y,
        (Value::DateTime(x), Value::DateTime(y)) => match (x, y) {
            (Some(p), Some(q)) => p.0 < q.0,
            (None, Some(_)) => true,
            _ => false,
        },
        _ => false,
    }
}

fn value_less(a: &Value, b: &Value) -> (r: bool)
    ensures
        r == value_lt(*a, *b),
{
    match (a, b) {
        (Value::Int(x), Value::Int(y)) => *x < *y,
        (Value::Text(x), Value::Text(y)) => text_less(x.as_str(), y.as_str()),
        (Value::Bool(x), Value::Bool(y)) => !*x && *y,
        (Value::DateTime(x), Value::DateTime(y)) => match (x, y) {
            (Some(p), Some(q)) => p.0 < q.0,
            (None, Some(_)) => true,
            _ => false,
        },
        _ => false,
    }
}

/// `a` comes before `b` by the ordering values: at the first position where
/// one value comes before the other, ascending or descending as `asc` says
/// for that position.
pub open spec fn keys_lt(a: Seq<Value>, b: Seq<Value>, asc: Seq<bool>) -> bool
    decreases a.len(),
{
    if a.len() == 0 || b.len() == 0 || asc.len() == 0 {
        false
    } else if value_lt(a[0], b[0]) {
        asc[0]
    } else if value_lt(b[0], a[0]) {
        !asc[0]
    } else {
        keys_lt(a.drop_first(), b.drop_first(), asc.drop_first())
    }
}

fn keys_less(a: &Vec<Value>, b: &Vec<Value>, asc: &Vec<bool>) -> (r: bool)
    ensures
        r == keys_lt(a@, b@, asc@),
{
    let mut i: usize = 0;
    assert(a@.skip(0) =~= a@ && b@.skip(0) =~= b@ && asc@.skip(0) =~= asc@);
    while i < a.len() && i < b.len() && i < asc.len()
        invariant
            i <= a@.len(),
            i <= b@.len(),
            i <= asc@.len(),
            keys_lt(a@, b@, asc@) == keys_lt(a@.skip(i as int), b@.skip(i as int), asc@.skip(i as int)),
        decreases a@.len() - i,
    {
        assert(a@.skip(i as int)[0] == a@[i as int] && b@.skip(i as int)[0] == b@[i as int]
            && asc@.skip(i as int)[0] == asc@[i as int]);
        if value_less(&a[i], &b[i]) {
            return asc[i];
        }
        if value_less(&b[i], &a[i]) {
            return !asc[i];
        }
        assert(a@.skip(i as int).drop_first() =~= a@.skip(i + 1));
        assert(b@.skip(i as int).drop_first() =~= b@.skip(i + 1));
        assert(asc@.skip(i as int).drop_first() =~= asc@.skip(i + 1));
        i = i + 1;
    }
    false
}

/// A result row: its ordering values and its text.
pub type Row = (Vec<Value>, String);

/// Where row `r` goes among the rows `order` (indexes into `rows`), looking
/// from position `from`: before the first one it comes before, else last.
/// Rows with the same ordering values keep the order they came in.
pub open spec fn place_from(rows: Seq<Row>, order: Seq<usize>, r: int, asc: Seq<bool>, from: int) -> int
    decreases order.len() - from,
{
    if from >= order.len() {
        order.len() as int
    } else if keys_lt(rows[r].0@, rows[order[from] as int].0@, asc) {
        from
    } else {
        place_from(rows, order, r, asc, from + 1)
    }
}

/// The rows, as indexes, in the order their ordering values give; rows
/// with the same values keep the order they came in.
pub open spec fn sorted_order(rows: Seq<Row>, asc: Seq<bool>, n: nat) -> Seq<usize>
    decreases n,
{
    if n == 0 {
        Seq::empty()
    } else {
        let o = sorted_order(rows, asc, (n - 1) as nat);
        o.insert(place_from(rows, o, n - 1, asc, 0), (n - 1) as usize)
    }
}

/// The texts of the rows shown: in order, after the first `offset`, at most
/// `limit` of them (0: all).
pub open spec fn spec_page(rows: Seq<Row>, asc: Seq<bool>, offset: u32, limit: u32) -> Seq<Seq<char>> {
    let o = sorted_order(rows, asc, rows.len());
    let rest = if offset < o.len() {
        o.skip(offset as int)
    } else {
        Seq::empty()
    };
    let shown = if limit > 0 && limit < rest.len() {
        rest.take(limit as int)
    } else {
        rest
    };
    Seq::new(shown.len(), |i: int| rows[shown[i] as int].1@)
}

fn place(rows: &Vec<Row>, order: &Vec<usize>, r: usize, asc: &Vec<bool>) -> (p: usize)
    requires
        r < rows@.len(),
        forall|j: int| 0 <= j < order@.len() ==> order@[j] < rows@.len(),
    ensures
        p == place_from(rows@, order@, r as int, asc@, 0),
        p <= order@.len(),
{
    let mut j: usize = 0;
    while j < order.len()
        invariant
            j <= order@.len(),
            r < rows@.len(),
            forall|k: int| 0 <= k < order@.len() ==> order@[k] < rows@.len(),
            place_from(rows@, order@, r as int, asc@, 0) == place_from(rows@, order@, r as int, asc@, j as int),
        decreases order@.len() - j,
    {
        if keys_less(&rows[r].0, &rows[order[j]].0, asc) {
            return j;
        }
        j = j + 1;
    }
    j
}

/// The texts of the rows shown (see `spec_page`).
pub fn page(rows: &Vec<Row>, asc: &Vec<bool>, offset: u32, limit: u32) -> (r: Vec<String>)
    ensures
        texts_of(r@) == spec_page(rows@, asc@, offset, limit),
{
    let mut order: Vec<usize> = Vec::new();
    let mut n: usize = 0;
    while n < rows.len()
        invariant
            n <= rows@.len(),
            order@ == sorted_order(rows@, asc@, n as nat),
            order@.len() == n,
            forall|j: int| 0 <= j < order@.len() ==> order@[j] < n,
        decreases rows@.len() - n,
    {
        let p = place(rows, &order, n, asc);
        let ghost before = order@;
        order.insert(p, n);
        assert forall|j: int| 0 <= j < order@.len() implies order@[j] < n + 1 by {
            if j < p {
                assert(order@[j] == before[j]);
            } else if j > p {
                assert(order@[j] == before[j - 1]);
            }
        }
        n = n + 1;
    }
    assert(order@ == sorted_order(rows@, asc@, rows@.len()));
    let len = order.len();
    let start: usize = if (offset as usize) < len {
        offset as usize
    } else {
        len
    };
    let end: usize = if limit > 0 && (limit as usize) < len - start {
        start + limit as usize
    } else {
        len
    };
    let mut out: Vec<String> = Vec::new();
    let mut i: usize = start;
    while i < end
        invariant
            start <= i <= end,
            end <= len,
            len == order@.len(),
            len == rows@.len(),
            forall|j: int| 0 <= j < order@.len() ==> order@[j] < rows@.len(),
            out@.len() == i - start,
            forall|k: int| 0 <= k < out@.len() ==> #[trigger] out@[k]@ == rows@[order@[start + k] as int].1@,
        decreases end - i,
    {
        out.push(rows[order[i]].1.clone());
        i = i + 1;
    }
    let ghost o = order@;
    let ghost rest = if offset < o.len() {
        o.skip(offset as int)
    } else {
        Seq::<usize>::empty()
    };
    let ghost shown = if limit > 0 && limit < rest.len() {
        rest.take(limit as int)
    } else {
        rest
    };
    assert(shown.len() == end - start);
    assert forall|k: int| 0 <= k < shown.len() implies shown[k] == o[start + k] by {}
    assert(texts_of(out@) =~= spec_page(rows@, asc@, offset, limit));
    out
}

/// A root's own ignore-file option decides alone when it is given;
/// without one the configured option decides, and without that the file
/// is not applied.
pub proof fn law_ignore_setting(own: Option<bool>, configured: Option<bool>)
    ensures
        own matches Some(b) ==> setting_or(own, configured) == b,
        own is None ==> setting_or(own, configured) == (configured == Some(true)),
{
}

/// Rows are ordered by their values as these compare: numbers by size,
/// texts by their characters (a proper beginning first, else the smaller
/// character at the first place where they differ), `false` before
/// `true`; and a value never comes before itself.
pub proof fn law_value_order(x: String, y: String, i: int, a: i64, b: i64)
    requires
        0 <= i <= x@.len(),
        i <= y@.len(),
        forall|j: int| 0 <= j < i ==> x@[j] == y@[j],
        (i == x@.len() && i < y@.len()) || (i < x@.len() && i < y@.len() && (x@[i] as u32) < (y@[i] as u32)),
    ensures
        value_lt(Value::Text(x), Value::Text(y)),
        !value_lt(Value::Text(y), Value::Text(x)),
        !value_lt(Value::Text(x), Value::Text(x)),
        value_lt(Value::Int(a), Value::Int(b)) == (a < b),
        value_lt(Value::Bool(false), Value::Bool(true)),
        !value_lt(Value::Bool(true), Value::Bool(false)),
{
    law_text_order(x@, y@, i);
    lemma_text_order_strict(x@, x@);
}

/// Buffered rows are ordered by their first key where the keys differ: the
/// smaller first when it is ascending, the larger first when it is not;
/// rows whose first keys are alike are ordered by the keys that follow.
pub proof fn law_row_order(a: Seq<Value>, b: Seq<Value>, asc: Seq<bool>)
    requires
        a.len() > 0,
        b.len() > 0,
        asc.len() > 0,
    ensures
        value_lt(a[0], b[0]) ==> keys_lt(a, b, asc) == asc[0],
        value_lt(b[0], a[0]) && !value_lt(a[0], b[0]) ==> keys_lt(a, b, asc) == !asc[0],
        (!value_lt(a[0], b[0]) && !value_lt(b[0], a[0])) ==> keys_lt(a, b, asc) == keys_lt(
            a.drop_first(),
            b.drop_first(),
            asc.drop_first(),
        ),
{
}

/// Of two buffered rows, the second is shown first exactly when its
/// ordering values come before those of the first; otherwise they keep
/// the order they came in.
pub proof fn law_page_two_rows(rows: Seq<Row>, asc: Seq<bool>)
    requires
        rows.len() == 2,
    ensures
        keys_lt(rows[1].0@, rows[0].0@, asc) ==> spec_page(rows, asc, 0, 0) == seq![rows[1].1@, rows[0].1@],
        !keys_lt(rows[1].0@, rows[0].0@, asc) ==> spec_page(rows, asc, 0, 0) == seq![rows[0].1@, rows[1].1@],
{
    let o1 = sorted_order(rows, asc, 1);
    assert(sorted_order(rows, asc, 0) =~= Seq::<usize>::empty());
    assert(o1 =~= seq![0usize]);
    let o2 = sorted_order(rows, asc, 2);
    if keys_lt(rows[1].0@, rows[0].0@, asc) {
        assert(place_from(rows, o1, 1, asc, 0) == 0);
        assert(o2 =~= seq![1usize, 0usize]);
        assert(spec_page(rows, asc, 0, 0) =~= seq![rows[1].1@, rows[0].1@]);
    } else {
        assert(place_from(rows, o1, 1, asc, 1) == 1);
        assert(place_from(rows, o1, 1, asc, 0) == 1);
        assert(o2 =~= seq![0usize, 1usize]);
        assert(spec_page(rows, asc, 0, 0) =~= seq![rows[0].1@, rows[1].1@]);
    }
}

/// A row's place among the ordered ones is one of the places there are.
proof fn lemma_place_in_range(rows: Seq<Row>, order: Seq<usize>, r: int, asc: Seq<bool>, from: int)
    requires
        0 <= from,
    ensures
        from <= order.len() ==> from <= place_from(rows, order, r, asc, from) <= order.len(),
        from > order.len() ==> place_from(rows, order, r, asc, from) == order.len(),
    decreases order.len() - from,
{
    if from < order.len() {
        lemma_place_in_range(rows, order, r, asc, from + 1);
    }
}

/// Ordering rows keeps each of them once: there are as many as rows.
proof fn lemma_sorted_len(rows: Seq<Row>, asc: Seq<bool>, n: nat)
    ensures
        sorted_order(rows, asc, n).len() == n,
    decreases n,
{
    if n > 0 {
        lemma_sorted_len(rows, asc, (n - 1) as nat);
        lemma_place_in_range(rows, sorted_order(rows, asc, (n - 1) as nat), n - 1, asc, 0);
    }
}

/// The rows shown skip the first `offset` of the ordered rows and then
/// take at most `limit` of them (all when `limit` is 0): as many as that
/// leaves, each the row at its place among all the ordered rows.
pub proof fn law_page_window(rows: Seq<Row>, asc: Seq<bool>, offset: u32, limit: u32)
    ensures
        ({
            let avail = if offset < rows.len() {
                rows.len() - offset
            } else {
                0
            };
            spec_page(rows, asc, offset, limit).len() == if limit > 0 && limit < avail {
                limit as int
            } else {
                avail
            }
        }),
        forall|i: int| 0 <= i < spec_page(rows, asc, offset, limit).len() ==> #[trigger] spec_page(rows, asc, offset, limit)[i]
            == spec_page(rows, asc, 0, 0)[offset + i],
        spec_page(rows, asc, 0, 0).len() == rows.len(),
{
    lemma_sorted_len(rows, asc, rows.len());
}

} // verus!
