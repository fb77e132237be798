//! The list of fragment shaders, the one shown, and how file changes
//! reported by a directory watcher update them.
use vstd::prelude::*;

verus! {

/// A shader: its name, its source text, and the file it came from (`None`
/// for a built-in shader).
pub struct ShaderEntry {
    pub name: String,
    pub source: String,
    pub path: Option<String>,
}

/// A change to a shader file, reported with the file's path.
pub enum ShaderEvent {
    Modified(String),
    Created(String),
    Removed(String),
}

/// Whether `entry` came from the file at `path`.
pub open spec fn entry_has_path(entry: ShaderEntry, path: Seq<char>) -> bool {
    entry.path matches Some(p) && p@ == path
}

/// The shown position after shader `idx` was removed, `n` shaders being
/// left and `cur` having been shown.
pub open spec fn index_after_remove(cur: int, idx: int, n: int) -> int {
    if n == 0 {
        0
    } else if cur >= n {
        n - 1
    } else if idx < cur {
        cur - 1
    } else {
        cur
    }
}

/// Whether the shader to show must be rebuilt after shader `idx` was
/// removed, `n` shaders being left and `cur` having been shown.
pub open spec fn rebuild_after_remove(cur: int, idx: int, n: int) -> bool {
    n != 0 && (cur >= n || idx == cur)
}

/// Whether `m` can be the outcome of comparing every shader's file with
/// the file at `path`: one outcome per shader, a shader without a file never
/// matches, a shader whose file is written exactly as `path` always does,
/// and when both paths are plain (`plain_path`) a shader matches exactly
/// when its file is written as `path`. Other paths naming the same file
/// (`dir//a.wgsl` for `dir/a.wgsl`) match or not as the platform's `Path`
/// comparison decides.
pub open spec fn path_outcomes(s: Seq<ShaderEntry>, path: Seq<char>, m: Seq<bool>) -> bool {
    &&& m.len() == s.len()
    &&& forall|j: int| 0 <= j < s.len() && entry_has_path(#[trigger] s[j], path) ==> m[j]
    &&& forall|j: int| 0 <= j < s.len() && #[trigger] s[j].path is None ==> !m[j]
    &&& forall|j: int|
        0 <= j < s.len() && #[trigger] s[j].path is Some && plain_path(s[j].path.unwrap()@)
            && plain_path(path) ==> (m[j] == (s[j].path.unwrap()@ == path))
}

/// Every built-in shader (one without a file) of `before` is still in
/// `after`.
pub open spec fn keeps_builtins(before: Seq<ShaderEntry>, after: Seq<ShaderEntry>) -> bool {
    forall|j: int| 0 <= j < before.len() && #[trigger] before[j].path is None ==> after.contains(before[j])
}

/// Whether `i` is the first position at which `m` holds.
pub open spec fn first_true(m: Seq<bool>, i: int) -> bool {
    &&& 0 <= i < m.len()
    &&& m[i]
    &&& forall|j: int| 0 <= j < i ==> !#[trigger] m[j]
}

/// The first position at which `m` holds, if any.
pub open spec fn spec_first_index(m: Seq<bool>) -> Option<int> {
    if exists|i: int| first_true(m, i) {
        Some(choose|i: int| first_true(m, i))
    } else {
        None
    }
}

/// Whether `m` holds nowhere.
pub open spec fn no_true(m: Seq<bool>) -> bool {
    forall|j: int| 0 <= j < m.len() ==> !#[trigger] m[j]
}

proof fn lemma_no_first_means_none(m: Seq<bool>)
    requires
        forall|i: int| !first_true(m, i),
    ensures
        no_true(m),
    decreases m.len(),
{
    if m.len() > 0 {
        let p = m.drop_last();
        assert forall|k: int| 0 <= k < p.len() implies #[trigger] p[k] == m[k] by {}
        assert forall|i: int| !first_true(p, i) by {
            if first_true(p, i) {
                assert forall|j: int| 0 <= j < i implies !#[trigger] m[j] by {
                    assert(p[j] == m[j]);
                }
                assert(first_true(m, i));
            }
        }
        lemma_no_first_means_none(p);
        assert forall|j: int| 0 <= j < m.len() - 1 implies !#[trigger] m[j] by {
            assert(p[j] == m[j]);
        }
        assert(!first_true(m, m.len() - 1));
        assert forall|j: int| 0 <= j < m.len() implies !#[trigger] m[j] by {
            if j < m.len() - 1 {
                assert(p[j] == m[j]);
            }
        }
    }
}

/// `after` is `before` with the source of shader `i` replaced by `source`.
pub open spec fn reloaded(before: Seq<ShaderEntry>, after: Seq<ShaderEntry>, i: int, source: String) -> bool {
    &&& after.len() == before.len()
    &&& after[i].source == source
    &&& after[i].name == before[i].name
    &&& after[i].path == before[i].path
    &&& forall|j: int| 0 <= j < before.len() && j != i ==> #[trigger] after[j] == before[j]
}

/// The first position at which `m` holds, `None` when it holds nowhere.
pub fn first_match(m: &[bool]) -> (r: Option<usize>)
    ensures
        match r {
            Some(i) => first_true(m@, i as int),
            None => no_true(m@),
        },
{
    let n = m.len();
    let mut i: usize = 0;
    while i < n
        invariant
            i <= n,
            n == m@.len(),
            forall|j: int| 0 <= j < i ==> !#[trigger] m@[j],
        decreases n - i,
    {
        if m[i] {
            return Some(i);
        }
        i = i + 1;
    }
    None
}

/// Whether `stem` is a contiguous part of `path`.
pub open spec fn is_part_of(stem: Seq<char>, path: Seq<char>) -> bool {
    exists|a: int, b: int| 0 <= a <= b <= path.len() && stem == #[trigger] path.subrange(a, b)
}

/// Whether position `i` of `p` starts a component: the path's first
/// character, or one right after a `/`.
pub open spec fn starts_component(p: Seq<char>, i: int) -> bool {
    i == 0 || p[i - 1] == '/'
}

/// Whether position `i` of `p` ends a component: the end of the path, or a
/// `/`.
pub open spec fn ends_component(p: Seq<char>, i: int) -> bool {
    i == p.len() || p[i] == '/'
}

/// A plainly written path, read alike on every platform: not empty, no `\`
/// and no `:` (so no Windows prefix or second separator), an optional
/// leading `/`, then components separated by single `/`s, none of them
/// empty, `.` or `..`, and no trailing `/`. Such a path's components are
/// exactly its `/`-separated parts.
pub open spec fn plain_path(p: Seq<char>) -> bool {
    &&& p.len() > 0
    &&& p.last() != '/'
    &&& forall|i: int| 0 <= i < p.len() ==> #[trigger] p[i] != '\\' && p[i] != ':'
    &&& forall|i: int| 0 < i < p.len() && #[trigger] p[i] == '/' ==> p[i - 1] != '/'
    &&& forall|i: int|
        0 <= i < p.len() && #[trigger] p[i] == '.' && starts_component(p, i) ==> !ends_component(p, i + 1)
            && !(i + 1 < p.len() && p[i + 1] == '.' && ends_component(p, i + 2))
}

/// The characters after the last `/` of `p` (all of `p` when it has none):
/// the file name of a plain path.
pub open spec fn after_last_slash(p: Seq<char>) -> Seq<char>
    decreases p.len(),
{
    if p.len() == 0 {
        p
    } else if p.last() == '/' {
        Seq::empty()
    } else {
        after_last_slash(p.drop_last()).push(p.last())
    }
}

/// Position of the last `.` of `name`, -1 when it has none.
pub open spec fn last_dot(name: Seq<char>) -> int
    decreases name.len(),
{
    if name.len() == 0 {
        -1
    } else if name.last() == '.' {
        name.len() - 1
    } else {
        last_dot(name.drop_last())
    }
}

/// The stem of a file name as std documents it: the whole name when it has
/// no `.`, or when its only `.` is the first character; otherwise the part
/// before the last `.`.
pub open spec fn name_stem(name: Seq<char>) -> Seq<char> {
    if last_dot(name) <= 0 {
        name
    } else {
        name.subrange(0, last_dot(name))
    }
}

/// Whether `name` can be what `file_stem_lossy` gives for `path`: always a
/// contiguous part of the path, and for a plain path the stem of its file
/// name.
pub open spec fn stem_of(name: Seq<char>, path: Seq<char>) -> bool {
    &&& is_part_of(name, path)
    &&& plain_path(path) ==> name == name_stem(after_last_slash(path))
}

/// Calls `Path::file_stem` on `path` and converts the stem to a `String`
/// (empty when the path has no file name). The stem is a slice of the
/// path's text, so it is a contiguous part of it. For a plain path the file
/// name is the part after the last `/`, and std documents the stem as that
/// name up to its last `.`, or the whole name when it has no `.` or only a
/// leading one; the text is valid UTF-8, so the conversion keeps it as it
/// is. Other paths split as the platform decides, and nothing more is
/// stated of them.
#[verifier::external_body]
fn file_stem_lossy(path: &str) -> (stem: String)
    ensures
        stem_of(stem@, path@),
{
    std::path::Path::new(path).file_stem().unwrap_or_default().to_string_lossy().to_string()
}

/// Compares two paths with `==` on `Path`, which std does component by
/// component. A path text is always the same path as itself. Two plain
/// paths have their `/`-separated parts as components on every platform,
/// so they are the same path exactly when they are written alike; other
/// paths compare as the platform decides.
#[verifier::external_body]
fn same_path(a: &str, b: &str) -> (r: bool)
    ensures
        a@ == b@ ==> r,
        plain_path(a@) && plain_path(b@) ==> (r == (a@ == b@)),
{
    std::path::Path::new(a) == std::path::Path::new(b)
}

/// The shaders, in the order they were found, and the one shown.
pub struct ShaderLoader {
    shaders: Vec<ShaderEntry>,
    current_index: usize,
}

impl ShaderLoader {
    /// The shaders, in the order they were found.
    pub closed spec fn entries(&self) -> Seq<ShaderEntry> {
        self.shaders@
    }

    /// Position of the shader shown.
    pub closed spec fn index(&self) -> int {
        self.current_index as int
    }

    /// The shown position is a listed one, or the first when none is.
    pub open spec fn wf(&self) -> bool {
        &&& 0 <= self.index()
        &&& self.index() < self.entries().len() || (self.entries().len() == 0 && self.index() == 0)
    }

    /// Starts with the given shaders, showing the first.
    pub fn with_shaders(shaders: Vec<ShaderEntry>) -> (l: Self)
        ensures
            l.wf(),
            l.entries() == shaders@,
            l.index() == 0,
    {
        ShaderLoader { shaders, current_index: 0 }
    }

    /// Starts with the built-in shaders followed by one shader per shader
    /// file found, each given as its path and its source and named after
    /// the file's stem, showing the first.
    pub fn with_files(builtins: Vec<ShaderEntry>, files: Vec<(String, String)>) -> (l: Self)
        ensures
            l.wf(),
            l.index() == 0,
            l.entries().len() == builtins@.len() + files@.len(),
            l.entries().subrange(0, builtins@.len() as int) == builtins@,
            forall|k: int|
                0 <= k < files@.len() ==> {
                    let e = #[trigger] l.entries()[builtins@.len() + k];
                    &&& e.path == Some(files@[k].0)
                    &&& e.source == files@[k].1
                    &&& stem_of(e.name@, files@[k].0@)
                },
    {
        let mut shaders = builtins;
        let ghost b = shaders@;
        let mut files = files;
        let ghost all = files@;
        let n = files.len();
        let mut k: usize = 0;
        while k < n
            invariant
                k <= n,
                n == all.len(),
                files@ == all.subrange(k as int, n as int),
                shaders@.len() == b.len() + k,
                shaders@.subrange(0, b.len() as int) == b,
                forall|q: int|
                    0 <= q < k ==> {
                        let e = #[trigger] shaders@[b.len() + q];
                        &&& e.path == Some(all[q].0)
                        &&& e.source == all[q].1
                        &&& stem_of(e.name@, all[q].0@)
                    },
            decreases n - k,
        {
            let (path, source) = files.remove(0);
            let name = file_stem_lossy(path.as_str());
            let ghost before = shaders@;
            shaders.push(ShaderEntry { name, source, path: Some(path) });
            assert(shaders@.subrange(0, b.len() as int) =~= before.subrange(0, b.len() as int));
            assert(files@ =~= all.subrange(k + 1, n as int));
            k = k + 1;
        }
        ShaderLoader { shaders, current_index: 0 }
    }

    /// The shader shown, `None` when there is none.
    pub fn current(&self) -> (r: Option<&ShaderEntry>)
        requires
            self.wf(),
        ensures
            self.entries().len() == 0 ==> r is None,
            self.entries().len() > 0 ==> r == Some(&self.entries()[self.index()]),
    {
        if self.current_index < self.shaders.len() {
            Some(&self.shaders[self.current_index])
        } else {
            None
        }
    }

    /// Name of the shader shown, `"none"` when there is none.
    pub fn current_name(&self) -> (s: &str)
        requires
            self.wf(),
        ensures
            self.entries().len() == 0 ==> s@ == "none"@,
            self.entries().len() > 0 ==> s@ == self.entries()[self.index()].name@,
    {
        match self.current() {
            Some(s) => s.name.as_str(),
            None => "none",
        }
    }

    /// Source of the shader shown, empty when there is none.
    pub fn current_source(&self) -> (s: &str)
        requires
            self.wf(),
        ensures
            self.entries().len() == 0 ==> s@ == ""@,
            self.entries().len() > 0 ==> s@ == self.entries()[self.index()].source@,
    {
        match self.current() {
            Some(s) => s.source.as_str(),
            None => "",
        }
    }

    /// Shows the next shader, wrapping from the last to the first.
    pub fn next(&mut self)
        requires
            old(self).wf(),
        ensures
            final(self).wf(),
            final(self).entries() == old(self).entries(),
            old(self).entries().len() == 0 ==> final(self).index() == old(self).index(),
            old(self).entries().len() > 0 ==> final(self).index() == (old(self).index() + 1)
                % (old(self).entries().len() as int),
    {
        if !self.shaders.is_empty() {
            assert(self.shaders@.len() == self.shaders.len());
            self.current_index = (self.current_index + 1) % self.shaders.len();
        }
    }

    /// Shows the previous shader, wrapping from the first to the last.
    pub fn prev(&mut self)
        requires
            old(self).wf(),
        ensures
            final(self).wf(),
            final(self).entries() == old(self).entries(),
            old(self).entries().len() == 0 ==> final(self).index() == old(self).index(),
            old(self).entries().len() > 0 ==> final(self).index() == if old(self).index() == 0 {
                old(self).entries().len() - 1
            } else {
                old(self).index() - 1
            },
    {
        if !self.shaders.is_empty() {
            self.current_index = if self.current_index == 0 {
                self.shaders.len() - 1
            } else {
                self.current_index - 1
            };
        }
    }

    /// Number of shaders.
    pub fn shader_count(&self) -> (n: usize)
        ensures
            n == self.entries().len(),
    {
        self.shaders.len()
    }

    /// Compares the file of every shader with the file at `path`, as
    /// `Path`s; shaders without a file do not match.
    pub fn path_matches(&self, path: &str) -> (m: Vec<bool>)
        ensures
            path_outcomes(self.entries(), path@, m@),
    {
        let n = self.shaders.len();
        let mut m: Vec<bool> = Vec::with_capacity(n);
        let mut i: usize = 0;
        while i < n
            invariant
                n == self.entries().len(),
                i <= n,
                m@.len() == i,
                forall|j: int| 0 <= j < i && entry_has_path(#[trigger] self.entries()[j], path@) ==> m@[j],
                forall|j: int| 0 <= j < i && #[trigger] self.entries()[j].path is None ==> !m@[j],
                forall|j: int|
                    0 <= j < i && #[trigger] self.entries()[j].path is Some && plain_path(
                        self.entries()[j].path.unwrap()@,
                    ) && plain_path(path@) ==> (m@[j] == (self.entries()[j].path.unwrap()@ == path@)),
            decreases n - i,
        {
            let found = match &self.shaders[i].path {
                Some(p) => same_path(p.as_str(), path),
                None => false,
            };
            m.push(found);
            i = i + 1;
        }
        m
    }

    /// Position of the first shader whose file is the same path as `path`.
    pub fn position_of(&self, path: &str) -> (r: Option<usize>)
        ensures
            exists|m: Seq<bool>|
                #![trigger path_outcomes(self.entries(), path@, m)]
                {
                    &&& path_outcomes(self.entries(), path@, m)
                    &&& match r {
                        Some(i) => first_true(m, i as int),
                        None => no_true(m),
                    }
                },
    {
        let m = self.path_matches(path);
        first_match(&m)
    }

    /// Replaces the source of the first shader for which `matches` holds,
    /// `matches` being the outcome of comparing each shader's file with a
    /// modified file; `true` when that shader is the one shown. Nothing
    /// changes when no shader matches.
    pub fn reload_matched(&mut self, matches: &[bool], source: String) -> (changed: bool)
        requires
            old(self).wf(),
            matches@.len() == old(self).entries().len(),
        ensures
            final(self).wf(),
            final(self).index() == old(self).index(),
            forall|i: int|
                first_true(matches@, i) ==> reloaded(old(self).entries(), final(self).entries(), i, source)
                    && changed == (i == old(self).index()),
            no_true(matches@) ==> final(self).entries() == old(self).entries() && !changed,
    {
        match first_match(matches) {
            Some(idx) => self.reload(idx, source),
            None => false,
        }
    }

    /// Drops the first shader for which `matches` holds, `matches` being the
    /// outcome of comparing each shader's file with a removed file, as
    /// `remove` does. Nothing changes when no shader matches.
    pub fn remove_matched(&mut self, matches: &[bool]) -> (changed: bool)
        requires
            old(self).wf(),
            matches@.len() == old(self).entries().len(),
        ensures
            final(self).wf(),
            forall|i: int|
                first_true(matches@, i) ==> {
                    &&& final(self).entries() == old(self).entries().remove(i)
                    &&& final(self).index() == index_after_remove(
                        old(self).index(),
                        i,
                        final(self).entries().len() as int,
                    )
                    &&& changed == rebuild_after_remove(
                        old(self).index(),
                        i,
                        final(self).entries().len() as int,
                    )
                },
            no_true(matches@) ==> final(self).entries() == old(self).entries() && final(self).index()
                == old(self).index() && !changed,
    {
        match first_match(matches) {
            Some(idx) => self.remove(idx),
            None => false,
        }
    }

    /// Replaces the source of shader `idx` after its file changed; `true`
    /// when that shader is the one shown, which then has to be rebuilt.
    pub fn reload(&mut self, idx: usize, source: String) -> (changed: bool)
        requires
            old(self).wf(),
            idx < old(self).entries().len(),
        ensures
            final(self).wf(),
            final(self).index() == old(self).index(),
            final(self).entries().len() == old(self).entries().len(),
            final(self).entries()[idx as int].source == source,
            final(self).entries()[idx as int].name == old(self).entries()[idx as int].name,
            final(self).entries()[idx as int].path == old(self).entries()[idx as int].path,
            forall|j: int|
                0 <= j < old(self).entries().len() && j != idx ==> #[trigger] final(self).entries()[j]
                    == old(self).entries()[j],
            changed == (idx == old(self).index()),
    {
        let entry = self.shaders.remove(idx);
        let updated = ShaderEntry { name: entry.name, source, path: entry.path };
        self.shaders.insert(idx, updated);
        idx == self.current_index
    }

    /// Adds a shader found in a new file after the others; the one shown
    /// stays the same.
    pub fn add(&mut self, entry: ShaderEntry)
        requires
            old(self).wf(),
        ensures
            final(self).wf(),
            final(self).entries() == old(self).entries().push(entry),
            final(self).index() == old(self).index(),
    {
        self.shaders.push(entry);
    }

    /// Applies one change reported by the directory watcher; `contents` is
    /// what reading the changed file gave (`None` when it could not be
    /// read). The changed file is compared with every shader's file as
    /// `path_matches` does, and then: a modified file replaces the source of
    /// the first matching shader (`reload_matched`); a created file is added
    /// as a new shader named after the file's stem; a removed file drops the
    /// first matching shader (`remove_matched`). Files that could not be
    /// read change nothing. Returns `true` when the shader shown has to be
    /// rebuilt.
    pub fn handle_event(&mut self, event: ShaderEvent, contents: Option<String>) -> (changed: bool)
        requires
            old(self).wf(),
        ensures
            final(self).wf(),
            keeps_builtins(old(self).entries(), final(self).entries()),
            match event {
                ShaderEvent::Modified(path) => match contents {
                    Some(src) => exists|m: Seq<bool>|
                        #![trigger path_outcomes(old(self).entries(), path@, m)]
                        {
                            &&& path_outcomes(old(self).entries(), path@, m)
                            &&& final(self).index() == old(self).index()
                            &&& forall|i: int|
                                first_true(m, i) ==> reloaded(old(self).entries(), final(self).entries(), i, src)
                                    && changed == (i == old(self).index())
                            &&& no_true(m) ==> final(self).entries() == old(self).entries() && !changed
                        },
                    None => final(self).entries() == old(self).entries() && final(self).index()
                        == old(self).index() && !changed,
                },
                ShaderEvent::Created(path) => match contents {
                    Some(src) => {
                        &&& final(self).entries().len() == old(self).entries().len() + 1
                        &&& final(self).entries().drop_last() == old(self).entries()
                        &&& final(self).entries().last().source == src
                        &&& final(self).entries().last().path == Some(path)
                        &&& stem_of(final(self).entries().last().name@, path@)
                        &&& final(self).index() == old(self).index()
                        &&& !changed
                    },
                    None => final(self).entries() == old(self).entries() && final(self).index()
                        == old(self).index() && !changed,
                },
                ShaderEvent::Removed(path) => exists|m: Seq<bool>|
                    #![trigger path_outcomes(old(self).entries(), path@, m)]
                    {
                        &&& path_outcomes(old(self).entries(), path@, m)
                        &&& forall|i: int|
                            first_true(m, i) ==> {
                                &&& final(self).entries() == old(self).entries().remove(i)
                                &&& final(self).index() == index_after_remove(
                                    old(self).index(),
                                    i,
                                    final(self).entries().len() as int,
                                )
                                &&& changed == rebuild_after_remove(
                                    old(self).index(),
                                    i,
                                    final(self).entries().len() as int,
                                )
                            }
                        &&& no_true(m) ==> final(self).entries() == old(self).entries()
                            && final(self).index() == old(self).index() && !changed
                    },
            },
    {
        match event {
            ShaderEvent::Modified(path) => match contents {
                Some(src) => {
                    let m = self.path_matches(path.as_str());
                    let changed = self.reload_matched(&m, src);
                    proof {
                        let before = old(self).entries();
                        assert forall|j: int|
                            0 <= j < before.len() && #[trigger] before[j].path is None implies self.entries().contains(
                                before[j],
                            ) by {
                            if let Some(i) = spec_first_index(m@) {
                                assert(first_true(m@, i));
                                assert(j != i);
                                assert(reloaded(before, self.entries(), i, src));
                            } else {
                                lemma_no_first_means_none(m@);
                            }
                            assert(self.entries()[j] == before[j]);
                        }
                    }
                    changed
                },
                None => false,
            },
            ShaderEvent::Created(path) => match contents {
                Some(src) => {
                    let name = file_stem_lossy(path.as_str());
                    self.add(ShaderEntry { name, source: src, path: Some(path) });
                    assert(self.entries().drop_last() =~= old(self).entries());
                    proof {
                        let before = old(self).entries();
                        assert forall|j: int|
                            0 <= j < before.len() && #[trigger] before[j].path is None implies self.entries().contains(
                                before[j],
                            ) by {
                            assert(self.entries()[j] == before[j]);
                        }
                    }
                    false
                },
                None => false,
            },
            ShaderEvent::Removed(path) => {
                let m = self.path_matches(path.as_str());
                let changed = self.remove_matched(&m);
                proof {
                    let before = old(self).entries();
                    assert forall|j: int|
                        0 <= j < before.len() && #[trigger] before[j].path is None implies self.entries().contains(
                            before[j],
                        ) by {
                        if let Some(i) = spec_first_index(m@) {
                            assert(first_true(m@, i));
                            assert(j != i);
                            assert(self.entries() == before.remove(i));
                            if j < i {
                                assert(self.entries()[j] == before[j]);
                            } else {
                                assert(self.entries()[j - 1] == before[j]);
                            }
                        } else {
                            lemma_no_first_means_none(m@);
                            assert(self.entries()[j] == before[j]);
                        }
                    }
                }
                changed
            },
        }
    }

    /// Drops shader `idx` after its file was removed and keeps the shown
    /// position valid: it moves back one place when an earlier shader goes,
    /// and to the new last shader when it pointed past the end. Returns
    /// `true` when the shader to show has to be rebuilt: the removed one
    /// was shown, or the position had to move to the last shader.
    pub fn remove(&mut self, idx: usize) -> (changed: bool)
        requires
            old(self).wf(),
            idx < old(self).entries().len(),
        ensures
            final(self).wf(),
            final(self).entries() == old(self).entries().remove(idx as int),
            final(self).index() == index_after_remove(
                old(self).index(),
                idx as int,
                final(self).entries().len() as int,
            ),
            changed == rebuild_after_remove(
                old(self).index(),
                idx as int,
                final(self).entries().len() as int,
            ),
    {
        self.shaders.remove(idx);
        let mut changed = false;
        if self.shaders.is_empty() {
            self.current_index = 0;
        } else if self.current_index >= self.shaders.len() {
            self.current_index = self.shaders.len() - 1;
            changed = true;
        } else if idx == self.current_index {
            changed = true;
        } else if idx < self.current_index {
            self.current_index = self.current_index - 1;
        }
        changed
    }
}

/// Removing a shader other than the one shown keeps showing the same
/// shader.
pub proof fn lemma_remove_keeps_shown(before: Seq<ShaderEntry>, cur: int, idx: int)
    requires
        0 <= cur < before.len(),
        0 <= idx < before.len(),
        idx != cur,
    ensures
        ({
            let after = before.remove(idx);
            let new_cur = index_after_remove(cur, idx, after.len() as int);
            0 <= new_cur < after.len() && after[new_cur] == before[cur]
        }),
{
}

} // verus!
