//! The directories of projects and of their sessions.
use crate::paths;
use crate::text;
use crate::types::config::ThinkingEffort;
use vstd::prelude::*;

verus! {

/// The character that stands for `c` in the name of a project's directory.
pub open spec fn safe_char(c: char) -> char {
    if c == '/' || c == '_' || c == ' ' {
        '-'
    } else {
        c
    }
}

/// The name of the directory of the project at `path`.
pub open spec fn safe_name(path: Seq<char>) -> Seq<char> {
    path.map_values(|c: char| safe_char(c))
}

pub fn sanitize(path: &str) -> (r: String)
    ensures
        r@ == safe_name(path@),
{
    let chars = text::chars_of(path);
    let mut out = String::new();
    let mut i: usize = 0;
    while i < chars.len()
        invariant
            chars@ == path@,
            i <= path@.len(),
            out@ == safe_name(path@.take(i as int)),
        decreases path@.len() - i,
    {
        let c = chars[i];
        if c == '/' || c == '_' || c == ' ' {
            out.push('-');
        } else {
            out.push(c);
        }
        assert(out@ =~= safe_name(path@.take(i + 1)));
        i = i + 1;
    }
    assert(path@.take(path@.len() as int) =~= path@);
    out
}

/// A safe name is as long as the path and holds no slash, underscore or space; making it safe
/// again changes nothing.
pub proof fn law_safe_name(path: Seq<char>)
    ensures
        safe_name(path).len() == path.len(),
        !safe_name(path).contains('/'),
        !safe_name(path).contains('_'),
        !safe_name(path).contains(' '),
        safe_name(safe_name(path)) == safe_name(path),
{
    assert(safe_name(safe_name(path)) =~= safe_name(path));
}

/// The directory of all projects.
#[derive(Debug, PartialEq, Eq)]
pub struct ProjectsDir {
    path: String,
}

impl View for ProjectsDir {
    type V = Seq<char>;

    closed spec fn view(&self) -> Seq<char> {
        self.path@
    }
}

impl ProjectsDir {
    pub fn new(root: &str) -> (r: Self)
        ensures
            r@ == paths::joined_path(root@, "projects"@),
    {
        ProjectsDir { path: paths::join(root, "projects") }
    }

    pub fn path(&self) -> (r: &str)
        ensures
            r@ == self@,
    {
        self.path.as_str()
    }

    /// The directory of the project at `cwd`.
    pub fn for_cwd(&self, cwd: &str) -> (r: ProjectDir)
        ensures
            r@ == paths::joined_path(self@, safe_name(cwd@)),
    {
        let name = sanitize(cwd);
        ProjectDir { path: paths::join(self.path.as_str(), name.as_str()) }
    }

    /// The projects whose directories were found, in the order given: the entries that are
    /// directories.
    pub fn list_projects(&self, entries: &Vec<(String, bool)>) -> (r: Vec<ProjectDir>)
        ensures
            dirs_view(r@) == directories(entries@),
    {
        let mut out: Vec<ProjectDir> = Vec::new();
        let mut i: usize = 0;
        assert(dirs_view(out@) =~= directories(entries@.take(0)));
        while i < entries.len()
            invariant
                i <= entries@.len(),
                dirs_view(out@) == directories(entries@.take(i as int)),
            decreases entries@.len() - i,
        {
            let ghost before = dirs_view(out@);
            assert(entries@.take(i + 1).drop_last() =~= entries@.take(i as int));
            if entries[i].1 {
                out.push(ProjectDir { path: entries[i].0.clone() });
                assert(dirs_view(out@) =~= before.push(entries@[i as int].0@));
            }
            i = i + 1;
        }
        assert(entries@.take(entries@.len() as int) =~= entries@);
        out
    }
}

pub open spec fn dirs_view(list: Seq<ProjectDir>) -> Seq<Seq<char>> {
    Seq::new(list.len(), |i: int| list[i]@)
}

pub open spec fn sessions_view(list: Seq<SessionDir>) -> Seq<Seq<char>> {
    Seq::new(list.len(), |i: int| list[i]@)
}

/// The paths of the entries that are directories.
pub open spec fn directories(entries: Seq<(String, bool)>) -> Seq<Seq<char>>
    decreases entries.len(),
{
    if entries.len() == 0 {
        Seq::empty()
    } else {
        let done = directories(entries.drop_last());
        if entries.last().1 {
            done.push(entries.last().0@)
        } else {
            done
        }
    }
}

/// The directory of one project.
#[derive(Debug, PartialEq, Eq)]
pub struct ProjectDir {
    path: String,
}

impl View for ProjectDir {
    type V = Seq<char>;

    closed spec fn view(&self) -> Seq<char> {
        self.path@
    }
}

impl ProjectDir {
    pub fn path(&self) -> (r: &str)
        ensures
            r@ == self@,
    {
        self.path.as_str()
    }

    pub fn state_path(&self) -> (r: String)
        ensures
            r@ == paths::joined_path(self@, "state.toml"@),
    {
        paths::join(self.path.as_str(), "state.toml")
    }

    pub fn sessions_dir(&self) -> (r: String)
        ensures
            r@ == paths::joined_path(self@, "sessions"@),
    {
        paths::join(self.path.as_str(), "sessions")
    }

    /// The directory of the session `id`, whether it is there or not.
    pub fn session(&self, id: &str) -> (r: SessionDir)
        ensures
            r@ == paths::joined_path(paths::joined_path(self@, "sessions"@), id@),
    {
        let dir = self.sessions_dir();
        SessionDir { path: paths::join(dir.as_str(), id) }
    }

    /// The sessions whose directories were found: the entries that are directories.
    pub fn list_sessions(&self, entries: &Vec<(String, bool)>) -> (r: Vec<SessionDir>)
        ensures
            sessions_view(r@) == directories(entries@),
    {
        let mut out: Vec<SessionDir> = Vec::new();
        let mut i: usize = 0;
        assert(sessions_view(out@) =~= directories(entries@.take(0)));
        while i < entries.len()
            invariant
                i <= entries@.len(),
                sessions_view(out@) == directories(entries@.take(i as int)),
            decreases entries@.len() - i,
        {
            let ghost before = sessions_view(out@);
            assert(entries@.take(i + 1).drop_last() =~= entries@.take(i as int));
            if entries[i].1 {
                out.push(SessionDir { path: entries[i].0.clone() });
                assert(sessions_view(out@) =~= before.push(entries@[i as int].0@));
            }
            i = i + 1;
        }
        assert(entries@.take(entries@.len() as int) =~= entries@);
        out
    }
}

/// The directory of one session.
#[derive(Debug, PartialEq, Eq)]
pub struct SessionDir {
    path: String,
}

impl View for SessionDir {
    type V = Seq<char>;

    closed spec fn view(&self) -> Seq<char> {
        self.path@
    }
}

impl SessionDir {
    pub fn path(&self) -> (r: &str)
        ensures
            r@ == self@,
    {
        self.path.as_str()
    }

    pub fn history_path(&self) -> (r: String)
        ensures
            r@ == paths::joined_path(self@, "history.jsonl"@),
    {
        paths::join(self.path.as_str(), "history.jsonl")
    }

    /// The directory of the session `id` of an agent that this session runs.
    pub fn subagent(&self, id: &str) -> (r: SessionDir)
        ensures
            r@ == paths::joined_path(paths::joined_path(self@, "subagents"@), id@),
    {
        let dir = paths::join(self.path.as_str(), "subagents");
        SessionDir { path: paths::join(dir.as_str(), id) }
    }

    /// What is added to the history file for a message written as `line`.
    pub fn append_history(&self, line: &str) -> (r: String)
        ensures
            r@ == line@.push('\n'),
    {
        let mut out = text::copy(line);
        out.push('\n');
        out
    }

    /// The messages of the history file, each as its line, in the order in which they were
    /// written.
    pub fn load_history(&self, content: &str) -> (r: Vec<String>)
        ensures
            text::views(r@) == history_of(content@),
    {
        broadcast use text::lemma_views_push;

        let lines = text::lines(content);
        let ghost all = text::lines_of(content@);
        let mut out: Vec<String> = Vec::new();
        let mut i: usize = 0;
        assert(text::views(out@) =~= Seq::empty());
        assert(all.take(0) =~= Seq::empty());
        while i < lines.len()
            invariant
                i <= lines@.len(),
                all == text::views(lines@),
                text::views(out@) == filled_lines(all.take(i as int)),
            decreases lines@.len() - i,
        {
            broadcast use text::lemma_views_push;

            assert(all.take(i + 1).drop_last() =~= all.take(i as int));
            assert(all.take(i + 1).last() == lines@[i as int]@);
            let line = text::trim(lines[i].as_str());
            if text::char_count(line.as_str()) > 0 {
                out.push(line);
            }
            i = i + 1;
        }
        assert(all.take(all.len() as int) =~= all);
        out
    }
}

/// The trimmed lines, without the blank ones.
pub open spec fn filled_lines(lines: Seq<Seq<char>>) -> Seq<Seq<char>>
    decreases lines.len(),
{
    if lines.len() == 0 {
        Seq::empty()
    } else {
        let done = filled_lines(lines.drop_last());
        let line = text::trimmed(lines.last());
        if line.len() == 0 {
            done
        } else {
            done.push(line)
        }
    }
}

/// The messages that a history file with the given content holds.
pub open spec fn history_of(content: Seq<char>) -> Seq<Seq<char>> {
    filled_lines(text::lines_of(content))
}

proof fn lemma_split_append(s: Seq<char>, line: Seq<char>)
    requires
        !line.contains('\n'),
    ensures
        text::split_on(s + line, '\n') == ({
            let p = text::split_on(s, '\n');
            p.update(p.len() - 1, p.last() + line)
        }),
    decreases line.len(),
{
    let p = text::split_on(s, '\n');
    text::lemma_split_nonempty(s, '\n');
    if line.len() == 0 {
        assert(s + line =~= s);
        assert(p.last() + line =~= p.last());
        assert(p.update(p.len() - 1, p.last()) =~= p);
    } else {
        let less = line.drop_last();
        assert forall|k: int| 0 <= k < less.len() implies less[k] != '\n' by {
            assert(less[k] == line[k]);
            assert(line.contains(line[k]));
        }
        lemma_split_append(s, less);
        assert((s + line).drop_last() =~= s + less);
        assert((s + line).last() == line.last());
        assert(line.contains(line.last())) by {
            assert(line[line.len() - 1] == line.last());
        }
        let q = text::split_on(s + less, '\n');
        assert(q.last() == p.last() + less);
        assert((p.last() + less).push(line.last()) =~= p.last() + line);
        assert(text::split_on(s + line, '\n') =~= p.update(p.len() - 1, p.last() + line));
    }
}

proof fn lemma_trim_start_push(m: Seq<char>, w: char)
    requires
        text::white(w),
    ensures
        text::trimmed_end(text::trimmed_start(m.push(w))) == text::trimmed_end(
            text::trimmed_start(m),
        ),
    decreases m.len(),
{
    if m.len() == 0 {
        assert(m.push(w).skip(1) =~= Seq::empty());
        assert(text::trimmed_start(m.push(w)) == text::trimmed_start(m.push(w).skip(1)));
        assert(m =~= Seq::empty());
    } else if text::white(m[0]) {
        assert(m.push(w)[0] == m[0]);
        assert(m.push(w).skip(1) =~= m.skip(1).push(w));
        lemma_trim_start_push(m.skip(1), w);
    } else {
        assert(m.push(w)[0] == m[0]);
        assert(m.push(w).drop_last() =~= m);
    }
}

/// What an appended message leaves in the file is read back as the last message; the messages
/// before it stay. A message is written on one line, so a line break in it would end it early.
pub proof fn law_history_gives_back_what_was_appended(content: Seq<char>, line: Seq<char>)
    requires
        content.len() == 0 || content.last() == '\n',
        !line.contains('\n'),
        text::trimmed(line).len() > 0,
    ensures
        history_of(content + line.push('\n')) == history_of(content).push(text::trimmed(line)),
{
    let p = text::split_on(content, '\n');
    text::lemma_split_nonempty(content, '\n');
    lemma_split_append(content, line);
    let mid = content + line;
    let whole = content + line.push('\n');
    assert(whole.drop_last() =~= mid);
    assert(whole.last() == '\n');
    let q = text::split_on(whole, '\n');
    assert(p.last() =~= Seq::<char>::empty()) by {
        if content.len() > 0 {
            assert(text::split_on(content, '\n') == text::split_on(
                content.drop_last(),
                '\n',
            ).push(Seq::<char>::empty()));
        }
    }
    assert(Seq::<char>::empty() + line =~= line);
    assert(q =~= p.drop_last().push(line).push(Seq::<char>::empty()));
    let before = text::lines_of(content);
    let after = text::lines_of(whole);
    assert(after =~= before.push(text::without_cr(line)));
    assert(after.drop_last() =~= before);
    if line.len() > 0 && line.last() == '\r' {
        assert(line =~= line.drop_last().push('\r'));
        lemma_trim_start_push(line.drop_last(), '\r');
    }
    assert(text::trimmed(text::without_cr(line)) == text::trimmed(line));
}

/// What a project remembers between runs. Times are seconds since the Unix epoch.
#[derive(Debug, PartialEq, Eq)]
pub struct ProjectState {
    pub default_provider: Option<String>,
    pub default_model: Option<String>,
    pub thinking_effort: Option<ThinkingEffort>,
    pub created_at: i64,
    pub accessed_at: i64,
}

/// A configured provider: its name and, where they are listed, the names of its models.
#[derive(Debug, PartialEq, Eq)]
pub struct ProviderEntry {
    pub name: String,
    pub models: Option<Vec<String>>,
}

/// What a project that has no state yet starts with.
pub open spec fn empty_state(now: i64) -> ProjectState {
    ProjectState {
        default_provider: None,
        default_model: None,
        thinking_effort: None,
        created_at: now,
        accessed_at: now,
    }
}

/// What a new project starts with: the first provider and its first model.
pub open spec fn first_state(providers: Seq<ProviderEntry>, now: i64) -> ProjectState {
    if providers.len() == 0 {
        empty_state(now)
    } else {
        ProjectState {
            default_provider: Some(providers[0].name),
            default_model: match providers[0].models {
                Some(models) => if models@.len() > 0 {
                    Some(models@[0])
                } else {
                    None
                },
                None => None,
            },
            ..empty_state(now)
        }
    }
}

impl ProjectState {
    pub fn new(now: i64) -> (r: Self)
        ensures
            r == empty_state(now),
    {
        ProjectState {
            default_provider: None,
            default_model: None,
            thinking_effort: None,
            created_at: now,
            accessed_at: now,
        }
    }

    /// The state of a project seen for the first time.
    pub fn initial(providers: &Vec<ProviderEntry>, now: i64) -> (r: Self)
        ensures
            r == first_state(providers@, now),
    {
        let mut state = ProjectState::new(now);
        if providers.len() > 0 {
            state.default_provider = Some(providers[0].name.clone());
            match &providers[0].models {
                Some(models) => {
                    if models.len() > 0 {
                        state.default_model = Some(models[0].clone());
                    }
                },
                None => {},
            }
        }
        state
    }

    /// Notes that the project was opened.
    pub fn accessed(&mut self, now: i64)
        ensures
            *final(self) == (ProjectState { accessed_at: now, ..*old(self) }),
    {
        self.accessed_at = now;
    }
}

} // verus!
