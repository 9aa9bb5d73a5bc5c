//! Locations under the `exo-self` directory of the host's configuration
//! directory, as path strings.
use crate::text::{append, chars_of, starts_with, string_of};
use vstd::prelude::*;

verus! {

/// `base.join(name)` for Unix paths: an absolute `name` replaces `base`,
/// otherwise the two are joined with one `'/'` unless `base` is empty or
/// already ends with one.
pub open spec fn path_join(base: Seq<char>, name: Seq<char>) -> Seq<char> {
    if starts_with(name, "/"@) {
        name
    } else if base.len() == 0 || base.last() == '/' {
        base + name
    } else {
        base + "/"@ + name
    }
}

/// A path string starts with `/` exactly when its first character is `/`.
pub proof fn lemma_starts_with_slash(s: Seq<char>)
    ensures
        starts_with(s, "/"@) == (s.len() > 0 && s[0] == '/'),
{
    reveal_strlit("/");
    assert("/"@.len() == 1);
    assert("/"@[0] == '/');
    if starts_with(s, "/"@) {
        assert(s[0int + 0int] == "/"@[0]);
    }
}

/// `Path::join` on path strings.
pub fn join_path(base: &str, name: &str) -> (r: String)
    ensures
        r@ == path_join(base@, name@),
{
    let b = chars_of(base);
    let n = chars_of(name);
    proof {
        lemma_starts_with_slash(n@);
    }
    if n.len() > 0 && n[0] == '/' {
        return string_of(n);
    }
    let mut r = b.clone();
    if !(b.len() == 0 || b[b.len() - 1] == '/') {
        append(&mut r, &chars_of("/"));
    }
    append(&mut r, &n);
    string_of(r)
}

/// All paths under `{config_dir}/exo-self/`.
pub struct ExoPaths {
    pub root: String,
    pub journal: String,
    pub interests: String,
    pub config: String,
    pub meta: String,
    pub sessions_dir: String,
    pub handoffs_dir: String,
    pub per_project_dir: String,
    pub shared_state: String,
    pub context_window: String,
    pub synthesis: String,
    pub sigils_dir: String,
    pub traces_dir: String,
}

impl ExoPaths {
    /// The layout's invariant: every location sits in `root`.
    pub open spec fn laid_out_under(&self, config_dir: Seq<char>) -> bool {
        let root = path_join(config_dir, "exo-self"@);
        &&& self.root@ == root
        &&& self.journal@ == path_join(root, "journal.md"@)
        &&& self.interests@ == path_join(root, "interests.md"@)
        &&& self.config@ == path_join(root, "config.json"@)
        &&& self.meta@ == path_join(root, "meta.json"@)
        &&& self.sessions_dir@ == path_join(root, "sessions"@)
        &&& self.handoffs_dir@ == path_join(root, "handoffs"@)
        &&& self.per_project_dir@ == path_join(root, "per-project"@)
        &&& self.shared_state@ == path_join(root, ".context-monitor-state.json"@)
        &&& self.context_window@ == path_join(root, ".context-window.json"@)
        &&& self.synthesis@ == path_join(root, "synthesis.md"@)
        &&& self.sigils_dir@ == path_join(root, "sigils"@)
        &&& self.traces_dir@ == path_join(root, "traces"@)
    }

    /// The layout under the host's configuration directory `config_dir`
    /// (the caller finds it from the environment).
    pub fn under_config_dir(config_dir: &str) -> (r: Self)
        ensures
            r.laid_out_under(config_dir@),
    {
        let root = join_path(config_dir, "exo-self");
        ExoPaths {
            journal: join_path(root.as_str(), "journal.md"),
            interests: join_path(root.as_str(), "interests.md"),
            config: join_path(root.as_str(), "config.json"),
            meta: join_path(root.as_str(), "meta.json"),
            sessions_dir: join_path(root.as_str(), "sessions"),
            handoffs_dir: join_path(root.as_str(), "handoffs"),
            per_project_dir: join_path(root.as_str(), "per-project"),
            shared_state: join_path(root.as_str(), ".context-monitor-state.json"),
            context_window: join_path(root.as_str(), ".context-window.json"),
            synthesis: join_path(root.as_str(), "synthesis.md"),
            sigils_dir: join_path(root.as_str(), "sigils"),
            traces_dir: join_path(root.as_str(), "traces"),
            root,
        }
    }

    /// `sessions/state-{session_id}.json`
    pub fn state_file(&self, session_id: &str) -> (r: String)
        ensures
            r@ == path_join(self.sessions_dir@, "state-"@ + session_id@ + ".json"@),
    {
        let mut name = chars_of("state-");
        append(&mut name, &chars_of(session_id));
        append(&mut name, &chars_of(".json"));
        let n = string_of(name);
        join_path(self.sessions_dir.as_str(), n.as_str())
    }

    /// `handoffs/{session_id}.md`
    pub fn handoff_file(&self, session_id: &str) -> (r: String)
        ensures
            r@ == path_join(self.handoffs_dir@, session_id@ + ".md"@),
    {
        let mut name = chars_of(session_id);
        append(&mut name, &chars_of(".md"));
        let n = string_of(name);
        join_path(self.handoffs_dir.as_str(), n.as_str())
    }

    /// `per-project/{slug}`
    pub fn project_notes_dir(&self, slug: &str) -> (r: String)
        ensures
            r@ == path_join(self.per_project_dir@, slug@),
    {
        join_path(self.per_project_dir.as_str(), slug)
    }
}

/// A relative, non-empty session id names a file inside the sessions directory.
pub proof fn law_state_file_in_sessions_dir(dir: Seq<char>, session_id: Seq<char>)
    requires
        dir.len() > 0,
    ensures
        path_join(dir, "state-"@ + session_id + ".json"@).take(dir.len() as int) == dir,
{
    reveal_strlit("state-");
    reveal_strlit("/");
    let name = "state-"@ + session_id + ".json"@;
    assert(name[0] == 's');
    lemma_starts_with_slash(name);
    let r = path_join(dir, name);
    assert(r.take(dir.len() as int) =~= dir);
}

/// The host's name for a project directory: its path with every `/` and
/// `_` turned into `-`.
pub open spec fn memory_slug(cwd: Seq<char>) -> Seq<char> {
    cwd.map_values(|c: char| if c == '/' || c == '_' { '-' } else { c })
}

/// Where the host keeps the auto-memory of the project at `cwd`:
/// `{config_dir}/projects/{slug}/memory`.
pub fn auto_memory_dir_for(config_dir: &str, cwd: &str) -> (r: String)
    ensures
        r@ == path_join(path_join(path_join(config_dir@, "projects"@), memory_slug(cwd@)), "memory"@),
{
    let c = chars_of(cwd);
    let mut slug: Vec<char> = Vec::new();
    let mut i: usize = 0;
    while i < c.len()
        invariant
            i <= c.len(),
            slug@ == memory_slug(c@.take(i as int)),
        decreases c.len() - i,
    {
        let ch = c[i];
        slug.push(if ch == '/' || ch == '_' { '-' } else { ch });
        assert(memory_slug(c@.take(i + 1)) =~= memory_slug(c@.take(i as int)).push(if ch == '/' || ch == '_' { '-' } else { ch }));
        i += 1;
    }
    assert(c@.take(c.len() as int) =~= c@);
    let s = string_of(slug);
    let projects = join_path(config_dir, "projects");
    let dir = join_path(projects.as_str(), s.as_str());
    join_path(dir.as_str(), "memory")
}

} // verus!
