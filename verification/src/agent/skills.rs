//! Skills: folders holding a `SKILL.md` (YAML front matter, then the body).
//! Their catalogue goes into the system prompt; a skill's whole text is loaded
//! on request.

use vstd::prelude::*;

use crate::paths::{path_eq, path_file_name, path_file_stem, spec_file_stem, path_parent, path_starts_with, spec_file_name, spec_path_eq,
    spec_path_parent, spec_path_starts_with, has_parent_segment, has_drive_prefix};
use crate::tasks::opt_view;
use crate::text::{all_ws, append, chars_of, find_chars, first_match, is_blank, join, join_strings, lemma_first_match, lemma_seq_lt_total, lemma_seq_lt_transitive, matches_at, owned, replace_chars, replace_chars_of, seq_contains, seq_ends_with, seq_lt, seq_starts_with, str_contains, str_ends_with, str_eq, str_lt, str_starts_with, string_of_range, strip_leading, strip_leading_of, strip_trailing, strip_trailing_of, trim, trim_str, views};

verus! {

/// What the `serde_yaml` crate finds under `key` in the mapping that `front`
/// parses to: `None` when the text does not parse to a mapping holding the
/// key, `Some(None)` when the value there is not a string.
pub uninterp spec fn spec_yaml_lookup(front: Seq<char>, key: Seq<char>) -> Option<Option<Seq<char>>>;

/// serde_yaml: parses `front` into a `Value` and looks `key` up in it.
#[verifier::external_body]
fn yaml_lookup(front: &str, key: &str) -> (r: Option<Option<String>>)
    ensures
        r matches Some(Some(v)) ==> spec_yaml_lookup(front@, key@) == Some(Some(v@)),
        r matches Some(None) ==> spec_yaml_lookup(front@, key@) == Some(None::<Seq<char>>),
        r is None ==> spec_yaml_lookup(front@, key@) is None,
{
    match serde_yaml::from_str::<serde_yaml::Value>(front) {
        Ok(v) => v.get(key).map(|x| x.as_str().map(|s| s.to_string())),
        Err(_) => None,
    }
}

/// What a skill says of itself.
#[derive(Debug, Clone)]
pub struct SkillMeta {
    pub name: String,
    pub description: String,
    pub when_to_use: Option<String>,
    /// The skill's folder.
    pub dir: String,
}

/// A skill: its description, body, and the path of its `SKILL.md`.
#[derive(Debug)]
pub struct SkillEntry {
    pub meta: SkillMeta,
    pub body: String,
    pub path: String,
}

/// The value of a skill's description.
pub struct MetaView {
    pub name: Seq<char>,
    pub description: Seq<char>,
    pub when_to_use: Option<Seq<char>>,
    pub dir: Seq<char>,
}

/// The value of a skill.
pub struct EntryView {
    pub meta: MetaView,
    pub body: Seq<char>,
    pub path: Seq<char>,
}

impl View for SkillMeta {
    type V = MetaView;

    open spec fn view(&self) -> MetaView {
        MetaView {
            name: self.name@,
            description: self.description@,
            when_to_use: opt_view(self.when_to_use),
            dir: self.dir@,
        }
    }
}

impl View for SkillEntry {
    type V = EntryView;

    open spec fn view(&self) -> EntryView {
        EntryView { meta: self.meta@, body: self.body@, path: self.path@ }
    }
}

impl SkillMeta {
    /// A copy.
    pub fn duplicate(&self) -> (r: SkillMeta)
        ensures
            r@ == self@,
    {
        SkillMeta {
            name: self.name.clone(),
            description: self.description.clone(),
            when_to_use: match &self.when_to_use {
                Some(w) => Some(w.clone()),
                None => None,
            },
            dir: self.dir.clone(),
        }
    }
}

// ---------------------------------------------------------------------------
// SKILL.md
// ---------------------------------------------------------------------------

/// A name that could leave the skills folder: it holds `/`, `\` or `..`.
pub open spec fn unsafe_name(n: Seq<char>) -> bool {
    seq_contains(n, "/"@) || seq_contains(n, "\\"@) || seq_contains(n, ".."@)
}

fn is_unsafe_name(n: &str) -> (r: bool)
    ensures
        r == unsafe_name(n@),
{
    str_contains(n, "/") || str_contains(n, "\\") || str_contains(n, "..")
}

/// The front matter and the body of a `SKILL.md`: after any leading
/// byte-order marks, a `---` line opens the front matter and the next line
/// starting with `---` closes it; the front matter is trimmed, the body loses
/// its leading line breaks. Without front matter the body is the whole text.
pub open spec fn frontmatter(raw: Seq<char>) -> (Option<Seq<char>>, Seq<char>) {
    let t = strip_leading(raw, seq!['\u{feff}']);
    let rest = t.skip(3);
    if seq_starts_with(t, "---"@) && seq_contains(rest, "\n---"@) {
        let end = first_match(rest, "\n---"@);
        (Some(trim(rest.take(end))), strip_leading(rest.skip(end + 4), seq!['\r', '\n']))
    } else {
        (None, raw)
    }
}

/// Splits a `SKILL.md` into its front matter and body.
pub fn split_frontmatter(raw: &str) -> (r: (Option<String>, String))
    ensures
        opt_view(r.0) == frontmatter(raw@).0,
        r.1@ == frontmatter(raw@).1,
{
    let bom: Vec<char> = vec!['\u{feff}'];
    let trimmed = strip_leading_of(raw, &bom);
    proof {
        reveal_strlit("---");
        reveal_strlit("\n---");
        assert(bom@ =~= seq!['\u{feff}']);
    }
    if str_starts_with(trimmed.as_str(), "---") {
        let v = chars_of(trimmed.as_str());
        let rest_s = string_of_range(&v, 3, v.len());
        let rest = chars_of(rest_s.as_str());
        assert(rest@ =~= trimmed@.skip(3));
        let pat = chars_of("\n---");
        match find_chars(&rest, &pat) {
            Some(end) => {
                proof {
                    lemma_first_match(rest@, pat@, end as int);
                }
                let front_raw = string_of_range(&rest, 0, end);
                let front = trim_str(front_raw.as_str());
                let after = string_of_range(&rest, end + 4, rest.len());
                let crlf: Vec<char> = vec!['\r', '\n'];
                assert(crlf@ =~= seq!['\r', '\n']);
                let body = strip_leading_of(after.as_str(), &crlf);
                assert(front_raw@ =~= rest@.take(end as int));
                assert(after@ =~= rest@.skip(end + 4));
                return (Some(front), body);
            },
            None => {},
        }
    }
    (None, owned(raw))
}

/// The body of a `SKILL.md` (front matter removed).
pub fn frontmatter_body(raw: &str) -> (r: String)
    ensures
        r@ == frontmatter(raw@).1,
{
    let (_, body) = split_frontmatter(raw);
    body
}

/// A text field of the front matter, if it holds one.
pub open spec fn yaml_text(front: Option<Seq<char>>, key: Seq<char>) -> Option<Seq<char>> {
    match front {
        Some(f) => match spec_yaml_lookup(f, key) {
            Some(Some(v)) => Some(v),
            _ => None,
        },
        None => None,
    }
}

/// When to use the skill: the `when_to_use` field, or, when that key is
/// absent, the `when-to-use` field.
pub open spec fn when_field(front: Option<Seq<char>>) -> Option<Seq<char>> {
    match front {
        Some(f) => match spec_yaml_lookup(f, "when_to_use"@) {
            Some(v) => v,
            None => yaml_text(front, "when-to-use"@),
        },
        None => None,
    }
}

/// The skill that a `SKILL.md` read from `path` in folder `dir` describes:
/// its name is the front matter's `name` or else the folder's name, and a
/// name that could leave the skills folder (or a folder without a name)
/// gives none.
pub open spec fn parsed_skill(raw: Seq<char>, path: Seq<char>, dir: Seq<char>) -> Option<EntryView> {
    let (front, body) = frontmatter(raw);
    match spec_file_name(dir) {
        None => None,
        Some(folder) => {
            let name = match yaml_text(front, "name"@) {
                Some(n) => n,
                None => folder,
            };
            if unsafe_name(name) {
                None
            } else {
                Some(
                    EntryView {
                        meta: MetaView {
                            name,
                            description: match yaml_text(front, "description"@) {
                                Some(d) => d,
                                None => Seq::empty(),
                            },
                            when_to_use: when_field(front),
                            dir,
                        },
                        body,
                        path,
                    },
                )
            }
        },
    }
}

fn yaml_text_of(front: &Option<String>, key: &str) -> (r: Option<String>)
    ensures
        opt_view(r) == yaml_text(opt_view(*front), key@),
{
    match front {
        Some(f) => match yaml_lookup(f.as_str(), key) {
            Some(Some(v)) => Some(v),
            _ => None,
        },
        None => None,
    }
}

/// The skill described by the text `raw` of the `SKILL.md` at `path`, in
/// folder `dir`.
pub fn parse_skill(raw: &str, path: &str, dir: &str) -> (r: Option<SkillEntry>)
    ensures
        match parsed_skill(raw@, path@, dir@) {
            Some(e) => r matches Some(x) && x@ == e,
            None => r is None,
        },
{
    let (front, body) = split_frontmatter(raw);
    let folder = match path_file_name(dir) {
        Some(f) => f,
        None => return None,
    };
    let name = match yaml_text_of(&front, "name") {
        Some(n) => n,
        None => folder,
    };
    let description = match yaml_text_of(&front, "description") {
        Some(d) => d,
        None => String::new(),
    };
    let when_to_use = match &front {
        Some(f) => match yaml_lookup(f.as_str(), "when_to_use") {
            Some(v) => v,
            None => yaml_text_of(&front, "when-to-use"),
        },
        None => None,
    };
    if is_unsafe_name(name.as_str()) {
        return None;
    }
    Some(
        SkillEntry {
            meta: SkillMeta { name, description, when_to_use, dir: owned(dir) },
            body,
            path: owned(path),
        },
    )
}

// ---------------------------------------------------------------------------
// The registry
// ---------------------------------------------------------------------------

/// The values of a list of skills.
pub open spec fn entries_view(v: Seq<SkillEntry>) -> Seq<EntryView> {
    v.map_values(|e: SkillEntry| e@)
}

/// The names strictly increase along the list.
pub open spec fn sorted_names(s: Seq<EntryView>) -> bool {
    forall|a: int, b: int| 0 <= a < b < s.len() ==> seq_lt(s[a].meta.name, s[b].meta.name)
}

/// The skills of a list by name.
pub open spec fn by_name(s: Seq<EntryView>) -> Map<Seq<char>, EntryView> {
    Map::new(
        |n: Seq<char>| exists|i: int| 0 <= i < s.len() && (#[trigger] s[i]).meta.name == n,
        |n: Seq<char>| s[choose|i: int| 0 <= i < s.len() && (#[trigger] s[i]).meta.name == n],
    )
}

/// No name of the list could leave the skills folder.
pub open spec fn safe_names(s: Seq<EntryView>) -> bool {
    forall|i: int| 0 <= i < s.len() ==> !unsafe_name(#[trigger] s[i].meta.name)
}

/// The skills found by a scan, by name: a later skill of the same name
/// replaces an earlier one, and one whose name could leave the skills folder
/// is left out.
pub open spec fn found_by_name(found: Seq<EntryView>) -> Map<Seq<char>, EntryView>
    decreases found.len(),
{
    if found.len() == 0 {
        Map::empty()
    } else if unsafe_name(found.last().meta.name) {
        found_by_name(found.drop_last())
    } else {
        found_by_name(found.drop_last()).insert(found.last().meta.name, found.last())
    }
}

/// A catalogue line: `- name: description`, and ` (适用: …)` when there is
/// a non-empty hint on when to use it.
pub open spec fn catalog_line(e: EntryView) -> Seq<char> {
    "- "@ + e.meta.name + ": "@ + e.meta.description + match e.meta.when_to_use {
        Some(w) => if w.len() > 0 {
            " (适用: "@ + w + ")"@
        } else {
            Seq::empty()
        },
        None => Seq::empty(),
    }
}

/// The text given when skill `e` is loaded.
pub open spec fn loaded_text(e: EntryView) -> Seq<char> {
    "# 技能: "@ + e.meta.name + "\n"@ + e.body + "\n\n(技能目录: "@ + match spec_path_parent(e.path) {
        Some(p) => p,
        None => Seq::empty(),
    } + ")"@
}

/// The installed skills, in name order, and the folder they were read from.
pub struct SkillRegistry {
    skills: Vec<SkillEntry>,
    root: String,
}

impl SkillRegistry {
    /// The skills, in name order.
    pub closed spec fn entries(&self) -> Seq<EntryView> {
        entries_view(self.skills@)
    }

    /// The skills folder (empty before the first scan).
    pub closed spec fn root_dir(&self) -> Seq<char> {
        self.root@
    }

    /// Names strictly increase (so each occurs once), and none could leave
    /// the skills folder.
    pub open spec fn wf(&self) -> bool {
        sorted_names(self.entries()) && safe_names(self.entries())
    }

    /// No skills and no folder.
    pub fn new() -> (r: SkillRegistry)
        ensures
            r.wf(),
            r.entries().len() == 0,
            r.root_dir().len() == 0,
    {
        SkillRegistry { skills: Vec::new(), root: String::new() }
    }

    /// Where a skill named `name` is, or where it would go.
    fn locate(&self, name: &str) -> (r: (usize, bool))
        requires
            self.wf(),
        ensures
            r.0 <= self.entries().len(),
            r.1 ==> r.0 < self.entries().len() && self.entries()[r.0 as int].meta.name == name@,
            !r.1 ==> forall|k: int| 0 <= k < self.entries().len() ==> (#[trigger] self.entries()[k]).meta.name != name@,
            forall|a: int| 0 <= a < r.0 ==> seq_lt(#[trigger] self.entries()[a].meta.name, name@),
            !r.1 ==> forall|b: int|
                r.0 <= b < self.entries().len() ==> seq_lt(name@, #[trigger] self.entries()[b].meta.name),
    {
        let mut i: usize = 0;
        while i < self.skills.len()
            invariant
                i <= self.skills@.len(),
                self.wf(),
                forall|a: int| 0 <= a < i ==> seq_lt(#[trigger] self.entries()[a].meta.name, name@),
            decreases self.skills@.len() - i,
        {
            let e = &self.skills[i];
            if str_eq(e.meta.name.as_str(), name) {
                return (i, true);
            }
            if !str_lt(e.meta.name.as_str(), name) {
                proof {
                    let s = self.entries();
                    lemma_seq_lt_total(e.meta.name@, name@);
                    assert forall|b: int| i <= b < s.len() implies seq_lt(name@, #[trigger] s[b].meta.name) by {
                        if b > i {
                            lemma_seq_lt_transitive(name@, s[i as int].meta.name, s[b].meta.name);
                        }
                    }
                    assert forall|k: int| 0 <= k < s.len() implies (#[trigger] s[k]).meta.name != name@ by {
                        if k >= i {
                            lemma_seq_lt_total(name@, s[k].meta.name);
                        } else {
                            lemma_seq_lt_total(s[k].meta.name, name@);
                        }
                    }
                }
                return (i, false);
            }
            i += 1;
        }
        proof {
            let s = self.entries();
            assert forall|k: int| 0 <= k < s.len() implies (#[trigger] s[k]).meta.name != name@ by {
                lemma_seq_lt_total(s[k].meta.name, name@);
            }
        }
        (i, false)
    }

    /// Installs a skill under its name (one of the same name is replaced).
    fn put(&mut self, e: SkillEntry)
        requires
            old(self).wf(),
            !unsafe_name(e@.meta.name),
        ensures
            final(self).wf(),
            by_name(final(self).entries()) == by_name(old(self).entries()).insert(e@.meta.name, e@),
            final(self).root_dir() == old(self).root_dir(),
    {
        let ghost ev = e@;
        let ghost o = self.entries();
        let (i, found) = self.locate(e.meta.name.as_str());
        if found {
            self.skills.set(i, e);
            assert(self.entries() =~= o.update(i as int, ev));
            assert forall|k: int| 0 <= k < self.entries().len() implies !unsafe_name(
                #[trigger] self.entries()[k].meta.name,
            ) by {
                if k != i {
                    assert(self.entries()[k] == o[k]);
                }
            }
        } else {
            self.skills.insert(i, e);
            assert(self.entries() =~= o.insert(i as int, ev));
            assert forall|k: int| 0 <= k < self.entries().len() implies !unsafe_name(
                #[trigger] self.entries()[k].meta.name,
            ) by {
                if k < i {
                    assert(self.entries()[k] == o[k]);
                } else if k > i {
                    assert(self.entries()[k] == o[k - 1]);
                }
            }
            proof {
                let b = self.entries();
                assert forall|x: int, y: int| 0 <= x < y < b.len() implies seq_lt(b[x].meta.name, b[y].meta.name) by {
                    if y < i {
                        assert(b[x] == o[x] && b[y] == o[y]);
                    } else if y == i {
                        assert(b[x] == o[x]);
                    } else if x == i {
                        assert(b[y] == o[y - 1]);
                    } else if x < i {
                        assert(b[x] == o[x] && b[y] == o[y - 1]);
                    } else {
                        assert(b[x] == o[x - 1] && b[y] == o[y - 1]);
                    }
                }
            }
        }
        proof {
            let b = self.entries();
            let m = by_name(o).insert(ev.meta.name, ev);
            assert forall|n: Seq<char>| #[trigger] by_name(b).dom().contains(n) <==> m.dom().contains(n) by {
                if by_name(b).dom().contains(n) {
                    let k = choose|k: int| 0 <= k < b.len() && (#[trigger] b[k]).meta.name == n;
                    if n != ev.meta.name {
                        if found {
                            assert(o[k] == b[k]);
                        } else if k < i {
                            assert(o[k] == b[k]);
                        } else {
                            assert(o[k - 1] == b[k]);
                        }
                    }
                }
                if m.dom().contains(n) && n != ev.meta.name {
                    let k = choose|k: int| 0 <= k < o.len() && (#[trigger] o[k]).meta.name == n;
                    if found || k < i {
                        assert(b[k] == o[k]);
                    } else {
                        assert(b[k + 1] == o[k]);
                    }
                }
                if n == ev.meta.name {
                    assert(b[i as int].meta.name == n);
                }
            }
            assert forall|n: Seq<char>| #[trigger] m.dom().contains(n) implies by_name(b)[n] == m[n] by {
                let kb = choose|k: int| 0 <= k < b.len() && (#[trigger] b[k]).meta.name == n;
                assert(b[i as int].meta.name == ev.meta.name);
                if kb != i {
                    if kb < i {
                        lemma_seq_lt_total(b[kb].meta.name, b[i as int].meta.name);
                    } else {
                        lemma_seq_lt_total(b[i as int].meta.name, b[kb].meta.name);
                    }
                }
                if n != ev.meta.name {
                    let ko = choose|k: int| 0 <= k < o.len() && (#[trigger] o[k]).meta.name == n;
                    let kk = if found || ko < i { ko } else { ko + 1 };
                    assert(b[kk] == o[ko]);
                    if kb != kk {
                        if kb < kk {
                            lemma_seq_lt_total(b[kb].meta.name, b[kk].meta.name);
                        } else {
                            lemma_seq_lt_total(b[kk].meta.name, b[kb].meta.name);
                        }
                    }
                }
            }
            assert(by_name(b) =~= m);
        }
    }

    /// Replaces the installed skills with those a scan of folder `root`
    /// found (in the order found; a later skill of a name replaces an
    /// earlier one; one whose name could leave the folder is left out).
    pub fn scan(&mut self, root: &str, found: Vec<SkillEntry>)
        ensures
            final(self).wf(),
            final(self).root_dir() == root@,
            by_name(final(self).entries()) == found_by_name(entries_view(found@)),
    {
        self.root = owned(root);
        self.skills = Vec::new();
        assert(by_name(self.entries()) =~= Map::empty());
        let ghost fv = entries_view(found@);
        let mut rest = found;
        let ghost n = fv.len();
        assert(entries_view(rest@).skip(0) =~= fv);
        while rest.len() > 0
            invariant
                self.wf(),
                self.root_dir() == root@,
                n == fv.len(),
                rest@.len() <= n,
                entries_view(rest@) == fv.skip(n - rest@.len()),
                by_name(self.entries()) == found_by_name(fv.take(n - rest@.len())),
            decreases rest@.len(),
        {
            let ghost k = n - rest@.len();
            let ghost before = rest@;
            let e = rest.remove(0);
            proof {
                assert(entries_view(before)[0] == fv.skip(k)[0]);
                assert(e@ == fv[k]);
                assert forall|j: int| 0 <= j < rest@.len() implies #[trigger] entries_view(rest@)[j] == fv.skip(k + 1)[j] by {
                    assert(rest@[j] == before[j + 1]);
                    assert(entries_view(before)[j + 1] == fv.skip(k)[j + 1]);
                }
                assert(entries_view(rest@) =~= fv.skip(k + 1));
                assert(fv.take(k + 1).drop_last() =~= fv.take(k));
            }
            if !is_unsafe_name(e.meta.name.as_str()) {
                self.put(e);
            }
        }
        assert(fv.take(n as int) =~= fv);
    }

    /// The catalogue for the system prompt: one line per skill, in name order.
    pub fn catalog(&self) -> (r: String)
        ensures
            r@ == join(self.entries().map_values(|e: EntryView| catalog_line(e)), "\n"@),
    {
        let mut lines: Vec<String> = Vec::new();
        let mut i: usize = 0;
        while i < self.skills.len()
            invariant
                i <= self.skills@.len(),
                views(lines@) == self.entries().take(i as int).map_values(|e: EntryView| catalog_line(e)),
            decreases self.skills@.len() - i,
        {
            let e = &self.skills[i];
            let mut line = owned("- ");
            append(&mut line, e.meta.name.as_str());
            append(&mut line, ": ");
            append(&mut line, e.meta.description.as_str());
            match &e.meta.when_to_use {
                Some(w) => {
                    if w.unicode_len() > 0 {
                        append(&mut line, " (适用: ");
                        append(&mut line, w.as_str());
                        append(&mut line, ")");
                    }
                },
                None => {},
            }
            assert(line@ == catalog_line(self.entries()[i as int]));
            let ghost prev = lines@;
            lines.push(line);
            assert(views(lines@) =~= views(prev).push(catalog_line(self.entries()[i as int])));
            assert(views(lines@) =~= self.entries().take(i + 1).map_values(|e: EntryView| catalog_line(e)));
            i += 1;
        }
        assert(self.entries().take(self.skills@.len() as int) =~= self.entries());
        join_strings(&lines, "\n")
    }

    /// The skills' descriptions, in name order.
    pub fn list(&self) -> (r: Vec<SkillMeta>)
        ensures
            r@.len() == self.entries().len(),
            forall|i: int| 0 <= i < r@.len() ==> (#[trigger] r@[i])@ == self.entries()[i].meta,
    {
        let mut out: Vec<SkillMeta> = Vec::new();
        let mut i: usize = 0;
        while i < self.skills.len()
            invariant
                i <= self.skills@.len(),
                out@.len() == i,
                forall|k: int| 0 <= k < i ==> (#[trigger] out@[k])@ == self.entries()[k].meta,
            decreases self.skills@.len() - i,
        {
            out.push(self.skills[i].meta.duplicate());
            i += 1;
        }
        out
    }

    /// The whole text of skill `name`, if it is installed.
    pub fn load(&self, name: &str) -> (r: Option<String>)
        requires
            self.wf(),
        ensures
            by_name(self.entries()).dom().contains(name@) ==> (r matches Some(t) && t@ == loaded_text(
                by_name(self.entries())[name@],
            )),
            !by_name(self.entries()).dom().contains(name@) ==> r is None,
    {
        let (i, found) = self.locate(name);
        if !found {
            return None;
        }
        proof {
            self.lemma_by_name(i as int);
        }
        let e = &self.skills[i];
        let mut out = owned("# 技能: ");
        append(&mut out, e.meta.name.as_str());
        append(&mut out, "\n");
        append(&mut out, e.body.as_str());
        append(&mut out, "\n\n(技能目录: ");
        match path_parent(e.path.as_str()) {
            Some(p) => append(&mut out, p.as_str()),
            None => {},
        }
        append(&mut out, ")");
        Some(out)
    }

    proof fn lemma_by_name(&self, i: int)
        requires
            self.wf(),
            0 <= i < self.entries().len(),
        ensures
            by_name(self.entries()).dom().contains(self.entries()[i].meta.name),
            by_name(self.entries())[self.entries()[i].meta.name] == self.entries()[i],
    {
        let s = self.entries();
        let n = s[i].meta.name;
        assert(s[i].meta.name == n);
        let c = choose|k: int| 0 <= k < s.len() && (#[trigger] s[k]).meta.name == n;
        if c != i {
            if c < i {
                lemma_seq_lt_total(s[c].meta.name, n);
            } else {
                lemma_seq_lt_total(n, s[c].meta.name);
            }
        }
    }

    /// The `SKILL.md` path of skill `name`, or "技能不存在".
    pub fn skill_file(&self, name: &str) -> (r: Result<String, String>)
        requires
            self.wf(),
        ensures
            by_name(self.entries()).dom().contains(name@) ==> (r matches Ok(p) && p@ == by_name(
                self.entries(),
            )[name@].path),
            !by_name(self.entries()).dom().contains(name@) ==> (r matches Err(m) && m@ == "技能不存在"@),
    {
        let (i, found) = self.locate(name);
        if !found {
            return Err(owned("技能不存在"));
        }
        proof {
            self.lemma_by_name(i as int);
        }
        Ok(self.skills[i].path.clone())
    }

    /// The skills folder.
    pub fn root(&self) -> (r: String)
        ensures
            r@ == self.root_dir(),
    {
        self.root.clone()
    }

    /// The skills folder, or "技能目录未初始化" before the first scan.
    pub fn require_root(&self) -> (r: Result<String, String>)
        ensures
            self.root_dir().len() > 0 ==> (r matches Ok(p) && p@ == self.root_dir()),
            self.root_dir().len() == 0 ==> (r matches Err(m) && m@ == "技能目录未初始化"@),
    {
        if self.root.unicode_len() == 0 {
            Err(owned("技能目录未初始化"))
        } else {
            Ok(self.root.clone())
        }
    }

    /// The folder to remove when deleting skill `name`: the folder of its
    /// `SKILL.md`, which must lie strictly inside the skills folder.
    pub fn skill_dir_to_delete(&self, name: &str) -> (r: Result<String, String>)
        requires
            self.wf(),
        ensures
            match by_name(self.entries()).get(name@) {
                None => r matches Err(m) && m@ == "技能不存在"@,
                Some(e) => match spec_path_parent(e.path) {
                    None => r matches Err(m) && m@ == "技能不存在"@,
                    Some(d) => if spec_path_starts_with(d, self.root_dir()) && !spec_path_eq(d, self.root_dir()) {
                        r matches Ok(x) && x@ == d
                    } else {
                        r matches Err(m) && m@ == "非法的技能路径"@
                    },
                },
            },
    {
        let (i, found) = self.locate(name);
        if !found {
            return Err(owned("技能不存在"));
        }
        proof {
            self.lemma_by_name(i as int);
        }
        let dir = match path_parent(self.skills[i].path.as_str()) {
            Some(d) => d,
            None => return Err(owned("技能不存在")),
        };
        if !path_starts_with(dir.as_str(), self.root.as_str()) || path_eq(dir.as_str(), self.root.as_str()) {
            return Err(owned("非法的技能路径"));
        }
        Ok(dir)
    }

    /// The folder name and `SKILL.md` text of a new skill; the name is
    /// trimmed and must be non-empty and stay inside the skills folder, which
    /// must be known.
    pub fn plan_skill(&self, name: &str, description: &str, when_to_use: &str, body: &str) -> (r: Result<(String, String), String>)
        ensures
            all_ws(name@) ==> (r matches Err(m) && m@ == "技能名称不能为空"@),
            !all_ws(name@) && unsafe_name(trim(name@)) ==> (r matches Err(m) && m@ == "技能名称不能包含路径分隔符"@),
            !all_ws(name@) && !unsafe_name(trim(name@)) && self.root_dir().len() == 0 ==> (r matches Err(m) && m@
                == "技能目录未初始化"@),
            !all_ws(name@) && !unsafe_name(trim(name@)) && self.root_dir().len() > 0 ==> (r matches Ok((n, c)) && n@
                == trim(name@) && c@ == skill_file_text(trim(name@), description@, when_to_use@, body@)),
    {
        if is_blank(name) {
            return Err(owned("技能名称不能为空"));
        }
        let n = trim_str(name);
        if is_unsafe_name(n.as_str()) {
            return Err(owned("技能名称不能包含路径分隔符"));
        }
        if self.root.unicode_len() == 0 {
            return Err(owned("技能目录未初始化"));
        }
        let mut c = owned("---\nname: ");
        append(&mut c, n.as_str());
        append(&mut c, "\ndescription: ");
        append(&mut c, description);
        append(&mut c, "\n");
        if !is_blank(when_to_use) {
            append(&mut c, "when_to_use: ");
            append(&mut c, when_to_use);
            append(&mut c, "\n");
        }
        append(&mut c, "---\n\n");
        append(&mut c, body);
        append(&mut c, "\n");
        Ok((n, c))
    }
}

/// The `SKILL.md` of a new skill.
pub open spec fn skill_file_text(name: Seq<char>, description: Seq<char>, when_to_use: Seq<char>, body: Seq<char>) -> Seq<char> {
    "---\nname: "@ + name + "\ndescription: "@ + description + "\n"@ + (if all_ws(when_to_use) {
        Seq::empty()
    } else {
        "when_to_use: "@ + when_to_use + "\n"@
    }) + "---\n\n"@ + body + "\n"@
}

// ---------------------------------------------------------------------------
// Importing a zip of a skill
// ---------------------------------------------------------------------------

/// An entry name of a zip with `\` written as `/`.
pub open spec fn zip_name(n: Seq<char>) -> Seq<char> {
    replace_chars(n, seq!['\\'], '/')
}

/// Where the `SKILL.md` of a zip is, as a prefix of entry names: `""` when
/// one is at the top, else the first folder `d/` directly holding one.
pub open spec fn skill_prefix(names: Seq<Seq<char>>, acc: Option<Seq<char>>) -> Option<Seq<char>>
    decreases names.len(),
{
    if names.len() == 0 {
        acc
    } else {
        let n = zip_name(names[0]);
        if n == "SKILL.md"@ {
            Some(Seq::empty())
        } else {
            let dir = n.take(n.len() - "/SKILL.md"@.len());
            let next = if seq_ends_with(n, "/SKILL.md"@) && !seq_contains(dir, "/"@) && acc is None {
                Some(dir + "/"@)
            } else {
                acc
            };
            skill_prefix(names.drop_first(), next)
        }
    }
}

/// The prefix, in the zip's entry names, of the folder holding `SKILL.md`.
pub fn locate_skill_prefix(names: &Vec<String>) -> (r: Option<String>)
    ensures
        opt_view(r) == skill_prefix(views(names@), None),
{
    let bs: Vec<char> = vec!['\\'];
    assert(bs@ =~= seq!['\\']);
    let mut acc: Option<String> = None;
    let mut i: usize = 0;
    assert(views(names@).skip(0) =~= views(names@));
    while i < names.len()
        invariant
            i <= names@.len(),
            bs@ == seq!['\\'],
            skill_prefix(views(names@), None) == skill_prefix(views(names@).skip(i as int), opt_view(acc)),
        decreases names@.len() - i,
    {
        let n = replace_chars_of(names[i].as_str(), &bs, '/');
        assert(views(names@).skip(i as int)[0] == names@[i as int]@);
        assert(views(names@).skip(i as int).drop_first() =~= views(names@).skip(i + 1));
        if str_eq(n.as_str(), "SKILL.md") {
            return Some(String::new());
        }
        if str_ends_with(n.as_str(), "/SKILL.md") && acc.is_none() {
            proof {
                reveal_strlit("/SKILL.md");
            }
            let v = chars_of(n.as_str());
            let dir = string_of_range(&v, 0, v.len() - 9);
            assert(dir@ =~= n@.take(n@.len() - "/SKILL.md"@.len()));
            if !str_contains(dir.as_str(), "/") {
                let mut d = dir;
                append(&mut d, "/");
                acc = Some(d);
            }
        }
        i += 1;
    }
    acc
}

/// The search for the folder of `SKILL.md` after one more entry name that is
/// not the top-level `SKILL.md`: the first folder `d/` seen directly holding
/// one is kept.
pub fn prefix_after(name: &str, acc: Option<String>) -> (r: Option<String>)
    requires
        zip_name(name@) != "SKILL.md"@,
    ensures
        opt_view(r) == skill_prefix(seq![name@], opt_view(acc)),
{
    let ghost one = seq![name@];
    assert(one.drop_first() =~= Seq::<Seq<char>>::empty());
    assert(one[0] == name@);
    let ghost zn = zip_name(name@);
    let ghost dir0 = zn.take(zn.len() - "/SKILL.md"@.len());
    let ghost next = if seq_ends_with(zn, "/SKILL.md"@) && !seq_contains(dir0, "/"@) && opt_view(acc) is None {
        Some(dir0 + "/"@)
    } else {
        opt_view(acc)
    };
    assert(skill_prefix(one, opt_view(acc)) == skill_prefix(one.drop_first(), next));
    assert(skill_prefix(one, opt_view(acc)) == next);
    let bs: Vec<char> = vec!['\\'];
    assert(bs@ =~= seq!['\\']);
    let n = replace_chars_of(name, &bs, '/');
    assert(n@ == zn);
    if str_ends_with(n.as_str(), "/SKILL.md") && acc.is_none() {
        proof {
            reveal_strlit("/SKILL.md");
        }
        let v = chars_of(n.as_str());
        let dir = string_of_range(&v, 0, v.len() - 9);
        assert(dir@ =~= n@.take(n@.len() - "/SKILL.md"@.len()));
        if !str_contains(dir.as_str(), "/") {
            let mut d = dir;
            append(&mut d, "/");
            return Some(d);
        }
    }
    acc
}

/// The name of an imported skill: the folder of the prefix, or, for a
/// `SKILL.md` at the top, the zip file's stem; trimmed.
pub open spec fn import_name_text(prefix: Seq<char>, zip_path: Seq<char>) -> Seq<char> {
    trim(
        if prefix.len() == 0 {
            match spec_file_stem(zip_path) {
                Some(s) => s,
                None => Seq::empty(),
            }
        } else {
            strip_trailing(prefix, seq!['/'])
        },
    )
}

/// The name under which the zip at `zip_path` is imported, or the refusal of
/// a name that is empty or could leave the skills folder.
pub fn import_name(prefix: &str, zip_path: &str) -> (r: Result<String, String>)
    ensures
        ({
            let n = import_name_text(prefix@, zip_path@);
            if n.len() == 0 || unsafe_name(n) {
                r matches Err(m) && m@ == "无法从 zip 包推断合法的技能名称"@
            } else {
                r matches Ok(x) && x@ == n
            }
        }),
{
    let raw = if prefix.unicode_len() == 0 {
        match path_file_stem(zip_path) {
            Some(s) => s,
            None => String::new(),
        }
    } else {
        let slash: Vec<char> = vec!['/'];
        assert(slash@ =~= seq!['/']);
        strip_trailing_of(prefix, &slash)
    };
    let name = trim_str(raw.as_str());
    if name.unicode_len() == 0 || is_unsafe_name(name.as_str()) {
        return Err(owned("无法从 zip 包推断合法的技能名称"));
    }
    Ok(name)
}

/// A relative path with an empty component (allowed only in a folder's own
/// entry, which ends with `/`).
pub open spec fn has_empty_segment(rel: Seq<char>) -> bool {
    seq_starts_with(rel, "/"@) || seq_ends_with(rel, "/"@) || seq_contains(rel, "//"@)
}


/// A relative path that stays inside the folder it is joined to: it has no
/// root (`/`), no drive prefix (a letter and `:` at its start) or other
/// prefix (`\\`), and no `..` component.
pub open spec fn safe_rel(rel: Seq<char>) -> bool {
    &&& !seq_starts_with(rel, "/"@)
    &&& !seq_contains(rel, "\\"@)
    &&& !has_drive_prefix(rel)
    &&& !has_parent_segment(rel)
}

/// Where a zip entry goes, relative to the new skill's folder: nothing for
/// entries outside the prefix and for the prefix itself; a refusal for a
/// path that could escape (a `..` component, an empty component other than a
/// folder entry's trailing one, a root, or a drive prefix such as `C:`).
pub open spec fn entry_target(prefix: Seq<char>, raw: Seq<char>) -> Result<Option<Seq<char>>, Seq<char>> {
    let n = zip_name(raw);
    if !seq_starts_with(n, prefix) {
        Ok(None)
    } else {
        let rel = n.skip(prefix.len() as int);
        if rel.len() == 0 {
            Ok(None)
        } else if (has_empty_segment(rel) && !seq_ends_with(n, "/"@)) || has_parent_segment(rel)
            || seq_starts_with(rel, "/"@) || has_drive_prefix(rel) {
            Err("zip 包内存在非法路径: "@ + n)
        } else {
            Ok(Some(rel))
        }
    }
}

/// A name with `\` written as `/` holds no `\`, nor does any of its tails.
proof fn lemma_no_backslash(raw: Seq<char>, k: int)
    requires
        0 <= k <= raw.len(),
    ensures
        !seq_contains(zip_name(raw).skip(k), "\\"@),
{
    reveal_strlit("\\");
    let n = zip_name(raw);
    if seq_contains(n.skip(k), "\\"@) {
        let i = choose|i: int| #[trigger] matches_at(n.skip(k), "\\"@, i);
        assert(n.skip(k).subrange(i, i + 1)[0] == '\\');
        let s = seq!['\\'];
        assert(s[0] == '\\');
        assert(s.contains(raw[k + i]) ==> n[k + i] == '/');
        assert(!s.contains(raw[k + i]) ==> n[k + i] == raw[k + i] && raw[k + i] == '\\');
    }
}

/// Every target an entry is given is safe to join to the skill's folder.
pub proof fn lemma_entry_target_safe(prefix: Seq<char>, raw: Seq<char>)
    ensures
        entry_target(prefix, raw) matches Ok(Some(rel)) ==> safe_rel(rel),
{
    let n = zip_name(raw);
    if seq_starts_with(n, prefix) {
        lemma_no_backslash(raw, prefix.len() as int);
    }
}

/// Whether a path begins with a drive letter and `:`.
fn drive_prefixed(r: &str) -> (b: bool)
    ensures
        b == has_drive_prefix(r@),
{
    let v = chars_of(r);
    v.len() >= 2 && (('a' <= v[0] && v[0] <= 'z') || ('A' <= v[0] && v[0] <= 'Z')) && v[1] == ':'
}

/// Where the zip entry `raw` goes under the new skill's folder.
pub fn import_entry_target(prefix: &str, raw: &str) -> (r: Result<Option<String>, String>)
    ensures
        match entry_target(prefix@, raw@) {
            Ok(None) => r matches Ok(None),
            Ok(Some(rel)) => r matches Ok(Some(x)) && x@ == rel && safe_rel(rel),
            Err(m) => r matches Err(x) && x@ == m,
        },
{
    proof {
        lemma_entry_target_safe(prefix@, raw@);
    }
    let bs: Vec<char> = vec!['\\'];
    assert(bs@ =~= seq!['\\']);
    let n = replace_chars_of(raw, &bs, '/');
    if !str_starts_with(n.as_str(), prefix) {
        return Ok(None);
    }
    let v = chars_of(n.as_str());
    let plen = prefix.unicode_len();
    let rel = string_of_range(&v, plen, v.len());
    assert(rel@ =~= n@.skip(prefix@.len() as int));
    if rel.unicode_len() == 0 {
        return Ok(None);
    }
    let r = rel.as_str();
    let empty_seg = str_starts_with(r, "/") || str_ends_with(r, "/") || str_contains(r, "//");
    let parent_seg = str_eq(r, "..") || str_starts_with(r, "../") || str_ends_with(r, "/..") || str_contains(r, "/../");
    let rooted = str_starts_with(r, "/") || drive_prefixed(r);
    if (empty_seg && !str_ends_with(n.as_str(), "/")) || parent_seg || rooted {
        let mut m = owned("zip 包内存在非法路径: ");
        append(&mut m, n.as_str());
        return Err(m);
    }
    Ok(Some(rel))
}

/// A scan that finds skills installs exactly them: every skill found whose
/// name stays inside the folder can be loaded by its name afterwards (the
/// last one found of each name).
pub proof fn law_scan_then_find(found: Seq<EntryView>, k: int)
    requires
        0 <= k < found.len(),
        !unsafe_name(found[k].meta.name),
        forall|j: int| k < j < found.len() ==> found[j].meta.name != found[k].meta.name,
    ensures
        found_by_name(found).dom().contains(found[k].meta.name),
        found_by_name(found)[found[k].meta.name] == found[k],
    decreases found.len(),
{
    if k < found.len() - 1 {
        law_scan_then_find(found.drop_last(), k);
    }
}

/// The skills that `list` gives, whatever was scanned, have strictly
/// increasing names (so each occurs once), none of which could leave the
/// skills folder. (`new` and `scan` keep `wf`, and nothing else changes the
/// installed skills.)
pub proof fn law_listed_names(r: SkillRegistry, listed: Seq<MetaView>)
    requires
        r.wf(),
        listed.len() == r.entries().len(),
        forall|i: int| 0 <= i < listed.len() ==> #[trigger] listed[i] == r.entries()[i].meta,
    ensures
        forall|a: int, b: int| 0 <= a < b < listed.len() ==> seq_lt(listed[a].name, listed[b].name),
        forall|i: int| 0 <= i < listed.len() ==> !unsafe_name(#[trigger] listed[i].name),
{
    assert forall|a: int, b: int| 0 <= a < b < listed.len() implies seq_lt(listed[a].name, listed[b].name) by {
        assert(listed[a] == r.entries()[a].meta);
        assert(listed[b] == r.entries()[b].meta);
    }
    assert forall|i: int| 0 <= i < listed.len() implies !unsafe_name(#[trigger] listed[i].name) by {
        assert(listed[i] == r.entries()[i].meta);
    }
}

} // verus!
