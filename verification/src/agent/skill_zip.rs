//! Importing a skill from a zip archive: the archive is decoded here, and
//! what is written, under which folder, is decided here; the shell only
//! writes the files of the plan.

use vstd::prelude::*;

use crate::agent::skills::{
    entry_target, import_entry_target, import_name, import_name_text, lemma_entry_target_safe, prefix_after,
    skill_prefix, unsafe_name, zip_name,
};
use crate::paths::{path_exists, path_join, spec_path_join, spec_path_starts_with};
use crate::tasks::opt_view;
use crate::text::{append, owned, str_eq};

verus! {

/// One entry of an archive as the `zip` crate gives it: its name, whether it
/// is a folder, and its contents or the error of reading them; or the error
/// of opening the entry.
pub type ZipItem = Result<(String, bool, Result<Vec<u8>, String>), String>;

/// The value of an archive entry.
pub type ZipItemView = Result<(Seq<char>, bool, Result<Seq<u8>, Seq<char>>), Seq<char>>;

/// The value of an archive entry.
pub open spec fn zip_item_view(e: ZipItem) -> ZipItemView {
    match e {
        Err(m) => Err(m@),
        Ok((n, d, c)) => Ok(
            (
                n@,
                d,
                match c {
                    Ok(b) => Ok(b@),
                    Err(m) => Err(m@),
                },
            ),
        ),
    }
}

/// The values of the entries of an archive.
pub open spec fn zip_items_view(v: Seq<ZipItem>) -> Seq<ZipItemView> {
    v.map_values(|e: ZipItem| zip_item_view(e))
}

/// The value of a planned write: (path, whether it is a folder, contents).
pub open spec fn write_view(w: (String, bool, Vec<u8>)) -> (Seq<char>, bool, Seq<u8>) {
    (w.0@, w.1, w.2@)
}

/// The values of planned writes.
pub open spec fn writes_view(v: Seq<(String, bool, Vec<u8>)>) -> Seq<(Seq<char>, bool, Seq<u8>)> {
    v.map_values(|w: (String, bool, Vec<u8>)| write_view(w))
}

/// What the `zip` crate reads from an archive: its entries in order, or the
/// error of opening the archive.
pub uninterp spec fn spec_zip_items(bytes: Seq<u8>) -> Result<Seq<ZipItemView>, Seq<char>>;

/// zip `ZipArchive::new` over the bytes, then for each index `by_index`,
/// `name`, `is_dir` and `Read::read_to_end`; each error is kept as its text.
/// The outcome depends on the bytes alone.
#[verifier::external_body]
fn zip_items(bytes: &Vec<u8>) -> (r: Result<Vec<ZipItem>, String>)
    ensures
        match r {
            Ok(v) => spec_zip_items(bytes@) == Ok::<Seq<ZipItemView>, Seq<char>>(zip_items_view(v@)),
            Err(e) => spec_zip_items(bytes@) == Err::<Seq<ZipItemView>, Seq<char>>(e@),
        },
{
    let mut archive = zip::ZipArchive::new(std::io::Cursor::new(bytes.as_slice())).map_err(|e| e.to_string())?;
    let mut out = Vec::new();
    for i in 0..archive.len() {
        out.push(match archive.by_index(i) {
            Err(e) => Err(e.to_string()),
            Ok(mut f) => {
                let mut data = Vec::new();
                let read = std::io::Read::read_to_end(&mut f, &mut data).map(|_| data).map_err(|e| e.to_string());
                Ok((f.name().to_string(), f.is_dir(), read))
            },
        });
    }
    Ok(out)
}

/// The search, in archive order, for the folder holding `SKILL.md`: an
/// entry that cannot be opened before the top-level `SKILL.md` is reached
/// refuses the import.
pub open spec fn prefix_scan(items: Seq<ZipItemView>, acc: Option<Seq<char>>) -> Result<Option<Seq<char>>, Seq<char>>
    decreases items.len(),
{
    if items.len() == 0 {
        Ok(acc)
    } else {
        match items[0] {
            Err(e) => Err(e),
            Ok((name, _d, _c)) => if zip_name(name) == "SKILL.md"@ {
                Ok(Some(Seq::empty()))
            } else {
                prefix_scan(items.drop_first(), skill_prefix(seq![name], acc))
            },
        }
    }
}

/// The refusal of an archive without a `SKILL.md` where one is looked for.
pub open spec fn no_skill_md_text() -> Seq<char> {
    "zip 包中未找到 SKILL.md (需位于根目录或单层文件夹内)"@
}

/// The prefix of the skill's entries and the skill's name, or the refusal.
pub open spec fn import_target(zip_path: Seq<char>, items: Seq<ZipItemView>) -> Result<(Seq<char>, Seq<char>), Seq<char>> {
    match prefix_scan(items, None) {
        Err(e) => Err(e),
        Ok(None) => Err(no_skill_md_text()),
        Ok(Some(prefix)) => {
            let name = import_name_text(prefix, zip_path);
            if name.len() == 0 || unsafe_name(name) {
                Err("无法从 zip 包推断合法的技能名称"@)
            } else {
                Ok((prefix, name))
            }
        },
    }
}

/// The writes of an import, in archive order: an entry that cannot be
/// opened, or has an illegal path, refuses the whole import; each entry under
/// the prefix goes to its target joined to `dest`, a folder as a folder, a
/// file with its contents (a file that cannot be read refuses the import).
pub open spec fn import_writes(prefix: Seq<char>, dest: Seq<char>, es: Seq<ZipItemView>) -> Result<
    Seq<(Seq<char>, bool, Seq<u8>)>,
    Seq<char>,
>
    decreases es.len(),
{
    if es.len() == 0 {
        Ok(Seq::empty())
    } else {
        match import_writes(prefix, dest, es.drop_last()) {
            Err(m) => Err(m),
            Ok(w) => match es.last() {
                Err(e) => Err(e),
                Ok((name, is_dir, data)) => match entry_target(prefix, name) {
                    Err(m) => Err(m),
                    Ok(None) => Ok(w),
                    Ok(Some(rel)) => if is_dir {
                        Ok(w.push((spec_path_join(dest, rel), true, Seq::empty())))
                    } else {
                        match data {
                            Err(e) => Err(e),
                            Ok(b) => Ok(w.push((spec_path_join(dest, rel), false, b))),
                        }
                    },
                },
            },
        }
    }
}

/// The outcome of importing an archive into the skills folder `root`: the
/// skill's name, its folder `root/name` and the writes, or the refusal, in
/// the order the checks are made. `exists` says whether `root/name` is
/// already on disk.
pub open spec fn import_outcome(
    root: Seq<char>,
    zip_path: Seq<char>,
    decoded: Result<Seq<ZipItemView>, Seq<char>>,
    exists: bool,
) -> Result<(Seq<char>, Seq<char>, Seq<(Seq<char>, bool, Seq<u8>)>), Seq<char>> {
    if root.len() == 0 {
        Err("技能目录未初始化"@)
    } else {
        match decoded {
            Err(e) => Err("无法读取 zip 包: "@ + e),
            Ok(items) => match import_target(zip_path, items) {
                Err(m) => Err(m),
                Ok((prefix, name)) => if exists {
                    Err("已存在同名技能「"@ + name + "」，请先删除后重试"@)
                } else {
                    let dest = spec_path_join(root, name);
                    match import_writes(prefix, dest, items) {
                        Err(m) => Err(m),
                        Ok(w) => Ok((name, dest, w)),
                    }
                },
            },
        }
    }
}

/// The value of a decoded archive.
pub open spec fn decoded_view(d: Result<Vec<ZipItem>, String>) -> Result<Seq<ZipItemView>, Seq<char>> {
    match d {
        Ok(v) => Ok(zip_items_view(v@)),
        Err(e) => Err(e@),
    }
}

/// The value of an import plan.
pub open spec fn plan_view(r: Result<(String, String, Vec<(String, bool, Vec<u8>)>), String>) -> Result<
    (Seq<char>, Seq<char>, Seq<(Seq<char>, bool, Seq<u8>)>),
    Seq<char>,
> {
    match r {
        Ok((n, d, w)) => Ok((n@, d@, writes_view(w@))),
        Err(m) => Err(m@),
    }
}

/// Every write of a plan lies under its folder.
pub open spec fn writes_under(r: Result<(Seq<char>, Seq<char>, Seq<(Seq<char>, bool, Seq<u8>)>), Seq<char>>) -> bool {
    r matches Ok((n, d, w)) ==> forall|i: int| 0 <= i < w.len() ==> spec_path_starts_with(#[trigger] w[i].0, d)
}

/// The folder holding `SKILL.md`, searched in archive order.
fn scan_prefix(items: &Vec<ZipItem>) -> (r: Result<Option<String>, String>)
    ensures
        match prefix_scan(zip_items_view(items@), None) {
            Ok(p) => r matches Ok(x) && opt_view(x) == p,
            Err(e) => r matches Err(x) && x@ == e,
        },
{
    let ghost all = zip_items_view(items@);
    let mut acc: Option<String> = None;
    let mut i: usize = 0;
    assert(all.skip(0) =~= all);
    while i < items.len()
        invariant
            i <= items@.len(),
            all == zip_items_view(items@),
            prefix_scan(all, None) == prefix_scan(all.skip(i as int), opt_view(acc)),
        decreases items@.len() - i,
    {
        assert(all.skip(i as int)[0] == zip_item_view(items@[i as int]));
        assert(all.skip(i as int).drop_first() =~= all.skip(i + 1));
        match &items[i] {
            Err(e) => return Err(e.clone()),
            Ok((name, _d, _c)) => {
                let bs: Vec<char> = vec!['\\'];
                assert(bs@ =~= seq!['\\']);
                let n = crate::text::replace_chars_of(name.as_str(), &bs, '/');
                if str_eq(n.as_str(), "SKILL.md") {
                    return Ok(Some(String::new()));
                }
                acc = prefix_after(name.as_str(), acc);
            },
        }
        i += 1;
    }
    assert(all.skip(i as int) =~= Seq::<ZipItemView>::empty());
    Ok(acc)
}

/// The prefix of the skill's entries and the skill's name, or the refusal.
fn target_of(zip_path: &str, items: &Vec<ZipItem>) -> (r: Result<(String, String), String>)
    ensures
        match import_target(zip_path@, zip_items_view(items@)) {
            Ok((p, n)) => r matches Ok((x, y)) && x@ == p && y@ == n,
            Err(m) => r matches Err(x) && x@ == m,
        },
{
    let prefix = match scan_prefix(items) {
        Err(e) => return Err(e),
        Ok(None) => return Err(owned("zip 包中未找到 SKILL.md (需位于根目录或单层文件夹内)")),
        Ok(Some(p)) => p,
    };
    match import_name(prefix.as_str(), zip_path) {
        Err(m) => Err(m),
        Ok(n) => Ok((prefix, n)),
    }
}

/// The writes of the entries under `prefix`, into `dest`; each lies under
/// `dest`.
fn entry_writes(prefix: &str, dest: &str, es: &Vec<ZipItem>) -> (r: Result<Vec<(String, bool, Vec<u8>)>, String>)
    ensures
        match import_writes(prefix@, dest@, zip_items_view(es@)) {
            Ok(w) => r matches Ok(x) && writes_view(x@) == w,
            Err(m) => r matches Err(x) && x@ == m,
        },
        r matches Ok(x) ==> forall|i: int| 0 <= i < x@.len() ==> spec_path_starts_with(#[trigger] x@[i].0@, dest@),
{
    let mut out: Vec<(String, bool, Vec<u8>)> = Vec::new();
    let mut i: usize = 0;
    assert(zip_items_view(es@).take(0) =~= Seq::<ZipItemView>::empty());
    assert(writes_view(out@) =~= Seq::<(Seq<char>, bool, Seq<u8>)>::empty());
    while i < es.len()
        invariant
            i <= es@.len(),
            import_writes(prefix@, dest@, zip_items_view(es@).take(i as int)) == Ok::<
                Seq<(Seq<char>, bool, Seq<u8>)>,
                Seq<char>,
            >(writes_view(out@)),
            forall|j: int| 0 <= j < out@.len() ==> spec_path_starts_with(#[trigger] out@[j].0@, dest@),
        decreases es@.len() - i,
    {
        let ghost before = zip_items_view(es@).take(i as int);
        let ghost upto = zip_items_view(es@).take(i + 1);
        assert(upto.drop_last() =~= before);
        assert(upto.last() == zip_item_view(es@[i as int]));
        match &es[i] {
            Err(e) => {
                proof {
                    lemma_writes_stay_failed(prefix@, dest@, zip_items_view(es@), i as int + 1);
                }
                return Err(e.clone());
            },
            Ok((name, is_dir, data)) => {
                proof {
                    lemma_entry_target_safe(prefix@, name@);
                }
                match import_entry_target(prefix, name.as_str()) {
                    Err(m) => {
                        proof {
                            lemma_writes_stay_failed(prefix@, dest@, zip_items_view(es@), i as int + 1);
                        }
                        return Err(m);
                    },
                    Ok(None) => {},
                    Ok(Some(rel)) => {
                        let p = path_join(dest, rel.as_str());
                        let ghost prev = out@;
                        if *is_dir {
                            out.push((p, true, Vec::new()));
                            assert(writes_view(out@) =~= writes_view(prev).push(
                                (spec_path_join(dest@, rel@), true, Seq::<u8>::empty()),
                            ));
                        } else {
                            match data {
                                Err(e) => {
                                    proof {
                                        lemma_writes_stay_failed(prefix@, dest@, zip_items_view(es@), i as int + 1);
                                    }
                                    return Err(e.clone());
                                },
                                Ok(b) => {
                                    let copy = b.clone();
                                    assert(copy@ =~= b@);
                                    out.push((p, false, copy));
                                    assert(writes_view(out@) =~= writes_view(prev).push(
                                        (spec_path_join(dest@, rel@), false, b@),
                                    ));
                                },
                            }
                        }
                    },
                }
            },
        }
        i += 1;
    }
    assert(zip_items_view(es@).take(es@.len() as int) =~= zip_items_view(es@));
    Ok(out)
}

/// Once the writes of a prefix of the entries are refused, so are those of
/// every longer prefix, with the same refusal.
proof fn lemma_writes_stay_failed(prefix: Seq<char>, dest: Seq<char>, es: Seq<ZipItemView>, k: int)
    requires
        0 <= k <= es.len(),
        import_writes(prefix, dest, es.take(k)) is Err,
    ensures
        import_writes(prefix, dest, es) == import_writes(prefix, dest, es.take(k)),
    decreases es.len() - k,
{
    if k < es.len() {
        assert(es.take(k + 1).drop_last() =~= es.take(k));
        lemma_writes_stay_failed(prefix, dest, es, k + 1);
    } else {
        assert(es.take(k) =~= es);
    }
}

/// The import of a decoded archive into the skills folder `root`, given
/// whether `root/name` already exists: the skill's name, its folder and the
/// files and folders to write, each under that folder, or the refusal.
pub fn plan_import(root: &str, zip_path: &str, decoded: Result<Vec<ZipItem>, String>, exists: bool) -> (r: Result<
    (String, String, Vec<(String, bool, Vec<u8>)>),
    String,
>)
    ensures
        plan_view(r) == import_outcome(root@, zip_path@, decoded_view(decoded), exists),
        writes_under(plan_view(r)),
{
    if root.unicode_len() == 0 {
        return Err(owned("技能目录未初始化"));
    }
    let items = match decoded {
        Err(e) => {
            let mut m = owned("无法读取 zip 包: ");
            append(&mut m, e.as_str());
            return Err(m);
        },
        Ok(items) => items,
    };
    let (prefix, name) = match target_of(zip_path, &items) {
        Err(m) => return Err(m),
        Ok(t) => t,
    };
    if exists {
        let mut m = owned("已存在同名技能「");
        append(&mut m, name.as_str());
        append(&mut m, "」，请先删除后重试");
        return Err(m);
    }
    let dest = path_join(root, name.as_str());
    match entry_writes(prefix.as_str(), dest.as_str(), &items) {
        Err(m) => Err(m),
        Ok(w) => Ok((name, dest, w)),
    }
}

/// The folder an archive would be imported into, when the import gets as
/// far as asking whether it exists: `root/name`.
pub fn import_dir(root: &str, zip_path: &str, decoded: &Result<Vec<ZipItem>, String>) -> (r: Option<String>)
    ensures
        opt_view(r) == (if root@.len() > 0 && decoded_view(*decoded) is Ok && import_target(
            zip_path@,
            decoded_view(*decoded)->Ok_0,
        ) is Ok {
            Some(spec_path_join(root@, import_target(zip_path@, decoded_view(*decoded)->Ok_0)->Ok_0.1))
        } else {
            None
        }),
{
    if root.unicode_len() == 0 {
        return None;
    }
    match decoded {
        Err(_) => None,
        Ok(items) => match target_of(zip_path, items) {
            Err(_) => None,
            Ok((_prefix, name)) => Some(path_join(root, name.as_str())),
        },
    }
}

/// Imports the zip archive `zip_bytes`, read from `zip_path`, into the skills
/// folder `root`: decodes it, finds its `SKILL.md`, names the skill, asks
/// std `Path::exists` of the folder `import_dir` gives (and of no other
/// path), and plans the writes. The outcome is the one of `plan_import` for
/// whatever the disk answered.
pub fn import_plan(root: &str, zip_path: &str, zip_bytes: &Vec<u8>) -> (r: Result<
    (String, String, Vec<(String, bool, Vec<u8>)>),
    String,
>)
    ensures
        exists|b: bool| plan_view(r) == #[trigger] import_outcome(root@, zip_path@, spec_zip_items(zip_bytes@), b),
        writes_under(plan_view(r)),
{
    let decoded = zip_items(zip_bytes);
    assert(decoded_view(decoded) == spec_zip_items(zip_bytes@));
    let exists = match import_dir(root, zip_path, &decoded) {
        Some(d) => path_exists(d.as_str()),
        None => false,
    };
    let r = plan_import(root, zip_path, decoded, exists);
    assert(plan_view(r) == import_outcome(root@, zip_path@, spec_zip_items(zip_bytes@), exists));
    r
}

} // verus!
