use laver_agent::agent::skill_zip::{import_dir, import_plan, plan_import};
use laver_agent::agent::skills::import_entry_target;
use std::io::Write;

fn zip_of(entries: &[(&str, &str)]) -> Vec<u8> {
    let mut w = zip::ZipWriter::new(std::io::Cursor::new(Vec::new()));
    let opts = zip::write::SimpleFileOptions::default().compression_method(zip::CompressionMethod::Stored);
    for (name, body) in entries {
        if name.ends_with('/') {
            w.add_directory(name.trim_end_matches('/'), opts).unwrap();
        } else {
            w.start_file(*name, opts).unwrap();
            w.write_all(body.as_bytes()).unwrap();
        }
    }
    w.finish().unwrap().into_inner()
}

#[test]
fn rooted_and_drive_targets_refused() {
    assert_eq!(import_entry_target("", "/etc/x/").unwrap_err(), "zip 包内存在非法路径: /etc/x/");
    assert_eq!(import_entry_target("", "C:/x").unwrap_err(), "zip 包内存在非法路径: C:/x");
    assert_eq!(import_entry_target("pdf/", "pdf/C:\\x").unwrap_err(), "zip 包内存在非法路径: pdf/C:/x");
    assert_eq!(import_entry_target("pdf/", "pdf/ab:c.md").unwrap(), Some("ab:c.md".to_string()));
    assert_eq!(import_entry_target("pdf/", "pdf/docs/a:b.md").unwrap(), Some("docs/a:b.md".to_string()));
    assert_eq!(import_entry_target("pdf/", "pdf/a:b.md").unwrap_err(), "zip 包内存在非法路径: pdf/a:b.md");
    assert_eq!(import_entry_target("", "\\\\server\\share").unwrap_err(), "zip 包内存在非法路径: //server/share");
}

#[test]
fn zip_is_planned_under_its_folder() {
    let bytes = zip_of(&[("pdf/SKILL.md", "---\nname: pdf\n---\nbody"), ("pdf/docs/", ""), ("pdf/docs/a.txt", "A"), ("other.txt", "O")]);
    let (name, dest, writes) = import_plan("/skills", "/d/x.zip", &bytes).unwrap();
    assert_eq!(name, "pdf");
    assert_eq!(dest, "/skills/pdf");
    let paths: Vec<(&str, bool)> = writes.iter().map(|(p, d, _)| (p.as_str(), *d)).collect();
    assert_eq!(paths, vec![("/skills/pdf/SKILL.md", false), ("/skills/pdf/docs/", true), ("/skills/pdf/docs/a.txt", false)]);
    assert_eq!(writes[2].2, b"A".to_vec());
    assert_eq!(writes[0].2, b"---\nname: pdf\n---\nbody".to_vec());
}

#[test]
fn zip_refusals() {
    assert!(import_plan("/skills", "/d/x.zip", &b"not a zip".to_vec()).unwrap_err().starts_with("无法读取 zip 包: "));
    assert_eq!(import_plan("", "/d/x.zip", &zip_of(&[("SKILL.md", "x")])).unwrap_err(), "技能目录未初始化");
    assert_eq!(
        import_plan("/skills", "/d/x.zip", &zip_of(&[("a/b/SKILL.md", "x")])).unwrap_err(),
        "zip 包中未找到 SKILL.md (需位于根目录或单层文件夹内)"
    );
    assert_eq!(
        import_plan("/skills", "/d/x.zip", &zip_of(&[("pdf/SKILL.md", "x"), ("pdf/../evil", "e")])).unwrap_err(),
        "zip 包内存在非法路径: pdf/../evil"
    );
    let (name, dest, writes) = import_plan("/skills", "/d/tool.zip", &zip_of(&[("SKILL.md", "x")])).unwrap();
    assert_eq!((name.as_str(), dest.as_str(), writes.len()), ("tool", "/skills/tool", 1));
}

#[test]
fn existing_folder_refused() {
    let item = |n: &str, d: &[u8]| Ok((n.to_string(), false, Ok(d.to_vec())));
    let decoded = Ok(vec![item("pdf/SKILL.md", b"x")]);
    assert_eq!(plan_import("/skills", "/d/x.zip", decoded, true).unwrap_err(), "已存在同名技能「pdf」，请先删除后重试");
    let decoded = Ok(vec![item("pdf/SKILL.md", b"x")]);
    let (_, _, w) = plan_import("/skills", "/d/x.zip", decoded, false).unwrap();
    assert_eq!(w[0].0, "/skills/pdf/SKILL.md");
    assert_eq!(plan_import("/skills", "/d/x.zip", Err("bad".to_string()), false).unwrap_err(), "无法读取 zip 包: bad");
    assert_eq!(import_dir("/skills", "/d/x.zip", &Ok(vec![item("pdf/SKILL.md", b"x")])).unwrap(), "/skills/pdf");
    assert!(import_dir("", "/d/x.zip", &Ok(vec![item("pdf/SKILL.md", b"x")])).is_none());
    assert!(import_dir("/skills", "/d/x.zip", &Ok(vec![item("a/b/SKILL.md", b"x")])).is_none());
}

#[test]
fn entry_errors_in_archive_order() {
    let ok = |n: &str| Ok((n.to_string(), false, Ok(b"x".to_vec())));
    // An entry that cannot be opened before the top-level SKILL.md refuses the import.
    let d = Ok(vec![Err("bad header".to_string()), ok("SKILL.md")]);
    assert_eq!(plan_import("/skills", "/d/t.zip", d, false).unwrap_err(), "bad header");
    // The existing folder is refused before a later unreadable entry is met.
    let d = Ok(vec![ok("SKILL.md"), Err("bad header".to_string())]);
    assert_eq!(plan_import("/skills", "/d/t.zip", d, true).unwrap_err(), "已存在同名技能「t」，请先删除后重试");
    // An unreadable file outside the skill's folder is never read.
    let d = Ok(vec![
        ok("pdf/SKILL.md"),
        Ok(("other.bin".to_string(), false, Err("crc mismatch".to_string()))),
    ]);
    let (_, _, w) = plan_import("/skills", "/d/x.zip", d, false).unwrap();
    assert_eq!(w.len(), 1);
    // An unreadable file inside it refuses the import.
    let d = Ok(vec![ok("pdf/SKILL.md"), Ok(("pdf/a.bin".to_string(), false, Err("crc mismatch".to_string())))]);
    assert_eq!(plan_import("/skills", "/d/x.zip", d, false).unwrap_err(), "crc mismatch");
}
