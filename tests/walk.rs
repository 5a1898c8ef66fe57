use std::collections::{BTreeMap, BTreeSet};

use backupper::{finish_copy, plan_file, EntryStep, FailureReason, Outcome, Step, SyncSession, Timestamp};

fn comps(parts: &[&str]) -> Vec<String> {
    parts.iter().map(|s| s.to_string()).collect()
}

/// A directory tree held in memory: directories, and files with their
/// contents and last-modified times. Copies are stamped with a clock that
/// runs ahead of every time written by hand.
struct MemFs {
    dirs: BTreeSet<Vec<String>>,
    files: BTreeMap<Vec<String>, (String, i128)>,
    clock: i128,
}

impl MemFs {
    fn new() -> MemFs {
        MemFs { dirs: BTreeSet::new(), files: BTreeMap::new(), clock: 1_000_000 }
    }

    fn mkdir_all(&mut self, p: &[String]) {
        for n in 1..=p.len() {
            self.dirs.insert(p[..n].to_vec());
        }
    }

    fn write(&mut self, p: &[&str], content: &str, time: i128) {
        let p = comps(p);
        self.mkdir_all(&p[..p.len() - 1]);
        self.files.insert(p, (content.to_string(), time));
    }

    fn content(&self, p: &[&str]) -> Option<String> {
        self.files.get(&comps(p)).map(|f| f.0.clone())
    }

    fn has_dir(&self, p: &[&str]) -> bool {
        self.dirs.contains(&comps(p))
    }

    fn list(&self, dir: &[String]) -> Vec<(String, bool)> {
        let mut out = Vec::new();
        for d in &self.dirs {
            if d.len() == dir.len() + 1 && d[..dir.len()] == *dir {
                out.push((d[dir.len()].clone(), true));
            }
        }
        for f in self.files.keys() {
            if f.len() == dir.len() + 1 && f[..dir.len()] == *dir {
                out.push((f[dir.len()].clone(), false));
            }
        }
        out
    }

    fn time(&self, p: &[String]) -> Option<Timestamp> {
        self.files.get(p).map(|f| Timestamp { nanos: f.1 })
    }

    /// Runs one synchronisation and returns the outcome for each file, keyed
    /// by its destination path.
    fn sync(&mut self, src: &[&str], dst: &[&str], excl: &[&str]) -> BTreeMap<Vec<String>, Outcome> {
        let mut session = SyncSession::new(comps(src), comps(dst), comps(excl));
        let mut outcomes = BTreeMap::new();
        loop {
            match session.next_step() {
                Step::Finished => break,
                Step::Excluded(_) => {}
                Step::Visit(dir, dest) => {
                    self.mkdir_all(&dest);
                    for (name, is_dir) in self.list(&dir) {
                        if let EntryStep::Reconcile(sf, df) = session.on_entry(Some(name), is_dir) {
                            let exists = self.files.contains_key(&df);
                            let plan = plan_file(exists, self.time(&sf), self.time(&df));
                            let copied = if plan.needs_copy() {
                                self.clock += 1;
                                let content = self.files[&sf].0.clone();
                                self.files.insert(df.clone(), (content, self.clock));
                                true
                            } else {
                                false
                            };
                            outcomes.insert(df, finish_copy(plan, copied));
                        }
                    }
                }
            }
        }
        outcomes
    }
}

#[test]
fn new_file_is_created_with_source_content() {
    let mut fs = MemFs::new();
    fs.mkdir_all(&comps(&["/", "dst"]));
    fs.write(&["/", "src", "file.txt"], "v1", 10);
    let out = fs.sync(&["/", "src"], &["/", "dst"], &[]);
    assert_eq!(fs.content(&["/", "dst", "file.txt"]), Some("v1".to_string()));
    assert_eq!(out[&comps(&["/", "dst", "file.txt"])], Outcome::Created);
}

#[test]
fn newer_source_overwrites_destination() {
    let mut fs = MemFs::new();
    fs.write(&["/", "dst", "file.txt"], "v1", 10);
    fs.write(&["/", "src", "file.txt"], "v2", 11);
    let out = fs.sync(&["/", "src"], &["/", "dst"], &[]);
    assert_eq!(fs.content(&["/", "dst", "file.txt"]), Some("v2".to_string()));
    assert_eq!(out[&comps(&["/", "dst", "file.txt"])], Outcome::Overwritten);
}

#[test]
fn equal_or_older_source_leaves_destination() {
    let mut fs = MemFs::new();
    fs.write(&["/", "dst", "same.txt"], "dest", 10);
    fs.write(&["/", "src", "same.txt"], "source", 10);
    fs.write(&["/", "dst", "old.txt"], "dest", 12);
    fs.write(&["/", "src", "old.txt"], "source", 11);
    let out = fs.sync(&["/", "src"], &["/", "dst"], &[]);
    assert_eq!(fs.content(&["/", "dst", "same.txt"]), Some("dest".to_string()));
    assert_eq!(fs.content(&["/", "dst", "old.txt"]), Some("dest".to_string()));
    assert_eq!(out[&comps(&["/", "dst", "same.txt"])], Outcome::Skipped);
    assert_eq!(out[&comps(&["/", "dst", "old.txt"])], Outcome::Skipped);
}

#[test]
fn part_overwritten_rest_skipped_in_subdirectory() {
    let mut fs = MemFs::new();
    fs.write(&["/", "src", "subDir", "one.txt"], "original", 10);
    fs.write(&["/", "dst", "subDir", "one.txt"], "modified", 10);
    fs.write(&["/", "dst", "subDir", "two.txt"], "original", 10);
    fs.write(&["/", "src", "subDir", "two.txt"], "modified", 11);
    fs.sync(&["/", "src"], &["/", "dst"], &[]);
    assert_eq!(fs.content(&["/", "dst", "subDir", "one.txt"]), Some("modified".to_string()));
    assert_eq!(fs.content(&["/", "dst", "subDir", "two.txt"]), Some("modified".to_string()));
}

#[test]
fn second_run_skips_every_file() {
    let mut fs = MemFs::new();
    fs.write(&["/", "src", "a.txt"], "a", 10);
    fs.write(&["/", "src", "d", "b.txt"], "b", 10);
    fs.write(&["/", "dst", "a.txt"], "old a", 5);
    let first = fs.sync(&["/", "src"], &["/", "dst"], &[]);
    assert_eq!(first[&comps(&["/", "dst", "a.txt"])], Outcome::Overwritten);
    assert_eq!(first[&comps(&["/", "dst", "d", "b.txt"])], Outcome::Created);
    let second = fs.sync(&["/", "src"], &["/", "dst"], &[]);
    assert_eq!(second.len(), 2);
    assert!(second.values().all(|o| *o == Outcome::Skipped));
}

#[test]
fn excluded_directory_is_not_mirrored_at_any_depth() {
    let mut fs = MemFs::new();
    fs.write(&["/", "src", "subDir", "keep.txt"], "k", 10);
    fs.write(&["/", "src", "subDir", "blacklisted", "x.txt"], "x", 10);
    fs.write(&["/", "src", "blacklisted", "deep", "y.txt"], "y", 10);
    fs.write(&["/", "src", "a", "b", "blacklisted", "z.txt"], "z", 10);
    let out = fs.sync(&["/", "src"], &["/", "dst"], &["blacklisted"]);
    assert_eq!(fs.content(&["/", "dst", "subDir", "keep.txt"]), Some("k".to_string()));
    assert!(!fs.has_dir(&["/", "dst", "subDir", "blacklisted"]));
    assert!(!fs.has_dir(&["/", "dst", "blacklisted"]));
    assert!(!fs.has_dir(&["/", "dst", "a", "b", "blacklisted"]));
    assert!(fs.has_dir(&["/", "dst", "a", "b"]));
    assert_eq!(out.len(), 1);
}

#[test]
fn excluded_source_root_mirrors_nothing() {
    let mut fs = MemFs::new();
    fs.write(&["/", "src", "f.txt"], "f", 10);
    let out = fs.sync(&["/", "src"], &["/", "dst"], &["src"]);
    assert!(out.is_empty());
    assert!(!fs.has_dir(&["/", "dst"]));
}

#[test]
fn nested_file_keeps_its_relative_path() {
    let mut fs = MemFs::new();
    fs.write(&["/", "home", "src", "a", "b", "f.ext"], "deep", 10);
    fs.write(&["/", "home", "src", "subDir", "one.txt"], "one", 10);
    fs.sync(&["/", "home", "src"], &["/", "dst"], &["blacklisted_dir", "blacklisted_dir_2"]);
    assert_eq!(fs.content(&["/", "dst", "a", "b", "f.ext"]), Some("deep".to_string()));
    assert_eq!(fs.content(&["/", "dst", "subDir", "one.txt"]), Some("one".to_string()));
    assert_eq!(fs.content(&["/", "dst", "home", "src", "a", "b", "f.ext"]), None);
}

#[test]
fn session_steps_through_the_tree() {
    let mut s = SyncSession::new(comps(&["/", "src"]), comps(&["/", "dst"]), comps(&["skip"]));
    assert_eq!(s.root_depth, 2);
    match s.next_step() {
        Step::Visit(dir, dest) => {
            assert_eq!(dir, comps(&["/", "src"]));
            assert_eq!(dest, comps(&["/", "dst"]));
        }
        other => panic!("unexpected {:?}", other),
    }
    assert!(matches!(s.on_entry(None, false), EntryStep::Failed(FailureReason::NoFileName)));
    assert!(matches!(s.on_entry(Some("skip".to_string()), true), EntryStep::Descended));
    assert!(matches!(s.on_entry(Some("sub".to_string()), true), EntryStep::Descended));
    match s.on_entry(Some("f.txt".to_string()), false) {
        EntryStep::Reconcile(src, dst) => {
            assert_eq!(src, comps(&["/", "src", "f.txt"]));
            assert_eq!(dst, comps(&["/", "dst", "f.txt"]));
        }
        other => panic!("unexpected {:?}", other),
    }
    match s.next_step() {
        Step::Visit(dir, dest) => {
            assert_eq!(dir, comps(&["/", "src", "sub"]));
            assert_eq!(dest, comps(&["/", "dst", "sub"]));
        }
        other => panic!("unexpected {:?}", other),
    }
    match s.next_step() {
        Step::Excluded(dir) => assert_eq!(dir, comps(&["/", "src", "skip"])),
        other => panic!("unexpected {:?}", other),
    }
    assert!(matches!(s.next_step(), Step::Finished));
    assert!(matches!(s.next_step(), Step::Finished));
}
