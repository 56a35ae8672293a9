use fontworld::canon::normalize;
use fontworld::world::{buffer_outcome, intern_outcome, stat_gate, FileError, FileHost, LuaWorld, Source, SourceId};
use std::cell::RefCell;
use std::rc::Rc;

struct StubHost {
    files: Vec<(String, Vec<u8>)>,
    dirs: Vec<String>,
    locked: Vec<String>,
    stats: Rc<RefCell<u32>>,
    reads: Rc<RefCell<u32>>,
}

impl FileHost for StubHost {
    fn is_dir(&self, path: &str) -> Result<bool, FileError> {
        *self.stats.borrow_mut() += 1;
        if self.locked.iter().any(|d| d == path) {
            return Err(FileError::AccessDenied);
        }
        if self.dirs.iter().any(|d| d == path) {
            return Ok(true);
        }
        if self.files.iter().any(|(p, _)| p == path) {
            return Ok(false);
        }
        Err(FileError::NotFound)
    }

    fn read(&self, path: &str) -> Result<Vec<u8>, FileError> {
        *self.reads.borrow_mut() += 1;
        match self.files.iter().find(|(p, _)| p == path) {
            Some((_, d)) => Ok(d.clone()),
            None => Err(FileError::NotFound),
        }
    }
}

fn world(
    files: Vec<(&str, &[u8])>,
    dirs: Vec<&str>,
) -> (LuaWorld<StubHost>, Rc<RefCell<u32>>, Rc<RefCell<u32>>) {
    let stats = Rc::new(RefCell::new(0));
    let reads = Rc::new(RefCell::new(0));
    let host = StubHost {
        files: files.into_iter().map(|(p, d)| (p.to_string(), d.to_vec())).collect(),
        dirs: dirs.into_iter().map(|d| d.to_string()).collect(),
        locked: Vec::new(),
        stats: stats.clone(),
        reads: reads.clone(),
    };
    (LuaWorld::new(host), stats, reads)
}

#[test]
fn normalize_resolves_dot_segments() {
    assert_eq!(normalize("a/../b.typ"), "b.typ");
    assert_eq!(normalize("./x"), "x");
    assert_eq!(normalize("a/./b"), "a/b");
    assert_eq!(normalize("a//b"), "a/b");
    assert_eq!(normalize("/a/b/../c"), "/a/c");
    assert_eq!(normalize("../x"), "../x");
    assert_eq!(normalize("a/.."), "");
    assert_eq!(normalize("a/../.."), "..");
    assert_eq!(normalize(""), "");
    assert_eq!(normalize("/"), "/");
    assert_eq!(normalize("/.."), "/..");
    assert_eq!(normalize("b.typ"), "b.typ");
}

#[test]
fn resolve_interns_text() {
    let (mut w, _, _) = world(vec![("b.typ", b"hello")], vec![]);
    let id = w.resolve("b.typ").unwrap();
    assert_eq!(id, SourceId::from_u16(0));
    let source = w.source(id);
    assert_eq!(source.text, "hello");
    assert_eq!(source.path, "b.typ");
    assert_eq!(source.id, id);
}

#[test]
fn resolve_memoizes_success() {
    let (mut w, stats, reads) = world(vec![("b.typ", b"hello")], vec![]);
    let first = w.resolve("b.typ").unwrap();
    let second = w.resolve("b.typ").unwrap();
    assert_eq!(first, second);
    assert_eq!(*stats.borrow(), 1);
    assert_eq!(*reads.borrow(), 1);
}

#[test]
fn equivalent_spellings_share_one_slot() {
    let (mut w, stats, reads) = world(vec![("b.typ", b"hello")], vec![]);
    let first = w.resolve("a/../b.typ").unwrap();
    let second = w.resolve("b.typ").unwrap();
    let third = w.resolve("./b.typ").unwrap();
    assert_eq!(first, second);
    assert_eq!(first, third);
    assert_eq!(*stats.borrow(), 1);
    assert_eq!(*reads.borrow(), 1);
}

#[test]
fn missing_path_fails_the_same_way_twice() {
    let (mut w, stats, _) = world(vec![], vec![]);
    assert_eq!(w.resolve("gone.typ"), Err(FileError::NotFound));
    assert_eq!(w.resolve("gone.typ"), Err(FileError::NotFound));
    // The failure is memoized: only the first call probes the host.
    assert_eq!(*stats.borrow(), 1);
}

#[test]
fn directories_are_rejected() {
    let (mut w, _, reads) = world(vec![], vec!["src"]);
    assert_eq!(w.resolve("src"), Err(FileError::IsDirectory));
    assert_eq!(w.file("src"), Err(FileError::IsDirectory));
    assert_eq!(*reads.borrow(), 0);
}

#[test]
fn invalid_text_only_affects_the_text_slot() {
    let raw: &[u8] = &[0xff, 0xfe, 0x00];
    let (mut w, _, reads) = world(vec![("bin.dat", raw)], vec![]);
    assert_eq!(w.resolve("bin.dat"), Err(FileError::InvalidUtf8));
    assert_eq!(w.resolve("bin.dat"), Err(FileError::InvalidUtf8));
    let buffer = w.file("bin.dat").unwrap();
    assert_eq!(buffer.as_slice(), raw);
    // One read for the text attempt, one for the byte slot.
    assert_eq!(*reads.borrow(), 2);
}

#[test]
fn denied_access_is_reported_and_memoized() {
    let stats = Rc::new(RefCell::new(0));
    let reads = Rc::new(RefCell::new(0));
    let host = StubHost {
        files: vec![],
        dirs: vec![],
        locked: vec!["secret.typ".to_string()],
        stats: stats.clone(),
        reads: reads.clone(),
    };
    let mut w = LuaWorld::new(host);
    assert_eq!(w.resolve("secret.typ"), Err(FileError::AccessDenied));
    assert_eq!(w.resolve("secret.typ"), Err(FileError::AccessDenied));
    assert_eq!(*stats.borrow(), 1);
    assert_eq!(*reads.borrow(), 0);
}

#[test]
fn file_memoizes_and_shares_bytes() {
    let (mut w, stats, reads) = world(vec![("b.typ", b"hello")], vec![]);
    let first = w.file("b.typ").unwrap();
    let second = w.file("a/../b.typ").unwrap();
    assert!(Rc::ptr_eq(&first, &second));
    assert_eq!(*stats.borrow(), 1);
    assert_eq!(*reads.borrow(), 1);
}

#[test]
fn stat_gate_classifies() {
    assert_eq!(stat_gate(Ok(true)), Some(FileError::IsDirectory));
    assert_eq!(stat_gate(Ok(false)), None);
    assert_eq!(stat_gate(Err(FileError::NotFound)), Some(FileError::NotFound));
    assert_eq!(stat_gate(Err(FileError::AccessDenied)), Some(FileError::AccessDenied));
}

#[test]
fn intern_outcome_classifies_and_appends() {
    let mut sources: Vec<Source> = Vec::new();
    assert_eq!(intern_outcome(&mut sources, "x", Err(FileError::NotFound)), Err(FileError::NotFound));
    assert_eq!(sources.len(), 0);
    assert_eq!(
        intern_outcome(&mut sources, "x", Ok(vec![0xff, 0xfe])),
        Err(FileError::InvalidUtf8),
    );
    assert_eq!(sources.len(), 0);
    let id = intern_outcome(&mut sources, "x", Ok(b"hi".to_vec())).unwrap();
    assert_eq!(id, SourceId::from_u16(0));
    assert_eq!(sources.len(), 1);
    assert_eq!(sources[0].text, "hi");
    assert_eq!(sources[0].path, "x");
    assert_eq!(sources[0].id, id);
}

#[test]
fn buffer_outcome_passes_bytes_through() {
    let buf = buffer_outcome(Ok(b"raw".to_vec())).unwrap();
    assert_eq!(buf.as_slice(), b"raw");
    assert_eq!(
        buffer_outcome(Err(FileError::AccessDenied)).unwrap_err(),
        FileError::AccessDenied,
    );
}

#[test]
fn source_ids_are_dense() {
    let (mut w, _, _) = world(vec![("a.typ", b"a"), ("b.typ", b"b")], vec![]);
    let a = w.resolve("a.typ").unwrap();
    let b = w.resolve("b.typ").unwrap();
    assert_eq!(a.into_u16(), 0);
    assert_eq!(b.into_u16(), 1);
    assert_eq!(w.source(a).text, "a");
    assert_eq!(w.source(b).text, "b");
}
