use system_world::args::{FontArgs, Input, PackageArgs, ProcessArgs, WorldArgs};
use system_world::id::ResourceId;
use system_world::world::SystemWorld;

fn fresh_world() -> SystemWorld {
    let args = WorldArgs {
        root: Some("/proj".to_owned()),
        inputs: Vec::new(),
        font: FontArgs { font_paths: Vec::new(), ignore_system_fonts: false },
        package: PackageArgs::default(),
        creation_timestamp: Some(0),
    };
    let process = ProcessArgs { jobs: None, features: Vec::new() };
    SystemWorld::new(&Input::Stdin, &args, &process).unwrap()
}

fn doc_id(name: &str) -> ResourceId {
    ResourceId::new(None, vec![name.to_owned()])
}

#[test]
fn dependencies_are_exactly_the_accessed_resources() {
    let mut w = fresh_world();
    let a = doc_id("a.typ");
    let b = doc_id("b.typ");
    let c = doc_id("c.typ");
    // A cycle that touches all three creates all three slots.
    for id in [&a, &b, &c] {
        let _ = w.probe_source(id);
        let _ = w.provide_source(id, Ok(b"text".to_vec()));
    }
    // The next cycle reads only a and b; c's slot still exists but is never
    // fetched.
    w.reset();
    for id in [&a, &b] {
        let _ = w.probe_source(id);
    }
    assert_eq!(w.dependencies(), vec!["/proj/a.typ".to_owned(), "/proj/b.typ".to_owned()]);
}

#[test]
fn dependencies_include_bytes_reads() {
    let mut w = fresh_world();
    let a = doc_id("img.png");
    let _ = w.probe_file(&a);
    let _ = w.provide_file(&a, Ok(vec![0u8]));
    assert_eq!(w.dependencies(), vec!["/proj/img.png".to_owned()]);
}

#[test]
fn dependencies_empty_before_any_access() {
    let w = fresh_world();
    assert!(w.dependencies().is_empty());
}

#[test]
fn reset_keeps_cached_content() {
    let mut w = fresh_world();
    let a = doc_id("a.typ");
    let _ = w.probe_source(&a);
    let _ = w.provide_source(&a, Ok(b"kept".to_vec()));
    w.reset();
    assert!(w.dependencies().is_empty());
    // The cached text survives the reset and is still found by lookup.
    assert_eq!(w.lookup(&a), "kept");
}
