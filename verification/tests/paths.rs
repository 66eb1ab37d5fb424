use system_world::args::{FontArgs, Input, PackageArgs, ProcessArgs, WorldArgs};
use system_world::error::ReadError;
use system_world::id::{parent_dir, resolve, within_root, ResourceId};
use system_world::slot::Probe;
use system_world::world::SystemWorld;

fn seg_id(segs: &[&str]) -> ResourceId {
    ResourceId::new(None, segs.iter().map(|s| s.to_string()).collect())
}

#[test]
fn resolve_joins_segments_under_root() {
    let id = seg_id(&["sub", "main.typ"]);
    assert_eq!(resolve("/proj", &id).unwrap(), "/proj/sub/main.typ");
}

#[test]
fn resolve_drops_dot_and_empty_segments() {
    let id = seg_id(&["", ".", "a", ".", "b.typ"]);
    assert_eq!(resolve("/proj", &id).unwrap(), "/proj/a/b.typ");
}

#[test]
fn resolve_pops_parent_segments_inside_root() {
    let id = seg_id(&["a", "..", "b.typ"]);
    assert_eq!(resolve("/proj", &id).unwrap(), "/proj/b.typ");
}

#[test]
fn escaping_path_is_denied() {
    let id = seg_id(&["..", "secret.txt"]);
    assert_eq!(resolve("/proj", &id).unwrap_err(), ReadError::AccessDenied);
}

#[test]
fn escape_through_later_parents_is_denied() {
    let id = seg_id(&["a", "..", "..", "x"]);
    assert_eq!(resolve("/proj", &id).unwrap_err(), ReadError::AccessDenied);
}

#[test]
fn escaping_path_never_reaches_a_load_plan() {
    let args = WorldArgs {
        root: Some("/proj".to_owned()),
        inputs: Vec::new(),
        font: FontArgs { font_paths: Vec::new(), ignore_system_fonts: false },
        package: PackageArgs::default(),
        creation_timestamp: Some(0),
    };
    let process = ProcessArgs { jobs: None, features: Vec::new() };
    let mut w = SystemWorld::new(&Input::Stdin, &args, &process).unwrap();
    let id = seg_id(&["..", "etc", "passwd"]);
    // Root confinement: the denial is immediate; the embedder is never asked
    // to read anything from disk.
    match w.probe_source(&id) {
        Probe::Hit(Err(e)) => assert_eq!(e, ReadError::AccessDenied),
        _ => panic!("expected an immediate denial"),
    }
}

#[test]
fn within_root_splits_the_virtual_path() {
    let id = within_root("/proj/sub/main.typ", "/proj").unwrap();
    assert_eq!(resolve("/proj", &id).unwrap(), "/proj/sub/main.typ");
}

#[test]
fn within_root_requires_component_boundary() {
    assert!(within_root("/projects/main.typ", "/proj").is_none());
    assert!(within_root("/other/main.typ", "/proj").is_none());
    assert!(within_root("/proj", "/proj").is_none());
}

#[test]
fn within_root_accepts_trailing_separator() {
    let id = within_root("/proj/main.typ", "/proj/").unwrap();
    assert_eq!(resolve("/proj", &id).unwrap(), "/proj/main.typ");
}

#[test]
fn parent_dir_is_lexical() {
    assert_eq!(parent_dir("/proj/sub/main.typ"), "/proj/sub");
    assert_eq!(parent_dir("main.typ"), ".");
}

#[test]
fn identifiers_are_pure_values() {
    let a = seg_id(&["x", "y.typ"]);
    let b = seg_id(&["x", "y.typ"]);
    let c = seg_id(&["x", "z.typ"]);
    assert!(a.eq_id(&b));
    assert!(!a.eq_id(&c));
    assert!(a.eq_id(&a.dup()));
    // The standard-input identifier collides with no file path.
    assert!(!ResourceId::stdin().eq_id(&seg_id(&["<stdin>"])));
    assert!(ResourceId::stdin().eq_id(&ResourceId::stdin()));
}
