use system_world::args::{parse_sys_input_pair, DepsFormat, FontArgs, Input, Output, OutputFormat,
    PackageArgs, ProcessArgs, WorldArgs};
use system_world::error::WorldCreationError;
use system_world::id::ResourceId;
use system_world::slot::Probe;
use system_world::world::SystemWorld;

fn args_with_root(root: Option<&str>) -> WorldArgs {
    WorldArgs {
        root: root.map(|r| r.to_owned()),
        inputs: Vec::new(),
        font: FontArgs { font_paths: Vec::new(), ignore_system_fonts: false },
        package: PackageArgs::default(),
        creation_timestamp: Some(0),
    }
}

fn process_args() -> ProcessArgs {
    ProcessArgs { jobs: None, features: Vec::new() }
}

#[test]
fn stdin_session_has_the_stdin_main() {
    let w = SystemWorld::new(&Input::Stdin, &args_with_root(Some("/proj")), &process_args())
        .unwrap();
    assert!(w.main().eq_id(&ResourceId::stdin()));
    assert_eq!(w.root(), "/proj");
    assert_eq!(w.workdir(), ".");
}

#[test]
fn path_session_takes_root_from_input_parent() {
    let input = Input::Path("/proj/sub/main.typ".to_owned());
    let w = SystemWorld::new(&input, &args_with_root(None), &process_args()).unwrap();
    assert_eq!(w.root(), "/proj/sub");
}

#[test]
fn input_outside_root_is_refused() {
    let input = Input::Path("/elsewhere/main.typ".to_owned());
    let e = match SystemWorld::new(&input, &args_with_root(Some("/proj")), &process_args()) {
        Err(e) => e,
        Ok(_) => panic!("expected the session construction to fail"),
    };
    assert_eq!(e, WorldCreationError::InputOutsideRoot);
    assert_eq!(e.message(), "source file must be contained in project root");
}

#[test]
fn creation_error_messages_carry_the_path() {
    assert_eq!(
        WorldCreationError::InputNotFound("/x/main.typ".to_owned()).message(),
        "input file not found (searched at /x/main.typ)",
    );
    assert_eq!(
        WorldCreationError::RootNotFound("/x".to_owned()).message(),
        "root directory not found (searched at /x)",
    );
}

#[test]
fn main_can_be_swapped_between_cycles() {
    let mut w = SystemWorld::new(&Input::Stdin, &args_with_root(Some("/proj")), &process_args())
        .unwrap();
    let other = ResourceId::new(None, vec!["other.typ".to_owned()]);
    w.set_main(other.dup());
    assert!(w.main().eq_id(&other));
}

#[test]
fn memory_slot_feeds_the_cache_directly() {
    let mut w = SystemWorld::new(&Input::Stdin, &args_with_root(Some("/proj")), &process_args())
        .unwrap();
    let id = ResourceId::new(None, vec!["live.typ".to_owned()]);
    w.insert_memory_slot(&id, "= Hello".to_owned());
    w.set_main(id.dup());
    // The injected text is served from the cache without any load.
    match w.probe_source(&id) {
        Probe::Hit(Ok(src)) => assert_eq!(src.text(), "= Hello"),
        _ => panic!("expected the injected text"),
    }
    assert_eq!(w.lookup(&id), "= Hello");
}

#[test]
fn memory_slot_replaces_previous_content() {
    let mut w = SystemWorld::new(&Input::Stdin, &args_with_root(Some("/proj")), &process_args())
        .unwrap();
    let id = ResourceId::new(None, vec!["live.typ".to_owned()]);
    w.insert_memory_slot(&id, "first".to_owned());
    w.insert_memory_slot(&id, "second".to_owned());
    assert_eq!(w.lookup(&id), "second");
}

#[test]
fn sys_input_pairs_are_split_and_trimmed() {
    assert_eq!(
        parse_sys_input_pair("key=value").unwrap(),
        ("key".to_owned(), "value".to_owned()),
    );
    assert_eq!(
        parse_sys_input_pair("  key \t=  some value  ").unwrap(),
        ("key".to_owned(), "some value".to_owned()),
    );
    assert_eq!(
        parse_sys_input_pair("a=b=c").unwrap(),
        ("a".to_owned(), "b=c".to_owned()),
    );
    assert_eq!(parse_sys_input_pair("k=").unwrap(), ("k".to_owned(), "".to_owned()));
}

#[test]
fn sys_input_pair_errors() {
    assert_eq!(
        parse_sys_input_pair("no separator").unwrap_err(),
        "input must be a key and a value separated by an equal sign",
    );
    assert_eq!(parse_sys_input_pair("  =v").unwrap_err(), "the key was missing or empty");
}

#[test]
fn output_configuration_values() {
    assert!(matches!(Output::Stdout, Output::Stdout));
    let out = Output::Path("doc.pdf".to_owned());
    assert!(matches!(out, Output::Path(p) if p == "doc.pdf"));
    assert_eq!(DepsFormat::default(), DepsFormat::Json);
    assert!(OutputFormat::Pdf < OutputFormat::Html);
}

#[test]
fn guarded_session_serves_requests() {
    let w = SystemWorld::new(&Input::Stdin, &args_with_root(Some("/proj")), &process_args())
        .unwrap();
    let shared = system_world::guard::SharedWorld::new(w);
    let id = ResourceId::new(None, vec!["a.typ".to_owned()]);
    match shared.probe_source(&id) {
        Probe::Miss(_) => {}
        _ => panic!("expected a miss on first access"),
    }
    let src = shared.provide_source(&id, Ok(b"guarded".to_vec())).unwrap();
    assert_eq!(src.text(), "guarded");
    match shared.probe_source(&id) {
        Probe::Hit(Ok(again)) => assert_eq!(again.text(), "guarded"),
        _ => panic!("expected a cache hit"),
    }
    assert_eq!(shared.dependencies(), vec!["/proj/a.typ".to_owned()]);
    assert!(shared.main().eq_id(&ResourceId::stdin()));
    shared.reset();
    let back = shared.into_inner();
    assert!(back.dependencies().is_empty());
}

#[test]
fn guarded_session_denies_escapes_and_bad_offsets() {
    let w = SystemWorld::new(&Input::Stdin, &args_with_root(Some("/proj")), &process_args())
        .unwrap();
    let shared = system_world::guard::SharedWorld::new(w);
    let escaping = ResourceId::new(None, vec!["..".to_owned(), "x".to_owned()]);
    match shared.probe_source(&escaping) {
        Probe::Hit(Err(e)) => assert_eq!(e, system_world::error::ReadError::AccessDenied),
        _ => panic!("expected an immediate denial"),
    }
    assert!(shared.today(Some(24)).is_none());
    assert!(shared.today(Some(23)).is_some());
}
