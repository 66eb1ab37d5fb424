use system_world::args::{FontArgs, Input, PackageArgs, ProcessArgs, WorldArgs};
use system_world::error::ReadError;
use system_world::id::ResourceId;
use system_world::world::SystemWorld;

fn fresh_world() -> SystemWorld {
    let args = WorldArgs {
        root: Some(".".to_owned()),
        inputs: Vec::new(),
        font: FontArgs { font_paths: Vec::new(), ignore_system_fonts: false },
        package: PackageArgs::default(),
        creation_timestamp: Some(0),
    };
    let process = ProcessArgs { jobs: None, features: Vec::new() };
    SystemWorld::new(&Input::Stdin, &args, &process).unwrap()
}

fn decode(bytes: &[u8]) -> Result<String, ReadError> {
    let mut w = fresh_world();
    let id = ResourceId::new(None, vec!["doc.typ".to_owned()]);
    let _ = w.probe_source(&id);
    w.provide_source(&id, Ok(bytes.to_vec())).map(|s| s.text().clone())
}

#[test]
fn bom_is_stripped() {
    assert_eq!(decode(b"\xef\xbb\xbfhi").unwrap(), "hi");
}

#[test]
fn bom_alone_decodes_to_empty_text() {
    assert_eq!(decode(b"\xef\xbb\xbf").unwrap(), "");
}

#[test]
fn text_without_bom_is_kept_whole() {
    assert_eq!(decode("grüße".as_bytes()).unwrap(), "grüße");
}

#[test]
fn invalid_utf8_is_rejected() {
    assert_eq!(decode(b"\xff").unwrap_err(), ReadError::InvalidEncoding);
}

#[test]
fn invalid_utf8_after_bom_is_rejected() {
    assert_eq!(decode(b"\xef\xbb\xbf\xff").unwrap_err(), ReadError::InvalidEncoding);
}

#[test]
fn error_messages_name_the_failure() {
    assert_eq!(ReadError::NotFound.message(), "file not found");
    assert_eq!(ReadError::AccessDenied.message(), "failed to access file");
    assert_eq!(ReadError::IsDirectory.message(), "failed to load file (is a directory)");
    assert_eq!(ReadError::Io.message(), "failed to load file");
    assert_eq!(ReadError::InvalidEncoding.message(), "file is not valid utf-8");
}
