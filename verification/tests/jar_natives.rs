use std::io::{Cursor, Write};

use lynara::minecraft::jar::native_files;
use lynara::minecraft::McError;

fn jar(entries: &[(&str, &[u8])]) -> Vec<u8> {
    let mut w = zip::ZipWriter::new(Cursor::new(Vec::new()));
    let options = zip::write::SimpleFileOptions::default();
    for (name, content) in entries {
        if name.ends_with('/') {
            w.add_directory(name.to_string(), options).unwrap();
        } else {
            w.start_file(name.to_string(), options).unwrap();
            w.write_all(content).unwrap();
        }
    }
    w.finish().unwrap().into_inner()
}

#[test]
fn natives_are_taken_out_of_a_jar() {
    let bytes = jar(&[
        ("META-INF/MANIFEST.MF", b"m"),
        ("META-INF/native.so", b"skip"),
        ("linux/x64/org/lwjgl/liblwjgl.so", b"so"),
        ("windows/", b""),
        ("windows/lwjgl.DLL", b"dll"),
        ("readme.txt", b"text"),
        ("libglfw.dylib", b"dylib"),
    ]);
    let taken = native_files(bytes, "lwjgl.jar");
    assert!(taken.error.is_none());
    let files = taken.files;
    let names: Vec<&str> = files.iter().map(|(n, _)| n.as_str()).collect();
    assert_eq!(names, vec!["liblwjgl.so", "lwjgl.DLL", "libglfw.dylib"]);
    assert_eq!(files[0].1, b"so".to_vec());
    assert_eq!(files[1].1, b"dll".to_vec());
}

#[test]
fn a_jar_that_is_no_archive_is_an_error() {
    let taken = native_files(b"not a zip".to_vec(), "broken.jar");
    assert!(taken.files.is_empty());
    match taken.error {
        Some(McError::Custom(m)) => assert!(m.starts_with("Zip broken.jar: ")),
        other => panic!("unexpected {:?}", other),
    }
}
