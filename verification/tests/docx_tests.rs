use riposte_social::docx::{process_docx_template, process_part, TARGET_PART};
use riposte_social::errors::AppError;
use std::io::{Cursor, Read, Write};
use zip::write::SimpleFileOptions;
use zip::{CompressionMethod, ZipArchive, ZipWriter};

fn build(parts: &[(&str, &[u8])]) -> Vec<u8> {
    let mut w = ZipWriter::new(Cursor::new(Vec::new()));
    for (name, data) in parts {
        w.start_file(*name, SimpleFileOptions::default().compression_method(CompressionMethod::Deflated))
            .unwrap();
        w.write_all(data).unwrap();
    }
    w.finish().unwrap().into_inner()
}

fn read_all(bytes: Vec<u8>) -> Vec<(String, Vec<u8>)> {
    let mut a = ZipArchive::new(Cursor::new(bytes)).unwrap();
    let mut out = Vec::new();
    for i in 0..a.len() {
        let mut f = a.by_index(i).unwrap();
        let name = f.name().unwrap().to_string();
        let mut data = Vec::new();
        f.read_to_end(&mut data).unwrap();
        out.push((name, data));
    }
    out
}

#[test]
fn only_the_relationships_part_is_personalised() {
    let input = build(&[
        ("word/document.xml", b"<doc>{{ACCESS_CODE}}</doc>"),
        (TARGET_PART, b"<a href=\"https://x/{{ACCESS_CODE}}\"/>"),
    ]);
    let output = process_docx_template(&input, "K").unwrap();
    let parts = read_all(output);
    assert_eq!(parts.len(), 2);
    assert_eq!(parts[0], ("word/document.xml".to_string(), b"<doc>{{ACCESS_CODE}}</doc>".to_vec()));
    assert_eq!(parts[1], (TARGET_PART.to_string(), b"<a href=\"https://x/K\"/>".to_vec()));
}

#[test]
fn a_part_that_is_not_utf8_is_refused() {
    let input = build(&[(TARGET_PART, &[0xff, 0x00])]);
    match process_docx_template(&input, "K") {
        Err(AppError::InternalError(m)) => {
            assert!(m.starts_with("Invalid UTF-8 in DOCX file 'word/_rels/document.xml.rels': "))
        }
        other => panic!("unexpected {:?}", other),
    }
    // Other parts may hold any bytes.
    assert_eq!(process_part("media/image1.png", vec![0xff, 0x00], "K").unwrap(), vec![0xff, 0x00]);
}

#[test]
fn bytes_that_are_not_a_zip_are_refused() {
    match process_docx_template(b"not a zip", "K") {
        Err(AppError::InternalError(m)) => assert!(m.starts_with("Failed to open DOCX as ZIP archive: ")),
        other => panic!("unexpected {:?}", other),
    }
}
