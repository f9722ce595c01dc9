use office_convert_lambda::packed_libreoffice::{
    unpack_libreoffice, ArchiveEntry, UnpackError, UnpackReply, UnpackStep,
};
use office_convert_lambda::path::{Part, PathParts};
use std::path::{Component, Path};

fn parts(path: &str) -> PathParts {
    let list = Path::new(path)
        .components()
        .map(|component| match component {
            Component::RootDir => Part::Root,
            Component::CurDir => Part::Current,
            Component::ParentDir => Part::Parent,
            Component::Normal(name) => Part::Name(name.to_str().unwrap().as_bytes().to_vec()),
            Component::Prefix(_) => unreachable!(),
        })
        .collect();
    PathParts::new(list).unwrap()
}

fn show(path: &PathParts) -> String {
    let names: Vec<String> = path
        .parts()
        .iter()
        .map(|part| match part {
            Part::Root => String::new(),
            Part::Current => ".".to_string(),
            Part::Parent => "..".to_string(),
            Part::Name(name) => String::from_utf8(name.clone()).unwrap(),
        })
        .collect();
    if names.len() == 1 && names[0].is_empty() {
        "/".to_string()
    } else {
        names.join("/")
    }
}

/// Unpacks entries to `/tmp`; the reply number `failing` is an error. Returns
/// the result, and what was done.
fn unpack(entries: &[&str], failing: usize) -> (Result<(), UnpackError<usize>>, Vec<String>) {
    let mut entries = entries.iter();
    let mut done = Vec::new();
    let mut step = unpack_libreoffice(parts("/opt/a.tar.zst"), parts("/tmp"));
    let mut count = 0;
    loop {
        count += 1;
        let result = if count == failing { Err(count) } else { Ok(()) };
        let reply = match &step {
            UnpackStep::OpenArchive { archive_path, .. } => {
                assert_eq!(show(archive_path), "/opt/a.tar.zst");
                UnpackReply::Finished(result)
            }
            UnpackStep::CreateDecoder { .. } | UnpackStep::ListEntries { .. } => {
                UnpackReply::Finished(result)
            }
            UnpackStep::NextEntry { .. } => UnpackReply::Entry(match result {
                Err(error) => Some(Err(error)),
                Ok(()) => entries.next().map(|entry| {
                    Ok(ArchiveEntry { path: parts(entry), shown: format!("{:?}", entry) })
                }),
            }),
            UnpackStep::CreateParent { parent, .. } => {
                done.push(format!("dir {}", show(parent)));
                UnpackReply::Finished(result)
            }
            UnpackStep::UnpackEntry { target, .. } => {
                done.push(format!("unpack {}", show(target)));
                UnpackReply::Finished(result)
            }
            UnpackStep::Done(_) => break,
        };
        step = step.resume(reply);
    }
    match step {
        UnpackStep::Done(result) => (result, done),
        _ => unreachable!(),
    }
}

#[test]
fn entries_are_unpacked_in_order() {
    let (result, done) = unpack(&["opt/a", "./opt/b/c", "/tmp/d"], 0);
    assert!(result.is_ok());
    assert_eq!(
        done,
        vec![
            "dir /tmp/opt",
            "unpack /tmp/opt/a",
            "dir /tmp/opt/b",
            "unpack /tmp/opt/b/c",
            "dir /tmp",
            "unpack /tmp/d",
        ]
    );
}

#[test]
fn empty_archive_unpacks_to_nothing() {
    let (result, done) = unpack(&[], 0);
    assert!(result.is_ok());
    assert!(done.is_empty());
}

#[test]
fn entry_outside_of_destination_is_refused() {
    let (result, done) = unpack(&["a", "/etc/passwd", "b"], 0);
    assert!(matches!(
        result,
        Err(UnpackError::IllegalPath(text)) if text == "illegal path in archive: \"/etc/passwd\""
    ));
    assert_eq!(done, vec!["dir /tmp", "unpack /tmp/a"]);
    let (result, _) = unpack(&["/x/../tmp/y"], 0);
    assert!(matches!(result, Err(UnpackError::IllegalPath(_))));
    let (result, _) = unpack(&["/tmpx"], 0);
    assert!(matches!(result, Err(UnpackError::IllegalPath(_))));
}

#[test]
fn entry_that_climbs_out_of_destination_is_refused() {
    for entry in ["../x", "a/../../x", "..", "./../x", "/tmp/../x", "../tmpx/a", "../../../etc/x"] {
        let (result, done) = unpack(&["a", entry, "b"], 0);
        assert!(
            matches!(
                result,
                Err(UnpackError::IllegalPath(text))
                    if text == format!("illegal path in archive: {:?}", entry)
            ),
            "{}",
            entry
        );
        assert_eq!(done, vec!["dir /tmp", "unpack /tmp/a"]);
    }
}

#[test]
fn entry_that_stays_in_destination_is_unpacked() {
    let (result, done) = unpack(&["a/../b", "/tmp/a/../b", "a/b/../../c", ".", "../tmp/x", "a/../../tmp"], 0);
    assert!(result.is_ok());
    assert_eq!(
        done,
        vec![
            "dir /tmp/a/..",
            "unpack /tmp/a/../b",
            "dir /tmp/a/..",
            "unpack /tmp/a/../b",
            "dir /tmp/a/b/../..",
            "unpack /tmp/a/b/../../c",
            "dir /",
            "unpack /tmp",
            "dir /tmp/../tmp",
            "unpack /tmp/../tmp/x",
            "dir /tmp/a/../..",
            "unpack /tmp/a/../../tmp",
        ]
    );
}

#[test]
fn unpack_failures_are_passed_on() {
    for failing in 1..=6 {
        let (result, _) = unpack(&["a"], failing);
        assert!(matches!(result, Err(UnpackError::Io(at)) if at == failing));
    }
    let (_, done) = unpack(&["a"], 5);
    assert_eq!(done, vec!["dir /tmp"]);
}
