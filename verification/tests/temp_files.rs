use office_convert_lambda::error::LambdaError;
use office_convert_lambda::path::{Part, PathParts};
use office_convert_lambda::temp_files::{
    cleanup, create_convert_temp_paths, paths_of, setup_temp_path, CleanupReply, CleanupStep,
    TempDirReply, TempDirStep, TempPaths, TempPathsReply, TempPathsStep,
};

fn path(names: &[&str]) -> PathParts {
    let mut parts = vec![Part::Root];
    for name in names {
        parts.push(Part::Name(name.as_bytes().to_vec()));
    }
    PathParts::new(parts).unwrap()
}

fn show(path: &PathParts) -> String {
    let mut text = String::new();
    for part in path.parts() {
        match part {
            Part::Root => {}
            Part::Name(name) => {
                text.push('/');
                text.push_str(std::str::from_utf8(name).unwrap());
            }
            _ => panic!("not plain"),
        }
    }
    text
}

const ID: &str = "0123456789ab4def8123456789abcdef";

#[test]
fn paths_are_named_after_the_identifier() {
    let paths = paths_of(&path(&["tmp"]), ID);
    assert_eq!(show(&paths.input), format!("/tmp/tmp_native_input_{}", ID));
    assert_eq!(show(&paths.output), format!("/tmp/tmp_native_output_{}.pdf", ID));
    assert_eq!(show(&paths.temp), format!("/tmp/tmp_native_temp_{}", ID));
}

fn fresh() -> TempPaths {
    match create_convert_temp_paths::<()>(&path(&["tmp"])) {
        TempPathsStep::MakeInputAbsolute(paths) => paths,
        _ => panic!("not the first step"),
    }
}

#[test]
fn identifiers_are_random() {
    let mut seen: Vec<String> = Vec::new();
    for _ in 0..50 {
        let paths = fresh();
        let input = show(&paths.input);
        let id = input.strip_prefix("/tmp/tmp_native_input_").unwrap().to_string();
        assert_eq!(id.len(), 32);
        assert!(id.chars().all(|c| c.is_ascii_digit() || ('a'..='f').contains(&c)));
        assert_eq!(&id[12..13], "4");
        assert!("89ab".contains(&id[16..17]));
        assert_eq!(show(&paths.output), format!("/tmp/tmp_native_output_{}.pdf", id));
        assert_eq!(show(&paths.temp), format!("/tmp/tmp_native_temp_{}", id));
        assert!(!seen.contains(&id));
        seen.push(id);
    }
}

#[test]
fn temp_dir_is_created_unless_it_exists() {
    let check = || setup_temp_path(&path(&["tmp"]));
    let dir = "/tmp/onlyoffice-convert-server";
    assert!(matches!(check(), TempDirStep::CheckExists(at) if show(&at) == dir));
    assert!(matches!(
        check().resume(TempDirReply::Exists(true)),
        TempDirStep::Done(Ok(at)) if show(&at) == dir
    ));
    let create = || check().resume(TempDirReply::Exists(false));
    assert!(matches!(create(), TempDirStep::CreateDir(at) if show(&at) == dir));
    assert!(matches!(
        create().resume(TempDirReply::Created(Ok(()))),
        TempDirStep::Done(Ok(at)) if show(&at) == dir
    ));
    assert!(matches!(
        create().resume(TempDirReply::Created(Err(()))),
        TempDirStep::Done(Err(LambdaError::SetupTempDirFailed))
    ));
}

/// Sets paths up; absolute forms get a leading directory, the call number
/// `failing` fails. Returns the result and whether the directory was created.
fn set_up(exists: bool, failing: usize) -> (Result<(String, String), usize>, bool) {
    let mut step = TempPathsStep::MakeInputAbsolute(paths_of(&path(&[]), ID));
    let (mut calls, mut created) = (0, false);
    loop {
        let absolute = |name: &PathParts| path(&["abs", &show(name)[1..]]);
        calls += 1;
        let reply = match &step {
            TempPathsStep::MakeInputAbsolute(_)
            | TempPathsStep::MakeOutputAbsolute(_)
            | TempPathsStep::MakeTempAbsolute(_)
                if calls == failing =>
            {
                TempPathsReply::Absolute(Err(calls))
            }
            TempPathsStep::MakeInputAbsolute(paths) => {
                TempPathsReply::Absolute(Ok(absolute(&paths.input)))
            }
            TempPathsStep::MakeOutputAbsolute(paths) => {
                TempPathsReply::Absolute(Ok(absolute(&paths.output)))
            }
            TempPathsStep::MakeTempAbsolute(paths) => {
                TempPathsReply::Absolute(Ok(absolute(&paths.temp)))
            }
            TempPathsStep::CheckTemp(paths) => {
                assert_eq!(show(&paths.temp), format!("/abs/tmp_native_temp_{}", ID));
                TempPathsReply::Exists(exists)
            }
            TempPathsStep::CreateTemp(_) => {
                created = true;
                TempPathsReply::Created(if calls == failing { Err(calls) } else { Ok(()) })
            }
            TempPathsStep::Done(_) => break,
        };
        step = step.resume(reply);
    }
    match step {
        TempPathsStep::Done(result) => {
            (result.map(|(input, output)| (show(&input), show(&output))), created)
        }
        _ => unreachable!(),
    }
}

#[test]
fn temp_paths_are_made_absolute() {
    let paths = (
        format!("/abs/tmp_native_input_{}", ID),
        format!("/abs/tmp_native_output_{}.pdf", ID),
    );
    assert_eq!(set_up(true, 0), (Ok(paths.clone()), false));
    assert_eq!(set_up(false, 0), (Ok(paths), true));
}

#[test]
fn temp_path_failures_are_passed_on() {
    assert_eq!(set_up(false, 1), (Err(1), false));
    assert_eq!(set_up(false, 2), (Err(2), false));
    assert_eq!(set_up(false, 3), (Err(3), false));
    assert_eq!(set_up(false, 5), (Err(5), true));
}

/// Clears two files away; returns the files that were removed.
fn clear(input_exists: bool, output_exists: bool, removable: bool) -> Vec<String> {
    let mut removed = Vec::new();
    let mut step = cleanup(path(&["in"]), path(&["out"]));
    loop {
        let result = if removable { Ok(()) } else { Err(()) };
        let reply = match &step {
            CleanupStep::CheckInput { .. } => CleanupReply::Exists(input_exists),
            CleanupStep::CheckOutput { .. } => CleanupReply::Exists(output_exists),
            CleanupStep::RemoveInput { input, .. } => {
                removed.push(show(input));
                CleanupReply::Removed(result)
            }
            CleanupStep::RemoveOutput { output } => {
                removed.push(show(output));
                CleanupReply::Removed(result)
            }
            CleanupStep::Done => return removed,
        };
        step = step.resume(reply);
    }
}

#[test]
fn existing_files_are_removed() {
    assert_eq!(clear(true, true, true), vec!["/in", "/out"]);
    assert_eq!(clear(true, true, false), vec!["/in", "/out"]);
    assert_eq!(clear(false, true, true), vec!["/out"]);
    assert_eq!(clear(true, false, true), vec!["/in"]);
    assert!(clear(false, false, true).is_empty());
}
