use office_convert_lambda::encrypted::{
    determine_input_file_condition, room, ConditionReply, ConditionStep, FileCondition, WINDOW_SIZE,
};
use office_convert_lambda::path::{Part, PathParts};

fn path() -> PathParts {
    PathParts::new(vec![Part::Root, Part::Name(b"input".to_vec())]).unwrap()
}

/// Reads a file in pieces of at most `piece` bytes; returns what is judged.
fn judged(file: &[u8], piece: usize) -> Vec<u8> {
    let mut step: ConditionStep<String> = determine_input_file_condition(path());
    loop {
        let reply = match &step {
            ConditionStep::OpenFile(at) => {
                assert!(matches!(&at.parts()[1], Part::Name(name) if name == b"input"));
                ConditionReply::FileOpened(Ok(()))
            }
            ConditionStep::ReadMore { bytes } => {
                let from = bytes.len();
                let count = piece.min(room(bytes)).min(file.len() - from);
                ConditionReply::Read(Ok(file[from..from + count].to_vec()))
            }
            ConditionStep::Judge { bytes } => return bytes.clone(),
            ConditionStep::Done(_) => unreachable!(),
        };
        step = step.resume(reply);
    }
}

#[test]
fn window_is_32_kib() {
    assert_eq!(WINDOW_SIZE, 1024 * 32);
    assert_eq!(room(&Vec::new()), 1024 * 32);
    assert_eq!(room(&vec![0; 1000]), 1024 * 32 - 1000);
}

#[test]
fn beginning_of_file_is_judged() {
    let file: Vec<u8> = (0..40000u32).map(|i| (i % 251) as u8).collect();
    assert_eq!(judged(&file, 4096), file[..32768].to_vec());
    assert_eq!(judged(&file, 1000), file[..32768].to_vec());
    assert_eq!(judged(&file, 100000), file[..32768].to_vec());
    assert_eq!(judged(&file[..32768], 5000), file[..32768].to_vec());
    assert_eq!(judged(&file[..10], 3), file[..10].to_vec());
    assert_eq!(judged(&[], 3), Vec::<u8>::new());
}

#[test]
fn condition_and_failures_are_passed_on() {
    let open = || determine_input_file_condition::<&str>(path());
    assert!(matches!(
        open().resume(ConditionReply::FileOpened(Err("no file"))),
        ConditionStep::Done(Err("no file"))
    ));
    let read = || open().resume(ConditionReply::FileOpened(Ok(())));
    assert!(matches!(
        read().resume(ConditionReply::Read(Err("bad disk"))),
        ConditionStep::Done(Err("bad disk"))
    ));
    let judge = || read().resume(ConditionReply::Read(Ok(Vec::new())));
    for condition in
        [FileCondition::Normal, FileCondition::LikelyCorrupted, FileCondition::LikelyEncrypted]
    {
        match judge().resume(ConditionReply::Judged(condition)) {
            ConditionStep::Done(Ok(found)) => assert_eq!(found, condition),
            _ => panic!("not done"),
        }
    }
}
