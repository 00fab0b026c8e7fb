use holter_host::device::Error;
use holter_host::download::{
    download_file_from_device, plan_transfers, Job, Next, Outcome, Stage, BLOCKS_PER_TRANS,
    BLOCK_SIZE, REQUESTED_BLOCKS, TRANS_SIZE,
};
use holter_host::message::{AnswerCode, DevMsg};
use holter_host::value::TypedValue;

fn answer(value: TypedValue) -> Outcome {
    Outcome::Answer(DevMsg(AnswerCode::OK_WRITE, String::from("/any"), value))
}

fn command(code: AnswerCode, path: &str, value: TypedValue) -> Next {
    Next::Do(Job::Command(DevMsg(code, String::from(path), value)))
}

#[test]
fn seven_blocks_by_five_are_one_full_transfer_and_the_rest() {
    assert_eq!(plan_transfers(7, 5), vec![5, 2]);
}

#[test]
fn plans_hold_full_transfers_and_one_remainder() {
    assert_eq!(plan_transfers(0, 5), Vec::<u32>::new());
    assert_eq!(plan_transfers(4, 5), vec![4]);
    assert_eq!(plan_transfers(5, 5), vec![5]);
    assert_eq!(plan_transfers(10, 5), vec![5, 5]);
    assert_eq!(plan_transfers(11, 5), vec![5, 5, 1]);
    assert_eq!(plan_transfers(3, 1), vec![1, 1, 1]);
    let plan = plan_transfers(REQUESTED_BLOCKS, BLOCKS_PER_TRANS);
    assert_eq!(plan.len(), 40);
    assert!(plan[..39].iter().all(|&n| n == 512));
    assert_eq!(plan[39], 32);
    assert_eq!(plan.iter().sum::<u32>(), REQUESTED_BLOCKS);
}

#[test]
fn the_constants_agree() {
    assert_eq!(BLOCKS_PER_TRANS * BLOCK_SIZE, TRANS_SIZE);
    assert_eq!(BLOCK_SIZE, 0x800);
}

#[test]
fn a_download_runs_through_its_stages() {
    let (mut download, first) = download_file_from_device(7, 5, false);
    assert_eq!(
        first,
        Job::Command(DevMsg(
            AnswerCode::OK_WRITE,
            String::from("/io/file/pos"),
            TypedValue::U32(0)
        ))
    );
    assert_eq!(download.plan, vec![5, 2]);
    assert_eq!(
        download.step(answer(TypedValue::UNIT)),
        command(AnswerCode::OK_READ, "/io/file/len", TypedValue::UNIT)
    );
    assert_eq!(
        download.step(answer(TypedValue::U32(100))),
        command(AnswerCode::OK_WRITE, "/io/file/len", TypedValue::U32(7))
    );
    assert_eq!(
        download.step(answer(TypedValue::UNIT)),
        command(AnswerCode::OK_WRITE, "/io/file/start", TypedValue::UNIT)
    );
    assert_eq!(download.step(answer(TypedValue::UNIT)), Next::Do(Job::Open(7 * 0x800)));
    assert_eq!(download.step(Outcome::Written), Next::Do(Job::Transfer(5 * 0x800)));
    assert_eq!(
        download.step(Outcome::Block(vec![1; 5 * 0x800])),
        Next::Do(Job::Write(vec![1; 5 * 0x800]))
    );
    assert_eq!(download.step(Outcome::Written), Next::Do(Job::Transfer(2 * 0x800)));
    assert_eq!(
        download.step(Outcome::Block(vec![2; 2 * 0x800])),
        Next::Do(Job::Write(vec![2; 2 * 0x800]))
    );
    assert_eq!(download.step(Outcome::Written), Next::Do(Job::Close));
    assert_eq!(download.step(Outcome::Written), Next::Finished(Ok(())));
    assert_eq!(download.mismatches, 0);
}

fn at_first_transfer(strict: bool) -> holter_host::download::Download {
    let (mut download, _) = download_file_from_device(2, 1, strict);
    download.step(answer(TypedValue::UNIT));
    download.step(answer(TypedValue::U32(2)));
    download.step(answer(TypedValue::UNIT));
    download.step(answer(TypedValue::UNIT));
    assert_eq!(download.step(Outcome::Written), Next::Do(Job::Transfer(0x800)));
    assert_eq!(download.stage, Stage::Receiving);
    download
}

#[test]
fn a_short_block_is_counted_and_written() {
    let mut download = at_first_transfer(false);
    assert_eq!(download.step(Outcome::Block(vec![1; 10])), Next::Do(Job::Write(vec![1; 10])));
    assert_eq!(download.mismatches, 1);
    assert_eq!(download.step(Outcome::Written), Next::Do(Job::Transfer(0x800)));
    assert_eq!(
        download.step(Outcome::Block(vec![1; 0x800])),
        Next::Do(Job::Write(vec![1; 0x800]))
    );
    assert_eq!(download.mismatches, 1);
}

#[test]
fn a_strict_download_ends_at_a_short_block() {
    let mut download = at_first_transfer(true);
    assert_eq!(
        download.step(Outcome::Block(vec![1; 10])),
        Next::Finished(Err(Error::Protocol))
    );
}

#[test]
fn a_failure_ends_the_download_with_its_error() {
    let mut download = at_first_transfer(false);
    assert_eq!(
        download.step(Outcome::Failed(Error::EpStall)),
        Next::Finished(Err(Error::EpStall))
    );
    let (mut download, _) = download_file_from_device(7, 5, false);
    assert_eq!(
        download.step(Outcome::Failed(Error::NotConnected)),
        Next::Finished(Err(Error::NotConnected))
    );
}

#[test]
fn a_length_that_is_no_number_is_a_protocol_error() {
    let (mut download, _) = download_file_from_device(7, 5, false);
    download.step(answer(TypedValue::UNIT));
    assert_eq!(
        download.step(answer(TypedValue::STR(String::from("7")))),
        Next::Finished(Err(Error::Protocol))
    );
}

#[test]
fn an_outcome_of_another_kind_is_a_protocol_error() {
    let (mut download, _) = download_file_from_device(7, 5, false);
    assert_eq!(download.step(Outcome::Written), Next::Finished(Err(Error::Protocol)));
    assert_eq!(download.step(Outcome::Block(vec![])), Next::Finished(Err(Error::Protocol)));
    let mut download = at_first_transfer(false);
    assert_eq!(
        download.step(answer(TypedValue::UNIT)),
        Next::Finished(Err(Error::Protocol))
    );
}

#[test]
fn nothing_to_fetch_closes_the_sink_at_once() {
    let (mut download, _) = download_file_from_device(0, 5, false);
    download.step(answer(TypedValue::UNIT));
    download.step(answer(TypedValue::U32(0)));
    download.step(answer(TypedValue::UNIT));
    assert_eq!(download.step(answer(TypedValue::UNIT)), Next::Do(Job::Open(0)));
    assert_eq!(download.step(Outcome::Written), Next::Do(Job::Close));
    assert_eq!(download.step(Outcome::Written), Next::Finished(Ok(())));
}
