use psp_textures::error::AllocationError;
use psp_textures::error::DecodeError;
use psp_textures::error::DecodeReason;
use psp_textures::error::IoError;
use psp_textures::error::IoStage;
use psp_textures::error::PipelineError;
use psp_textures::file_loader::has_nul;
use psp_textures::file_loader::FileLoader;
use psp_textures::file_loader::Reply;
use psp_textures::file_loader::Request;
use psp_textures::file_loader::Step;
use psp_textures::psp_geometry::cube_indices;
use psp_textures::psp_input::axis_deflection;
use psp_textures::psp_print::GuBuf;
use psp_textures::psp_print::Truncated;
use psp_textures::psp_print::BUF_SIZE;
use psp_textures::text::decimal_text;
use psp_textures::text::signed_decimal_text;

fn ask(step: Step) -> (FileLoader, Request) {
    match step {
        Step::Ask { loader, request } => (loader, request),
        Step::Done(result) => panic!("the load ended: {:?}", result),
    }
}

fn end(step: Step) -> Result<Vec<u8>, IoError> {
    match step {
        Step::Done(result) => result,
        Step::Ask { request, .. } => panic!("the load goes on: {:?}", request),
    }
}

fn failure(path: &str, stage: IoStage, size: Option<i64>) -> Result<Vec<u8>, IoError> {
    Err(IoError { path: path.to_string(), stage, size })
}

#[test]
fn load_asks_size_open_read_close_in_turn() {
    let (loader, request) = ask(FileLoader::start("ms0:/a.png".to_string()));
    assert_eq!(request, Request::Stat);
    let (loader, request) = ask(loader.step(Reply::Stat(Some(3))));
    assert_eq!(request, Request::Open);
    let (loader, request) = ask(loader.step(Reply::Open(Some(7))));
    assert_eq!(request, Request::Read { fd: 7, len: 3 });
    let (loader, request) = ask(loader.step(Reply::Read(Some(vec![1, 2, 3]))));
    assert_eq!(request, Request::Close { fd: 7 });
    assert_eq!(end(loader.step(Reply::Close(true))), Ok(vec![1, 2, 3]));
}

#[test]
fn empty_file_loads_as_no_bytes() {
    let (loader, _) = ask(FileLoader::start("empty".to_string()));
    let (loader, _) = ask(loader.step(Reply::Stat(Some(0))));
    let (loader, request) = ask(loader.step(Reply::Open(Some(1))));
    assert_eq!(request, Request::Read { fd: 1, len: 0 });
    let (loader, _) = ask(loader.step(Reply::Read(Some(vec![]))));
    assert_eq!(end(loader.step(Reply::Close(true))), Ok(vec![]));
}

#[test]
fn path_with_nul_fails_before_storage_is_asked() {
    assert!(has_nul("a\0b"));
    assert!(!has_nul("ab"));
    assert!(!has_nul(""));
    assert_eq!(end(FileLoader::start("a\0b".to_string())), failure("a\0b", IoStage::Path, None));
}

#[test]
fn each_failing_step_has_its_own_error() {
    let path = "ms0:/a.png";
    let start = || ask(FileLoader::start(path.to_string())).0;
    assert_eq!(end(start().step(Reply::Stat(None))), failure(path, IoStage::Stat, None));

    let opening = || ask(start().step(Reply::Stat(Some(4)))).0;
    assert_eq!(end(opening().step(Reply::Open(None))), failure(path, IoStage::Open, Some(4)));

    let reading = || ask(opening().step(Reply::Open(Some(9)))).0;
    assert_eq!(end(reading().step(Reply::Read(None))), failure(path, IoStage::Read, Some(4)));
    assert_eq!(
        end(reading().step(Reply::Read(Some(vec![1, 2, 3])))),
        failure(path, IoStage::Read, Some(4))
    );
    assert_eq!(
        end(reading().step(Reply::Read(Some(vec![1, 2, 3, 4, 5])))),
        failure(path, IoStage::Read, Some(4))
    );

    let closing = || ask(reading().step(Reply::Read(Some(vec![1, 2, 3, 4])))).0;
    assert_eq!(end(closing().step(Reply::Close(false))), failure(path, IoStage::Close, Some(4)));
}

#[test]
fn negative_size_cannot_be_read() {
    let (loader, _) = ask(FileLoader::start("a".to_string()));
    let (loader, _) = ask(loader.step(Reply::Stat(Some(-1))));
    assert_eq!(end(loader.step(Reply::Open(Some(2)))), failure("a", IoStage::Read, Some(-1)));
}

#[test]
fn answer_to_another_question_fails_the_step() {
    let (loader, _) = ask(FileLoader::start("a".to_string()));
    assert_eq!(end(loader.step(Reply::Close(true))), failure("a", IoStage::Stat, None));
    let (loader, _) = ask(FileLoader::start("a".to_string()));
    let (loader, _) = ask(loader.step(Reply::Stat(Some(1))));
    assert_eq!(end(loader.step(Reply::Stat(Some(1)))), failure("a", IoStage::Open, Some(1)));
}

#[test]
fn numbers_are_written_in_decimal() {
    assert_eq!(decimal_text(0), "0");
    assert_eq!(decimal_text(7), "7");
    assert_eq!(decimal_text(10), "10");
    assert_eq!(decimal_text(2048), "2048");
    assert_eq!(decimal_text(1234567890), "1234567890");
    assert_eq!(decimal_text(u64::MAX), "18446744073709551615");
    assert_eq!(signed_decimal_text(0), "0");
    assert_eq!(signed_decimal_text(-1), "-1");
    assert_eq!(signed_decimal_text(-305), "-305");
    assert_eq!(signed_decimal_text(i64::MAX), "9223372036854775807");
    assert_eq!(signed_decimal_text(i64::MIN), "-9223372036854775808");
}

#[test]
fn io_errors_say_which_step_failed() {
    let error = |stage, size| IoError { path: "ms0:/a.png".to_string(), stage, size };
    assert_eq!(
        error(IoStage::Path, None).message(),
        "Io Error; could not load file: Error in converting filepath to CString"
    );
    assert_eq!(
        error(IoStage::Stat, None).message(),
        "Io Error; could not load file: Could not find file: \"ms0:/a.png\""
    );
    assert_eq!(
        error(IoStage::Open, Some(12)).message(),
        "Io Error; could not load file: Failed to open file: \"ms0:/a.png\"."
    );
    assert_eq!(
        error(IoStage::Read, Some(512)).message(),
        "Io Error; could not load file: Could not read file \"ms0:/a.png\" of size: 512"
    );
    assert_eq!(
        error(IoStage::Close, Some(7)).message(),
        "Io Error; could not load file: Could not close file \"ms0:/a.png\" of size: 7"
    );
    assert_eq!(
        error(IoStage::Read, None).message(),
        "Io Error; could not load file: Could not read file \"ms0:/a.png\" of size: unknown"
    );
}

#[test]
fn pipeline_errors_carry_the_message_of_their_stage() {
    let decode = DecodeError { reason: DecodeReason::BadHeader };
    assert_eq!(decode.message(), "Could not load the png: bad header");
    assert_eq!(
        DecodeError { reason: DecodeReason::BadData }.message(),
        "Could not load the png: decode"
    );
    assert_eq!(
        DecodeError { reason: DecodeReason::UnsupportedHeight }.message(),
        "Could not load the png: height is not a multiple of 8"
    );
    let allocation = AllocationError { requested_size: 2048 };
    assert_eq!(allocation.message(), "Could not allocate 2048 bytes");
    assert_eq!(PipelineError::Decode(decode).message(), decode.message());
    assert_eq!(PipelineError::Allocation(allocation).message(), allocation.message());
    let io = IoError { path: "x".to_string(), stage: IoStage::Stat, size: None };
    assert_eq!(PipelineError::Io(io.clone()).message(), io.message());
}

#[test]
fn text_buffer_takes_what_fits() {
    let mut buffer = GuBuf::new();
    assert_eq!(buffer.write_str("Handles: "), Ok(()));
    assert_eq!(buffer.write_str("2"), Ok(()));
    assert_eq!(buffer.as_c_str(), b"Handles: 2\0");
    assert_eq!(buffer.write_str("\n"), Ok(()));
    assert_eq!(buffer.as_c_str(), b"Handles: 2\n\0");
}

#[test]
fn text_buffer_cuts_off_at_its_size() {
    let mut buffer = GuBuf::new();
    let long = "x".repeat(BUF_SIZE - 1);
    assert_eq!(buffer.write_str(&long), Ok(()));
    assert_eq!(buffer.write_str("ab"), Err(Truncated));
    let mut expected = long.into_bytes();
    expected.push(b'a');
    expected.push(0);
    assert_eq!(buffer.as_c_str(), &expected[..]);
    assert_eq!(buffer.write_str(""), Ok(()));
    assert_eq!(buffer.write_str("c"), Err(Truncated));
    assert_eq!(buffer.as_c_str().len(), BUF_SIZE + 1);

    let mut exact = GuBuf::new();
    assert_eq!(exact.write_str(&"y".repeat(BUF_SIZE)), Ok(()));
    assert_eq!(exact.as_c_str().len(), BUF_SIZE + 1);
}

#[test]
fn empty_text_buffer_is_an_empty_c_string() {
    let mut buffer = GuBuf::new();
    assert_eq!(buffer.as_c_str(), &[0u8][..]);
}

#[test]
fn stick_near_rest_does_not_deflect() {
    assert_eq!(axis_deflection(128), 0);
    assert_eq!(axis_deflection(144), 0);
    assert_eq!(axis_deflection(112), 0);
    assert_eq!(axis_deflection(145), 17);
    assert_eq!(axis_deflection(111), -17);
    assert_eq!(axis_deflection(255), 127);
    assert_eq!(axis_deflection(0), -128);
}

#[test]
fn cube_has_two_triangles_to_a_face() {
    let indices = cube_indices();
    assert_eq!(indices.len(), 36);
    assert_eq!(&indices[..6], &[0, 1, 2, 0, 2, 3]);
    assert_eq!(&indices[6..12], &[4, 5, 6, 4, 6, 7]);
    assert_eq!(&indices[30..], &[20, 21, 22, 20, 22, 23]);
}
