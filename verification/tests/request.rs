use proc_doc::dispatch::{direct_info, output_file_path, Route};
use proc_doc::request::{resolve, verify_args, ArgError, Instruction, Surroundings};

fn instruction(path: &str, extension: &str, output: &str, name: &str) -> Instruction {
    Instruction::new(
        Some(path.to_string()),
        extension.to_string(),
        output.to_string(),
        name.to_string(),
    )
}

fn all_there() -> Surroundings {
    Surroundings {
        input_exists: true,
        output_exists: true,
        download_dir: Some("/home/u/Downloads".to_string()),
    }
}

#[test]
fn bare_input_is_copied_to_downloads() {
    let info = verify_args(instruction("notes.txt", "", "", ""), &all_there()).unwrap();
    assert_eq!(info.input_path, "notes.txt");
    assert_eq!(info.input_extension, "txt");
    assert_eq!(info.output_extension, "txt");
    assert_eq!(info.output_path, "/home/u/Downloads");
    assert_eq!(info.name_file, "notes-copied");
    assert_eq!(direct_info(&info), Route::Duplicate);
    assert_eq!(output_file_path(&info), "/home/u/Downloads/notes-copied.txt");
}

#[test]
fn other_extension_is_a_conversion() {
    let info = verify_args(instruction("dir/report.txt", "pdf", "out", ""), &all_there()).unwrap();
    assert_eq!(info.input_extension, "txt");
    assert_eq!(info.output_extension, "pdf");
    assert_eq!(info.output_path, "out");
    assert_eq!(info.name_file, "report-converted");
    assert_eq!(direct_info(&info), Route::TxtToPdf);
    assert_eq!(output_file_path(&info), "out/report-converted.pdf");
}

#[test]
fn same_extension_given_is_a_copy() {
    let info = verify_args(instruction("data.csv", "csv", "out", ""), &all_there()).unwrap();
    assert_eq!(info.name_file, "data-copied");
    assert_eq!(direct_info(&info), Route::Duplicate);
}

#[test]
fn given_name_is_kept() {
    let info = verify_args(instruction("a.json", "xml", "out", "result"), &all_there()).unwrap();
    assert_eq!(info.name_file, "result");
    assert_eq!(output_file_path(&info), "out/result.xml");
}

#[test]
fn missing_input_path_is_refused() {
    let raw = Instruction::new(None, String::new(), String::new(), String::new());
    let error = verify_args(raw, &all_there()).err().unwrap();
    assert_eq!(error, ArgError::MissingInputPath);
    assert_eq!(error.message(), "Please enter the path of input file.");
}

#[test]
fn missing_input_file_is_refused() {
    let mut there = all_there();
    there.input_exists = false;
    let error = verify_args(instruction("gone.txt", "pdf", "", ""), &there).err().unwrap();
    assert_eq!(error, ArgError::InputNotFound);
    assert_eq!(error.message(), "Input file not found.");
}

#[test]
fn missing_output_directory_is_refused() {
    let mut there = all_there();
    there.output_exists = false;
    let error = verify_args(instruction("a.txt", "pdf", "nowhere", ""), &there).err().unwrap();
    assert_eq!(error, ArgError::OutputNotFound);
    assert_eq!(error.message(), "Output folder not found.");
}

#[test]
fn output_directory_is_not_asked_for_when_left_out() {
    let mut there = all_there();
    there.output_exists = false;
    let info = verify_args(instruction("a.txt", "pdf", "", ""), &there).unwrap();
    assert_eq!(info.output_path, "/home/u/Downloads");
}

#[test]
fn missing_downloads_directory_is_refused() {
    let mut there = all_there();
    there.download_dir = None;
    let error = verify_args(instruction("a.txt", "pdf", "", ""), &there).err().unwrap();
    assert_eq!(error, ArgError::NoDownloadDir);
    assert_eq!(
        error.message(),
        "Specify output folder (unable to find default Downloads folder)."
    );
    assert!(verify_args(instruction("a.txt", "pdf", "out", ""), &there).is_ok());
}

#[test]
fn first_failed_check_decides() {
    let nothing = Surroundings { input_exists: false, output_exists: false, download_dir: None };
    let error = verify_args(instruction("a.exe", "zip", "nowhere", ""), &nothing).err().unwrap();
    assert_eq!(error, ArgError::InputNotFound);
    let input_only = Surroundings { input_exists: true, output_exists: false, download_dir: None };
    let error = verify_args(instruction("a.exe", "zip", "nowhere", ""), &input_only).err().unwrap();
    assert_eq!(error, ArgError::OutputNotFound);
    let error = verify_args(instruction("a.exe", "zip", "", ""), &input_only).err().unwrap();
    assert_eq!(error, ArgError::NoDownloadDir);
}

#[test]
fn unknown_extensions_are_refused() {
    let error = verify_args(instruction("a.exe", "pdf", "", ""), &all_there()).err().unwrap();
    assert_eq!(error, ArgError::InvalidExtension);
    assert_eq!(error.message(), "Invalid extension");
    let error = verify_args(instruction("a.txt", "odt", "", ""), &all_there()).err().unwrap();
    assert_eq!(error, ArgError::InvalidExtension);
    let error = verify_args(instruction("a.txt", "PDF", "", ""), &all_there()).err().unwrap();
    assert_eq!(error, ArgError::InvalidExtension);
    let error = verify_args(instruction("README", "pdf", "", ""), &all_there()).err().unwrap();
    assert_eq!(error, ArgError::InvalidExtension);
    let error = verify_args(instruction("README", "", "", ""), &all_there()).err().unwrap();
    assert_eq!(error, ArgError::InvalidExtension);
}

#[test]
fn extension_and_stem_come_from_the_file_name() {
    let info = verify_args(instruction("/a.b/c.d.json", "xml", "out", ""), &all_there()).unwrap();
    assert_eq!(info.input_extension, "json");
    assert_eq!(info.name_file, "c.d-converted");
}

#[test]
fn resolve_takes_extension_and_stem_as_given() {
    let info = resolve(
        instruction("whatever", "", "", ""),
        &all_there(),
        Some("xml".to_string()),
        Some("tree".to_string()),
    )
    .unwrap();
    assert_eq!(info.input_extension, "xml");
    assert_eq!(info.output_extension, "xml");
    assert_eq!(info.name_file, "tree-copied");
    let info = resolve(
        instruction("whatever", "json", "", ""),
        &all_there(),
        Some("xml".to_string()),
        None,
    )
    .unwrap();
    assert_eq!(info.output_extension, "json");
    assert_eq!(info.name_file, "");
    let error = resolve(instruction("whatever", "json", "", ""), &all_there(), None, None)
        .err()
        .unwrap();
    assert_eq!(error, ArgError::InvalidExtension);
}
