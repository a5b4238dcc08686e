//! From the raw command-line fields to a resolved conversion request.

use vstd::prelude::*;
use crate::format::{is_supported, supported};
use crate::text::{joined, same_text};

verus! {

/// The fields of the command line, as the user gave them. An empty
/// `extension`, `output_path` or `name_file` stands for one that was left out.
#[derive(Clone, Debug)]
pub struct Instruction {
    pub input_path: Option<String>,
    pub extension: String,
    pub output_path: String,
    pub name_file: String,
}

/// The model of an `Instruction`.
pub struct InstructionView {
    pub input_path: Option<Seq<char>>,
    pub extension: Seq<char>,
    pub output_path: Seq<char>,
    pub name_file: Seq<char>,
}

impl View for Instruction {
    type V = InstructionView;

    open spec fn view(&self) -> InstructionView {
        InstructionView {
            input_path: text_of(self.input_path),
            extension: self.extension@,
            output_path: self.output_path@,
            name_file: self.name_file@,
        }
    }
}

impl Instruction {
    /// An instruction with the given fields.
    pub fn new(
        input_path: Option<String>,
        extension: String,
        output_path: String,
        name_file: String,
    ) -> (instruction: Instruction)
        ensures
            instruction.input_path == input_path,
            instruction.extension == extension,
            instruction.output_path == output_path,
            instruction.name_file == name_file,
    {
        Instruction { input_path, extension, output_path, name_file }
    }
}

/// What the file system and the platform say about an instruction: whether
/// its input path and its output directory exist, and where the user's
/// downloads directory is, if there is one.
#[derive(Clone, Debug)]
pub struct Surroundings {
    pub input_exists: bool,
    pub output_exists: bool,
    pub download_dir: Option<String>,
}

/// The model of `Surroundings`.
pub struct SurroundingsView {
    pub input_exists: bool,
    pub output_exists: bool,
    pub download_dir: Option<Seq<char>>,
}

impl View for Surroundings {
    type V = SurroundingsView;

    open spec fn view(&self) -> SurroundingsView {
        SurroundingsView {
            input_exists: self.input_exists,
            output_exists: self.output_exists,
            download_dir: text_of(self.download_dir),
        }
    }
}

/// One resolved conversion job.
#[derive(Clone, Debug)]
pub struct ConversionInfo {
    pub input_path: String,
    pub input_extension: String,
    pub output_path: String,
    pub output_extension: String,
    pub name_file: String,
}

/// The model of a `ConversionInfo`.
pub struct ConversionInfoView {
    pub input_path: Seq<char>,
    pub input_extension: Seq<char>,
    pub output_path: Seq<char>,
    pub output_extension: Seq<char>,
    pub name_file: Seq<char>,
}

impl View for ConversionInfo {
    type V = ConversionInfoView;

    open spec fn view(&self) -> ConversionInfoView {
        ConversionInfoView {
            input_path: self.input_path@,
            input_extension: self.input_extension@,
            output_path: self.output_path@,
            output_extension: self.output_extension@,
            name_file: self.name_file@,
        }
    }
}

impl ConversionInfoView {
    /// Both extensions belong to the supported set.
    pub open spec fn wf(self) -> bool {
        supported(self.input_extension) && supported(self.output_extension)
    }
}

impl ConversionInfo {
    /// A request with the given fields.
    pub fn new(
        input_path: String,
        input_extension: String,
        output_path: String,
        output_extension: String,
        name_file: String,
    ) -> (info: ConversionInfo)
        ensures
            info.input_path == input_path,
            info.input_extension == input_extension,
            info.output_path == output_path,
            info.output_extension == output_extension,
            info.name_file == name_file,
    {
        ConversionInfo { input_path, input_extension, output_path, output_extension, name_file }
    }
}

/// Why an instruction could not be resolved.
#[derive(Clone, Copy, Debug, PartialEq, Eq, Structural)]
pub enum ArgError {
    MissingInputPath,
    InputNotFound,
    OutputNotFound,
    NoDownloadDir,
    InvalidExtension,
}

impl ArgError {
    /// The diagnostic of an error.
    pub open spec fn diagnostic(self) -> Seq<char> {
        match self {
            ArgError::MissingInputPath => "Please enter the path of input file."@,
            ArgError::InputNotFound => "Input file not found."@,
            ArgError::OutputNotFound => "Output folder not found."@,
            ArgError::NoDownloadDir =>
                "Specify output folder (unable to find default Downloads folder)."@,
            ArgError::InvalidExtension => "Invalid extension"@,
        }
    }

    /// The diagnostic to print for an error.
    pub fn message(&self) -> (text: &'static str)
        ensures
            text@ == self.diagnostic(),
    {
        match self {
            ArgError::MissingInputPath => "Please enter the path of input file.",
            ArgError::InputNotFound => "Input file not found.",
            ArgError::OutputNotFound => "Output folder not found.",
            ArgError::NoDownloadDir =>
                "Specify output folder (unable to find default Downloads folder).",
            ArgError::InvalidExtension => "Invalid extension",
        }
    }
}

/// The characters of an optional string.
pub open spec fn text_of(text: Option<String>) -> Option<Seq<char>> {
    match text {
        Some(t) => Some(t@),
        None => None,
    }
}

/// The suffix that a derived output name gets.
pub open spec fn name_suffix(input_extension: Seq<char>, output_extension: Seq<char>) -> Seq<char> {
    if input_extension == output_extension {
        "-copied"@
    } else {
        "-converted"@
    }
}

/// The request that an instruction resolves to, given what the surroundings
/// say and the extension and the stem of the input path.
///
/// The checks come in this order: the input path is given; it exists; an
/// output directory that was given exists; one that was not given can be
/// replaced by the downloads directory; both extensions are supported. An
/// extension that was left out is the input's own. A name that was left out
/// is the input's stem with `-copied` behind it where the two extensions are
/// equal, with `-converted` where they differ.
pub open spec fn resolved(
    instruction: InstructionView,
    surroundings: SurroundingsView,
    extension: Option<Seq<char>>,
    stem: Option<Seq<char>>,
) -> Result<ConversionInfoView, ArgError> {
    let input_extension = match extension {
        Some(e) => e,
        None => Seq::<char>::empty(),
    };
    let output_extension = if instruction.extension.len() == 0 && extension is Some {
        input_extension
    } else {
        instruction.extension
    };
    if instruction.input_path is None {
        Err(ArgError::MissingInputPath)
    } else if !surroundings.input_exists {
        Err(ArgError::InputNotFound)
    } else if instruction.output_path.len() > 0 && !surroundings.output_exists {
        Err(ArgError::OutputNotFound)
    } else if instruction.output_path.len() == 0 && surroundings.download_dir is None {
        Err(ArgError::NoDownloadDir)
    } else if !supported(output_extension) || !supported(input_extension) {
        Err(ArgError::InvalidExtension)
    } else {
        Ok(
            ConversionInfoView {
                input_path: instruction.input_path->0,
                input_extension,
                output_path: if instruction.output_path.len() > 0 {
                    instruction.output_path
                } else {
                    surroundings.download_dir->0
                },
                output_extension,
                name_file: if instruction.name_file.len() > 0 {
                    instruction.name_file
                } else {
                    match stem {
                        Some(s) => s + name_suffix(input_extension, output_extension),
                        None => Seq::<char>::empty(),
                    }
                },
            },
        )
    }
}

/// A request that an instruction resolves to has two supported extensions.
pub proof fn lemma_resolved_is_supported(
    instruction: InstructionView,
    surroundings: SurroundingsView,
    extension: Option<Seq<char>>,
    stem: Option<Seq<char>>,
)
    ensures
        resolved(instruction, surroundings, extension, stem) matches Ok(info) ==> info.wf(),
{
}

/// The model of the result of resolving.
pub open spec fn resolution(result: Result<ConversionInfo, ArgError>) -> Result<
    ConversionInfoView,
    ArgError,
> {
    match result {
        Ok(info) => Ok(info@),
        Err(error) => Err(error),
    }
}

/// Resolves an instruction, given the extension and the stem that were found
/// in its input path.
pub fn resolve(
    instruction: Instruction,
    surroundings: &Surroundings,
    extension: Option<String>,
    stem: Option<String>,
) -> (result: Result<ConversionInfo, ArgError>)
    ensures
        resolution(result) == resolved(
            instruction@,
            surroundings@,
            text_of(extension),
            text_of(stem),
        ),
        result matches Ok(info) ==> info@.wf(),
{
    let Instruction { input_path, extension: wanted, output_path, name_file } = instruction;
    let input_path = match input_path {
        Some(path) => path,
        None => {
            return Err(ArgError::MissingInputPath);
        },
    };
    if !surroundings.input_exists {
        return Err(ArgError::InputNotFound);
    }
    let output_given = !output_path.as_str().is_empty();
    if output_given && !surroundings.output_exists {
        return Err(ArgError::OutputNotFound);
    }
    let output_path = if output_given {
        output_path
    } else {
        match &surroundings.download_dir {
            Some(dir) => dir.clone(),
            None => {
                return Err(ArgError::NoDownloadDir);
            },
        }
    };
    let (input_extension, output_extension) = match extension {
        Some(found) => {
            let output = if wanted.as_str().is_empty() {
                found.clone()
            } else {
                wanted
            };
            (found, output)
        },
        None => (String::new(), wanted),
    };
    if !is_supported(output_extension.as_str()) || !is_supported(input_extension.as_str()) {
        return Err(ArgError::InvalidExtension);
    }
    let name_file = if !name_file.as_str().is_empty() {
        name_file
    } else {
        match stem {
            Some(s) => {
                if same_text(input_extension.as_str(), output_extension.as_str()) {
                    joined(s.as_str(), "-copied")
                } else {
                    joined(s.as_str(), "-converted")
                }
            },
            None => {
                assert(name_file@ =~= Seq::<char>::empty());
                name_file
            },
        }
    };
    Ok(ConversionInfo::new(input_path, input_extension, output_path, output_extension, name_file))
}

/// The extension of a path: what `std::path::Path::extension` finds in it.
pub uninterp spec fn path_extension(path: Seq<char>) -> Option<Seq<char>>;

/// The stem of a path: what `std::path::Path::file_stem` finds in it.
pub uninterp spec fn path_file_stem(path: Seq<char>) -> Option<Seq<char>>;

/// Calls `std::path::Path::extension` on the path. The contract names the
/// outcome `path_extension` and says nothing else of it.
#[verifier::external_body]
fn extension_of(path: &str) -> (extension: Option<String>)
    ensures
        text_of(extension) == path_extension(path@),
{
    std::path::Path::new(path).extension().and_then(|e| e.to_str()).map(|e| e.to_owned())
}

/// Calls `std::path::Path::file_stem` on the path. The contract names the
/// outcome `path_file_stem` and says nothing else of it.
#[verifier::external_body]
fn file_stem_of(path: &str) -> (stem: Option<String>)
    ensures
        text_of(stem) == path_file_stem(path@),
{
    std::path::Path::new(path).file_stem().and_then(|s| s.to_str()).map(|s| s.to_owned())
}

/// The extension of an optional path.
pub open spec fn extension_in(path: Option<Seq<char>>) -> Option<Seq<char>> {
    match path {
        Some(p) => path_extension(p),
        None => None,
    }
}

/// The stem of an optional path.
pub open spec fn stem_in(path: Option<Seq<char>>) -> Option<Seq<char>> {
    match path {
        Some(p) => path_file_stem(p),
        None => None,
    }
}

/// Resolves an instruction: validates it against the surroundings, fills in
/// what was left out, and gives the request or the first error.
pub fn verify_args(instruction: Instruction, surroundings: &Surroundings) -> (result: Result<
    ConversionInfo,
    ArgError,
>)
    ensures
        resolution(result) == resolved(
            instruction@,
            surroundings@,
            extension_in(instruction@.input_path),
            stem_in(instruction@.input_path),
        ),
        result matches Ok(info) ==> info@.wf(),
{
    let (extension, stem) = match &instruction.input_path {
        Some(path) => (extension_of(path.as_str()), file_stem_of(path.as_str())),
        None => (None, None),
    };
    resolve(instruction, surroundings, extension, stem)
}

} // verus!
