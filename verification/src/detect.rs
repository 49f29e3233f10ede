//! What the output of host tools says of the host: Python, CUDA, binaries.
use crate::number;
use crate::text;
use vstd::prelude::*;

verus! {

/// What a command left behind: whether it succeeded, and its standard output.
#[derive(Debug)]
pub struct CommandOutput {
    pub success: bool,
    pub stdout: Vec<u8>,
}

/// The text of bytes that are not well-formed UTF-8.
pub uninterp spec fn lossy_text(bytes: Seq<u8>) -> Seq<char>;

/// The text of bytes: as UTF-8 has it where they are well-formed.
pub open spec fn text_of(bytes: Seq<u8>) -> Seq<char> {
    if vstd::utf8::valid_utf8(bytes) {
        vstd::utf8::decode_utf8(bytes)
    } else {
        lossy_text(bytes)
    }
}

/// Decodes with [`String::from_utf8_lossy`].
///
/// Taken on trust: well-formed UTF-8 is decoded as such, and the text of other
/// bytes depends on them alone and holds a replacement character. How many there
/// are and where they stand is not stated.
#[verifier::external_body]
fn decode_lossy(bytes: &[u8]) -> (res: String)
    ensures
        vstd::utf8::valid_utf8(bytes@) ==> res@ == vstd::utf8::decode_utf8(bytes@),
        !vstd::utf8::valid_utf8(bytes@) ==> res@ == lossy_text(bytes@) && res@.contains('\u{fffd}'),
{
    String::from_utf8_lossy(bytes).into_owned()
}

/// The text that a command printed, if it could be run and succeeded.
pub open spec fn printed(output: Option<CommandOutput>) -> Option<Seq<char>> {
    match output {
        Some(output) => if output.success {
            Some(text_of(output.stdout@))
        } else {
            None
        },
        None => None,
    }
}

/// The text that a command printed, if it could be run and succeeded.
pub fn printed_text(output: &Option<CommandOutput>) -> (res: Option<String>)
    ensures
        res.deep_view() == printed(*output),
{
    match output {
        Some(output) => if output.success {
            Some(decode_lossy(output.stdout.as_slice()))
        } else {
            None
        },
        None => None,
    }
}

// Python

/// What is known of the Python of a host.
#[verifier::ext_equal]
pub struct PythonReport {
    pub available: bool,
    pub version: Option<Seq<char>>,
    pub sufficient: bool,
}

/// What is known of the Python of a host: whether there is one, the version it
/// says it has, and whether that is 3.10 or later.
#[derive(Debug)]
pub struct PythonStatus {
    pub available: bool,
    pub version: Option<String>,
    pub sufficient: bool,
}

impl View for PythonStatus {
    type V = PythonReport;

    open spec fn view(&self) -> PythonReport {
        PythonReport {
            available: self.available,
            version: self.version.deep_view(),
            sufficient: self.sufficient,
        }
    }
}

/// Whether `version` is that of a Python 3.10 or later: its first two parts are
/// numbers, and they say so.
pub open spec fn is_sufficient_python(version: Seq<char>) -> bool {
    let parts = text::pieces(version, seq!['.']);
    &&& parts.len() >= 2
    &&& number::parsed(parts[0], u32::MAX as nat) matches Some(major)
    &&& number::parsed(parts[1], u32::MAX as nat) matches Some(minor)
    &&& major > 3 || (major == 3 && minor >= 10)
}

/// What a Python interpreter says of itself when asked for its version, if it
/// answers in the form `Python 3.11.0`.
pub open spec fn python_report(answer: Seq<char>) -> Option<PythonReport> {
    if text::starts_with(answer, "Python "@) {
        let version = text::trimmed(answer.skip("Python "@.len() as int));
        Some(
            PythonReport {
                available: true,
                version: Some(version),
                sufficient: is_sufficient_python(version),
            },
        )
    } else {
        None
    }
}

/// What is known of a Python that is not there.
pub open spec fn no_python() -> PythonReport {
    PythonReport { available: false, version: None, sufficient: false }
}

/// Whether a version is 3.10 or later.
pub fn sufficient_python(version: &[char]) -> (res: bool)
    ensures
        res == is_sufficient_python(version@),
{
    let parts = text::split(version, &['.']);
    proof {
        assert(['.']@ == seq!['.']);
        assert(parts.len() == text::contents(parts@).len());
    }
    if parts.len() < 2 {
        return false;
    }
    proof {
        assert(parts@[0]@ == text::contents(parts@)[0]);
        assert(parts@[1]@ == text::contents(parts@)[1]);
    }
    match (
        number::parse(parts[0].as_slice(), u32::MAX as u64),
        number::parse(parts[1].as_slice(), u32::MAX as u64),
    ) {
        (Some(major), Some(minor)) => major > 3 || (major == 3 && minor >= 10),
        _ => false,
    }
}

/// Reads the answer of a Python interpreter that was asked for its version.
pub fn python_status(answer: &str) -> (res: Option<PythonStatus>)
    ensures
        res is Some <==> python_report(answer@) is Some,
        res matches Some(status) ==> python_report(answer@) == Some(status@),
{
    let chars = text::chars_of(answer);
    let name = text::chars_of("Python ");
    assert(chars@.skip(0) == chars@);
    if !text::matches_at(chars.as_slice(), 0, name.as_slice()) {
        return None;
    }
    let (_, behind) = chars.as_slice().split_at(name.len());
    assert(behind@ == chars@.skip(name.len() as int));
    let version = text::trim(behind);
    let sufficient = sufficient_python(version);
    Some(PythonStatus { available: true, version: Some(text::string_of(version)), sufficient })
}

/// What the first command in `outputs` that answers as a Python interpreter
/// does says, if one does.
pub open spec fn first_python(outputs: Seq<Option<CommandOutput>>) -> Option<PythonReport>
    decreases outputs.len(),
{
    if outputs.len() == 0 {
        None
    } else {
        match printed(outputs.first()) {
            Some(answer) => match python_report(answer) {
                Some(report) => Some(report),
                None => first_python(outputs.drop_first()),
            },
            None => first_python(outputs.drop_first()),
        }
    }
}

/// The commands that may start a Python interpreter, in the order to try them.
pub open spec fn python_commands() -> Seq<Seq<char>> {
    seq!["python3"@, "python"@]
}

/// What to do next to learn of the Python of a host.
pub enum PythonAction {
    Run(Seq<char>),
    Report(PythonReport),
}

/// What to do next to learn of the Python of a host: run a command, or report.
#[derive(Debug)]
pub enum PythonStep {
    /// Run this command with `--version`.
    Run(&'static str),
    Report(PythonStatus),
}

impl View for PythonStep {
    type V = PythonAction;

    open spec fn view(&self) -> PythonAction {
        match self {
            PythonStep::Run(command) => PythonAction::Run(command@),
            PythonStep::Report(status) => PythonAction::Report(status@),
        }
    }
}

/// The next step, given what the commands left behind that were run so far.
pub open spec fn python_step(outputs: Seq<Option<CommandOutput>>) -> PythonAction {
    match first_python(outputs) {
        Some(report) => PythonAction::Report(report),
        None => if outputs.len() < python_commands().len() {
            PythonAction::Run(python_commands()[outputs.len() as int])
        } else {
            PythonAction::Report(no_python())
        },
    }
}

/// Checks if Python 3.10+ is available: given what the commands left behind
/// that were run so far, in their order, says which to run next or reports.
///
/// An output is `None` where its command could not be run.
pub fn check_python_version(outputs: &Vec<Option<CommandOutput>>) -> (res: PythonStep)
    ensures
        res@ == python_step(outputs@),
{
    let mut i: usize = 0;
    assert(outputs@.skip(0) == outputs@);
    while i < outputs.len()
        invariant
            i <= outputs.len(),
            first_python(outputs@) == first_python(outputs@.skip(i as int)),
        decreases outputs.len() - i,
    {
        assert(outputs@.skip(i as int).drop_first() == outputs@.skip(i + 1));
        if let Some(answer) = printed_text(&outputs[i]) {
            if let Some(status) = python_status(answer.as_str()) {
                return PythonStep::Report(status);
            }
        }
        i += 1;
    }
    if outputs.len() == 0 {
        PythonStep::Run("python3")
    } else if outputs.len() == 1 {
        PythonStep::Run("python")
    } else {
        PythonStep::Report(PythonStatus { available: false, version: None, sufficient: false })
    }
}

// CUDA

/// How much GPU memory is enough, in megabytes.
pub const MIN_GPU_MEMORY_MB: u64 = 10000;

/// What is known of the CUDA of a host.
#[verifier::ext_equal]
pub struct CudaReport {
    pub available: bool,
    pub gpu_name: Option<Seq<char>>,
    pub memory_mb: Option<u64>,
    pub sufficient: bool,
}

/// What is known of the CUDA of a host: whether there is a GPU, its name and
/// memory, and whether that memory is enough.
#[derive(Debug)]
pub struct CudaStatus {
    pub available: bool,
    pub gpu_name: Option<String>,
    pub memory_mb: Option<u64>,
    pub sufficient: bool,
}

impl View for CudaStatus {
    type V = CudaReport;

    open spec fn view(&self) -> CudaReport {
        CudaReport {
            available: self.available,
            gpu_name: self.gpu_name.deep_view(),
            memory_mb: self.memory_mb,
            sufficient: self.sufficient,
        }
    }
}

/// The memory that a field of a listing gives, or none where it gives no
/// number.
pub open spec fn listed_memory(field: Seq<char>) -> u64 {
    match number::parsed(text::trimmed(field), u64::MAX as nat) {
        Some(memory) => memory as u64,
        None => 0,
    }
}

/// What a GPU is said to be by a line of the form `name, memory`.
pub open spec fn gpu_report(line: Seq<char>) -> Option<CudaReport> {
    match text::cut(line, ", "@) {
        Some((name, rest)) => {
            let field = match text::cut(rest, ", "@) {
                Some((field, _)) => field,
                None => rest,
            };
            let memory = listed_memory(field);
            Some(
                CudaReport {
                    available: true,
                    gpu_name: Some(text::trimmed(name)),
                    memory_mb: Some(memory),
                    sufficient: memory >= MIN_GPU_MEMORY_MB,
                },
            )
        },
        None => None,
    }
}

/// What is known of the CUDA of a host from the listing of its GPUs: that of
/// the first line, if it is readable.
pub open spec fn cuda_report(listing: Option<Seq<char>>) -> CudaReport {
    match listing {
        Some(listing) => {
            let unreadable = CudaReport {
                available: true,
                gpu_name: None,
                memory_mb: None,
                sufficient: false,
            };
            match text::first_line(text::trimmed(listing)) {
                Some(line) => match gpu_report(line) {
                    Some(report) => report,
                    None => unreadable,
                },
                None => unreadable,
            }
        },
        None => CudaReport { available: false, gpu_name: None, memory_mb: None, sufficient: false },
    }
}

fn gpu_status(line: &[char]) -> (res: Option<CudaStatus>)
    ensures
        res is Some <==> gpu_report(line@) is Some,
        res matches Some(status) ==> gpu_report(line@) == Some(status@),
{
    let separator = text::chars_of(", ");
    match text::cut_at(line, separator.as_slice()) {
        Some((name, rest)) => {
            let field = match text::cut_at(rest, separator.as_slice()) {
                Some((field, _)) => field,
                None => rest,
            };
            let memory_mb: u64 = match number::parse(text::trim(field), u64::MAX) {
                Some(memory_mb) => memory_mb,
                None => 0,
            };
            Some(
                CudaStatus {
                    available: true,
                    gpu_name: Some(text::string_of(text::trim(name))),
                    memory_mb: Some(memory_mb),
                    sufficient: memory_mb >= MIN_GPU_MEMORY_MB,
                },
            )
        },
        None => None,
    }
}

/// Reads a listing of GPUs, one `name, memory` line each.
pub fn cuda_status(listing: Option<&str>) -> (res: CudaStatus)
    ensures
        res@ == cuda_report(listing.deep_view()),
{
    match listing {
        Some(listing) => {
            let chars = text::chars_of(listing);
            if let Some(line) = text::first_line_of(text::trim(chars.as_slice())) {
                if let Some(status) = gpu_status(line) {
                    return status;
                }
            }
            CudaStatus { available: true, gpu_name: None, memory_mb: None, sufficient: false }
        },
        None => CudaStatus { available: false, gpu_name: None, memory_mb: None, sufficient: false },
    }
}

/// Checks CUDA availability from what `nvidia-smi` left behind when asked for
/// the names and the memory of the GPUs; `None` where it could not be run.
pub fn check_cuda_availability(output: &Option<CommandOutput>) -> (res: CudaStatus)
    ensures
        res@ == cuda_report(printed(*output)),
{
    match printed_text(output) {
        Some(listing) => cuda_status(Some(listing.as_str())),
        None => cuda_status(None),
    }
}

// Binaries

/// The path that a search for a binary printed, if it printed one.
pub open spec fn found_path(answer: Seq<char>) -> Option<Seq<char>> {
    let path = text::trimmed(answer);
    if path.len() > 0 {
        Some(path)
    } else {
        None
    }
}

/// Reads the answer of a search for a binary.
pub fn binary_path(answer: &str) -> (res: Option<String>)
    ensures
        res.deep_view() == found_path(answer@),
{
    let chars = text::chars_of(answer);
    let path = text::trim(chars.as_slice());
    if path.len() > 0 {
        Some(text::string_of(path))
    } else {
        None
    }
}

/// Finds a binary in what `which` left behind when asked for it; `None` where
/// it could not be run.
pub fn check_binary_available(output: &Option<CommandOutput>) -> (res: Option<String>)
    ensures
        res.deep_view() == (match printed(*output) {
            Some(answer) => found_path(answer),
            None => None,
        }),
{
    match printed_text(output) {
        Some(answer) => binary_path(answer.as_str()),
        None => None,
    }
}

/// Whatever the commands left behind, a report that Python is sufficient also
/// says that it is available.
pub proof fn law_sufficient_python_is_available(
    outputs: Seq<Option<CommandOutput>>,
)
    ensures
        python_step(outputs) matches PythonAction::Report(report)
            ==> (report.sufficient ==> report.available),
    decreases outputs.len(),
{
    if outputs.len() > 0 {
        law_sufficient_python_is_available(outputs.drop_first());
    }
}

/// Whatever the listing of the GPUs, a report that CUDA is sufficient also says
/// that it is available, and on how much memory that rests.
pub proof fn law_sufficient_cuda_is_available(listing: Option<Seq<char>>)
    ensures
        cuda_report(listing).sufficient ==> {
            &&& cuda_report(listing).available
            &&& cuda_report(listing).memory_mb matches Some(memory)
            &&& memory >= MIN_GPU_MEMORY_MB
        },
{
}

} // verus!
