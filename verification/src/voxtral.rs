//! Whether a host can run Voxtral locally, and the reports on which that rests.
use crate::detect;
use crate::detect::{CudaStatus, PythonStatus};
use crate::json;
use crate::number;
use crate::text;
use vstd::prelude::*;

verus! {

/// Whether a host meets all the requirements.
pub open spec fn is_compatible(
    os: Seq<char>,
    arch: Seq<char>,
    python: detect::PythonReport,
    cuda: detect::CudaReport,
) -> bool {
    os == "linux"@ && arch == "x86_64"@ && python.sufficient && cuda.sufficient
}

/// What there is to say of the operating system.
pub open spec fn os_reasons(os: Seq<char>) -> Seq<Seq<char>> {
    if os == "macos"@ {
        seq!["vLLM has limited macOS support. Linux is recommended."@]
    } else if os == "windows"@ {
        seq!["vLLM requires WSL2 on Windows."@]
    } else {
        seq![]
    }
}

/// What there is to say of the processor.
pub open spec fn arch_reasons(arch: Seq<char>) -> Seq<Seq<char>> {
    if arch == "aarch64"@ {
        seq!["ARM64 has limited CUDA/vLLM support."@]
    } else {
        seq![]
    }
}

/// What there is to say of Python.
pub open spec fn python_reasons(python: detect::PythonReport) -> Seq<Seq<char>> {
    if !python.available {
        seq!["Python is not installed. Install Python 3.10+."@]
    } else if !python.sufficient {
        let version = match python.version {
            Some(version) => version,
            None => "unknown"@,
        };
        seq!["Python "@ + version + " is too old. Python 3.10+ required."@]
    } else {
        seq![]
    }
}

/// What there is to say of the GPU.
pub open spec fn cuda_reasons(cuda: detect::CudaReport) -> Seq<Seq<char>> {
    if !cuda.available {
        seq!["No NVIDIA GPU detected. CUDA GPU with 10GB+ VRAM required."@]
    } else if !cuda.sufficient {
        let memory = match cuda.memory_mb {
            Some(memory) => memory,
            None => 0,
        };
        seq![
            "GPU has "@ + number::decimal(memory as nat)
                + "MB VRAM. 10GB+ recommended for Voxtral."@,
        ]
    } else {
        seq![]
    }
}

/// What stands against running Voxtral on a host.
pub open spec fn reasons(
    os: Seq<char>,
    arch: Seq<char>,
    python: detect::PythonReport,
    cuda: detect::CudaReport,
) -> Seq<Seq<char>> {
    os_reasons(os) + arch_reasons(arch) + python_reasons(python) + cuda_reasons(cuda)
}

proof fn lemma_platforms_differ()
    ensures
        "linux"@ != "macos"@,
        "linux"@ != "windows"@,
        "x86_64"@ != "aarch64"@,
{
    reveal_strlit("linux");
    reveal_strlit("macos");
    reveal_strlit("windows");
    reveal_strlit("x86_64");
    reveal_strlit("aarch64");
    assert("linux"@[0] == 'l' && "macos"@[0] == 'm');
    assert("linux"@.len() == 5 && "windows"@.len() == 7);
    assert("x86_64"@.len() == 6 && "aarch64"@.len() == 7);
}

/// Adds a reason behind the others.
fn give(reasons: &mut Vec<String>, reason: String)
    ensures
        text::texts(final(reasons)@) == text::texts(old(reasons)@).push(reason@),
{
    reasons.push(reason);
    assert(text::texts(reasons@) == text::texts(old(reasons)@).push(reason@));
}

/// Decides whether a host meets the requirements, and says what stands against
/// it.
pub fn voxtral_compatibility(
    os: &str,
    arch: &str,
    python: &PythonStatus,
    cuda: &CudaStatus,
) -> (res: (bool, Vec<String>))
    ensures
        res.0 == is_compatible(os@, arch@, python@, cuda@),
        text::texts(res.1@) == reasons(os@, arch@, python@, cuda@),
{
    let mut found: Vec<String> = Vec::new();
    proof {
        lemma_platforms_differ();
        assert(text::texts(found@) == Seq::<Seq<char>>::empty());
    }

    // vLLM primarily supports Linux
    let os_ok = text::same_text(os, "linux");
    if !os_ok {
        if text::same_text(os, "macos") {
            give(
                &mut found,
                "vLLM has limited macOS support. Linux is recommended.".to_string(),
            );
        } else if text::same_text(os, "windows") {
            give(&mut found, "vLLM requires WSL2 on Windows.".to_string());
        }
    }
    assert(text::texts(found@) == os_reasons(os@));

    let arch_ok = text::same_text(arch, "x86_64");
    if !arch_ok && text::same_text(arch, "aarch64") {
        give(&mut found, "ARM64 has limited CUDA/vLLM support.".to_string());
    }
    assert(text::texts(found@) == os_reasons(os@) + arch_reasons(arch@));

    if !python.available {
        give(&mut found, "Python is not installed. Install Python 3.10+.".to_string());
    } else if !python.sufficient {
        let mut reason = "Python ".to_string();
        match &python.version {
            Some(version) => reason.append(version.as_str()),
            None => reason.append("unknown"),
        }
        reason.append(" is too old. Python 3.10+ required.");
        give(&mut found, reason);
    }
    assert(text::texts(found@) == os_reasons(os@) + arch_reasons(arch@) + python_reasons(python@));

    if !cuda.available {
        give(
            &mut found,
            "No NVIDIA GPU detected. CUDA GPU with 10GB+ VRAM required.".to_string(),
        );
    } else if !cuda.sufficient {
        let memory_mb: u64 = match cuda.memory_mb {
            Some(memory_mb) => memory_mb,
            None => 0,
        };
        let mut reason = "GPU has ".to_string();
        reason.append(number::to_decimal(memory_mb).as_str());
        reason.append("MB VRAM. 10GB+ recommended for Voxtral.");
        give(&mut found, reason);
    }
    assert(text::texts(found@) == reasons(os@, arch@, python@, cuda@));

    (os_ok && arch_ok && python.sufficient && cuda.sufficient, found)
}

// Reports as JSON

/// The members of a report on Python.
pub open spec fn python_members(python: detect::PythonReport) -> json::JsonMembers {
    json::JsonMembers::empty().insert(
        "available"@,
        json::JsonScalar::Bool(python.available),
    ).insert(
        "version"@,
        match python.version {
            Some(version) => json::JsonScalar::Text(version),
            None => json::JsonScalar::Null,
        },
    ).insert("sufficient"@, json::JsonScalar::Bool(python.sufficient))
}

/// The members of a report on CUDA.
pub open spec fn cuda_members(cuda: detect::CudaReport) -> json::JsonMembers {
    json::JsonMembers::empty().insert(
        "available"@,
        json::JsonScalar::Bool(cuda.available),
    ).insert(
        "gpu_name"@,
        match cuda.gpu_name {
            Some(name) => json::JsonScalar::Text(name),
            None => json::JsonScalar::Null,
        },
    ).insert(
        "memory_mb"@,
        match cuda.memory_mb {
            Some(memory) => json::JsonScalar::Unsigned(memory),
            None => json::JsonScalar::Null,
        },
    ).insert("sufficient"@, json::JsonScalar::Bool(cuda.sufficient))
}

/// What a JSON object says of Python; what it does not say is taken as not so.
pub open spec fn python_in(members: json::JsonMembers) -> detect::PythonReport {
    detect::PythonReport {
        available: json::bool_member(members, "available"@) == Some(true),
        version: json::text_member(members, "version"@),
        sufficient: json::bool_member(members, "sufficient"@) == Some(true),
    }
}

/// What a JSON object says of CUDA; what it does not say is taken as not so.
pub open spec fn cuda_in(members: json::JsonMembers) -> detect::CudaReport {
    detect::CudaReport {
        available: json::bool_member(members, "available"@) == Some(true),
        gpu_name: json::text_member(members, "gpu_name"@),
        memory_mb: json::unsigned_member(members, "memory_mb"@),
        sufficient: json::bool_member(members, "sufficient"@) == Some(true),
    }
}

/// What a JSON value reports on Python: nothing, where it is no object.
pub open spec fn reported_python(report: serde_json::Value) -> detect::PythonReport {
    if json::json_is_object(report) {
        python_in(json::json_members(report))
    } else {
        detect::no_python()
    }
}

/// What a JSON value reports on CUDA: nothing, where it is no object.
pub open spec fn reported_cuda(report: serde_json::Value) -> detect::CudaReport {
    if json::json_is_object(report) {
        cuda_in(json::json_members(report))
    } else {
        detect::cuda_report(None)
    }
}

fn get_flag(value: &serde_json::Value, key: &str) -> (res: bool)
    ensures
        res == (json::bool_member(json::json_members(*value), key@) == Some(true)),
        !json::json_is_object(*value) ==> !res,
{
    match json::get_bool(value, key) {
        Some(flag) => flag,
        None => false,
    }
}

/// Writes a report on Python as a JSON object.
pub fn python_to_json(python: &PythonStatus) -> (res: serde_json::Value)
    ensures
        json::json_is_object(res),
        json::json_members(res) == python_members(python@),
{
    let mut report = json::empty_object();
    json::set_bool(&mut report, "available", python.available);
    match &python.version {
        Some(version) => json::set_text(&mut report, "version", Some(version.as_str())),
        None => json::set_text(&mut report, "version", None),
    }
    json::set_bool(&mut report, "sufficient", python.sufficient);
    report
}

/// Writes a report on CUDA as a JSON object.
pub fn cuda_to_json(cuda: &CudaStatus) -> (res: serde_json::Value)
    ensures
        json::json_is_object(res),
        json::json_members(res) == cuda_members(cuda@),
{
    let mut report = json::empty_object();
    json::set_bool(&mut report, "available", cuda.available);
    match &cuda.gpu_name {
        Some(name) => json::set_text(&mut report, "gpu_name", Some(name.as_str())),
        None => json::set_text(&mut report, "gpu_name", None),
    }
    json::set_unsigned(&mut report, "memory_mb", cuda.memory_mb);
    json::set_bool(&mut report, "sufficient", cuda.sufficient);
    report
}

/// Reads a report on Python from JSON.
pub fn python_from_json(report: &serde_json::Value) -> (res: PythonStatus)
    ensures
        res@ == reported_python(*report),
{
    PythonStatus {
        available: get_flag(report, "available"),
        version: json::get_text(report, "version"),
        sufficient: get_flag(report, "sufficient"),
    }
}

/// Reads a report on CUDA from JSON.
pub fn cuda_from_json(report: &serde_json::Value) -> (res: CudaStatus)
    ensures
        res@ == reported_cuda(*report),
{
    CudaStatus {
        available: get_flag(report, "available"),
        gpu_name: json::get_text(report, "gpu_name"),
        memory_mb: json::get_unsigned(report, "memory_mb"),
        sufficient: get_flag(report, "sufficient"),
    }
}

/// Checks if the system meets the requirements of a local Voxtral, from the
/// reports on its Python and its CUDA.
pub fn check_voxtral_compatibility(
    os: &str,
    arch: &str,
    python: &serde_json::Value,
    cuda: &serde_json::Value,
) -> (res: (bool, Vec<String>))
    ensures
        res.0 == is_compatible(os@, arch@, reported_python(*python), reported_cuda(*cuda)),
        text::texts(res.1@) == reasons(
            os@,
            arch@,
            reported_python(*python),
            reported_cuda(*cuda),
        ),
{
    let python = python_from_json(python);
    let cuda = cuda_from_json(cuda);
    voxtral_compatibility(os, arch, &python, &cuda)
}

/// A report on Python is read back as it was written.
pub proof fn law_python_report_is_read_back(python: detect::PythonReport)
    ensures
        python_in(python_members(python)) == python,
{
    reveal_strlit("available");
    reveal_strlit("version");
    reveal_strlit("sufficient");
    assert("available"@.len() == 9 && "version"@.len() == 7 && "sufficient"@.len() == 10);
}

/// A report on CUDA is read back as it was written.
pub proof fn law_cuda_report_is_read_back(cuda: detect::CudaReport)
    ensures
        cuda_in(cuda_members(cuda)) == cuda,
{
    reveal_strlit("available");
    reveal_strlit("gpu_name");
    reveal_strlit("memory_mb");
    reveal_strlit("sufficient");
    assert("available"@.len() == 9 && "gpu_name"@.len() == 8 && "sufficient"@.len() == 10);
    assert("available"@[0] == 'a' && "memory_mb"@[0] == 'm');
}

/// Nothing is held against a compatible host: where what is sufficient is there,
/// a host that meets all the requirements gets no reasons.
pub proof fn law_compatible_host_has_no_reasons(
    os: Seq<char>,
    arch: Seq<char>,
    python: detect::PythonReport,
    cuda: detect::CudaReport,
)
    requires
        is_compatible(os, arch, python, cuda),
        python.sufficient ==> python.available,
        cuda.sufficient ==> cuda.available,
    ensures
        reasons(os, arch, python, cuda).len() == 0,
{
    lemma_platforms_differ();
}

/// A refusal is explained: a host that is not compatible gets at least one
/// reason, unless its system or its processor is one of which nothing is said.
pub proof fn law_incompatible_host_has_reasons(
    os: Seq<char>,
    arch: Seq<char>,
    python: detect::PythonReport,
    cuda: detect::CudaReport,
)
    requires
        !is_compatible(os, arch, python, cuda),
    ensures
        ({
            let known_os = os == "linux"@ || os == "macos"@ || os == "windows"@;
            let known_arch = arch == "x86_64"@ || arch == "aarch64"@;
            reasons(os, arch, python, cuda).len() > 0 || !known_os || !known_arch
        }),
{
}

/// A host of which nothing is reported is not compatible, and is told to install
/// Python and that no GPU was found.
pub proof fn law_missing_reports_are_reasons(
    os: Seq<char>,
    arch: Seq<char>,
    python: serde_json::Value,
    cuda: serde_json::Value,
)
    requires
        !json::json_is_object(python),
        !json::json_is_object(cuda),
    ensures
        !is_compatible(os, arch, reported_python(python), reported_cuda(cuda)),
        reasons(os, arch, reported_python(python), reported_cuda(cuda)) == os_reasons(os)
            + arch_reasons(arch) + seq!["Python is not installed. Install Python 3.10+."@] + seq![
            "No NVIDIA GPU detected. CUDA GPU with 10GB+ VRAM required."@,
        ],
{
}

} // verus!
