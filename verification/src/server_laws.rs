//! What the probes of servers and the judgement of a host come to, whatever is
//! answered and reported.
use crate::detect::{CudaReport, PythonReport};
use crate::json;
use crate::number;
use crate::probe;
use crate::probe::ProbeAction;
use crate::status::HttpStatus;
use crate::text;
use crate::text_laws;
use crate::voxtral;
use vstd::prelude::*;

verus! {

// Probes

/// Whether one of the replies has a status from 200 to 299.
pub open spec fn any_success(replies: Seq<Option<HttpStatus>>) -> bool {
    exists|i: int|
        0 <= i < replies.len() && (#[trigger] replies[i] matches Some(status) && 200 <= status@
            < 300)
}

/// A probe asks one URL after the other until one answers with a success: then,
/// and only then, the server is up, and it is down when none is left.
pub proof fn law_probe_asks_until_a_success(urls: Seq<Seq<char>>, replies: Seq<Option<HttpStatus>>)
    ensures
        match probe::probe_step(urls, replies) {
            ProbeAction::Done(up) => up == any_success(replies) && (up || replies.len()
                >= urls.len()),
            ProbeAction::Get(url) => !any_success(replies) && replies.len() < urls.len() && url
                == urls[replies.len() as int],
        },
{
    if any_success(replies) {
        let i = choose|i: int|
            0 <= i < replies.len() && (#[trigger] replies[i] matches Some(status) && 200 <= status@
                < 300);
        assert(probe::is_alive(replies[i]));
    }
    if probe::any_alive(replies) {
        let i = choose|i: int| 0 <= i < replies.len() && probe::is_alive(#[trigger] replies[i]);
        assert(replies[i] matches Some(status) && 200 <= status@ < 300);
    }
}

/// A vLLM-Omni server is asked for its health at the root, which is the endpoint
/// without its version, and for its voices at the endpoint.
pub proof fn law_health_is_asked_at_the_root(root: Seq<char>, slashes: nat)
    ensures
        probe::voxcpm_urls(root + "/v1"@ + Seq::new(slashes, |i: int| '/')) == seq![
            root + "/health"@,
            root + "/v1"@ + "/audio/voices"@,
        ],
{
    reveal_strlit("/v1");
    let base = root + "/v1"@;
    assert(base.last() == '1');
    text_laws::law_trailing_copies_are_dropped(base, '/', slashes);
    assert(base.skip(base.len() - 3) == "/v1"@);
    assert(base.take(base.len() - 3) == root);
}

/// An endpoint without a version is its own root.
pub proof fn law_unversioned_endpoint_is_its_root(base: Seq<char>, slashes: nat)
    requires
        base.len() > 0 ==> base.last() != '/',
        forall|root: Seq<char>| base != #[trigger] (root + "/v1"@),
    ensures
        probe::voxcpm_urls(base + Seq::new(slashes, |i: int| '/')) == seq![
            base + "/health"@,
            base + "/audio/voices"@,
        ],
{
    text_laws::law_trailing_copies_are_dropped(base, '/', slashes);
    if text::ends_with(base, "/v1"@) {
        let n = base.len() - "/v1"@.len();
        assert(base == base.take(n) + "/v1"@);
    }
}

/// A vLLM server is asked for its health right behind its endpoint, whatever the
/// endpoint is.
pub proof fn law_vllm_health_is_behind_the_endpoint(base: Seq<char>, slashes: nat)
    requires
        base.len() > 0 ==> base.last() != '/',
    ensures
        probe::vllm_urls(base + Seq::new(slashes, |i: int| '/')) == seq![base + "/health"@],
{
    text_laws::law_trailing_copies_are_dropped(base, '/', slashes);
}

// Compatibility

/// A host is compatible exactly if it runs Linux on x86-64 with a sufficient
/// Python and a sufficient GPU.
pub proof fn law_compatible_host_meets_every_requirement(
    os: Seq<char>,
    arch: Seq<char>,
    python: PythonReport,
    cuda: CudaReport,
)
    ensures
        voxtral::is_compatible("linux"@, "x86_64"@, python, cuda) <==> python.sufficient
            && cuda.sufficient,
        os != "linux"@ || arch != "x86_64"@ ==> !voxtral::is_compatible(os, arch, python, cuda),
{
}

/// Whether a report finds a Python that is sufficient.
pub open spec fn is_good_python(python: PythonReport) -> bool {
    python.available && python.sufficient
}

/// Whether a report finds a GPU that is sufficient.
pub open spec fn is_good_cuda(cuda: CudaReport) -> bool {
    cuda.available && cuda.sufficient
}

proof fn lemma_platforms()
    ensures
        "linux"@ != "macos"@,
        "linux"@ != "windows"@,
        "macos"@ != "windows"@,
        "x86_64"@ != "aarch64"@,
{
    reveal_strlit("linux");
    reveal_strlit("macos");
    reveal_strlit("windows");
    reveal_strlit("x86_64");
    reveal_strlit("aarch64");
    assert("linux"@[0] == 'l' && "macos"@[0] == 'm' && "windows"@[0] == 'w');
    assert("x86_64"@[0] == 'x' && "aarch64"@[0] == 'a');
}

/// The reasons are those of the system, the processor, Python and the GPU, in
/// that order, each given as if the rest were in order.
pub proof fn law_reasons_add_up(
    os: Seq<char>,
    arch: Seq<char>,
    python: PythonReport,
    cuda: CudaReport,
    good_python: PythonReport,
    good_cuda: CudaReport,
)
    requires
        is_good_python(good_python),
        is_good_cuda(good_cuda),
    ensures
        voxtral::reasons(os, arch, python, cuda) == voxtral::reasons(
            os,
            "x86_64"@,
            good_python,
            good_cuda,
        ) + voxtral::reasons("linux"@, arch, good_python, good_cuda) + voxtral::reasons(
            "linux"@,
            "x86_64"@,
            python,
            good_cuda,
        ) + voxtral::reasons("linux"@, "x86_64"@, good_python, cuda),
        voxtral::reasons("linux"@, "x86_64"@, good_python, good_cuda) == Seq::<Seq<char>>::empty(),
{
    lemma_platforms();
    let none = Seq::<Seq<char>>::empty();
    assert(voxtral::os_reasons("linux"@) == none);
    assert(voxtral::arch_reasons("x86_64"@) == none);
    assert(voxtral::python_reasons(good_python) == none);
    assert(voxtral::cuda_reasons(good_cuda) == none);
    assert(voxtral::reasons(os, "x86_64"@, good_python, good_cuda) == voxtral::os_reasons(os));
    assert(voxtral::reasons("linux"@, arch, good_python, good_cuda) == voxtral::arch_reasons(arch));
    assert(voxtral::reasons("linux"@, "x86_64"@, python, good_cuda) == voxtral::python_reasons(
        python,
    ));
    assert(voxtral::reasons("linux"@, "x86_64"@, good_python, cuda) == voxtral::cuda_reasons(cuda));
}

/// What is said of a system and of a processor where the rest is in order.
pub proof fn law_platform_reasons(
    os: Seq<char>,
    arch: Seq<char>,
    good_python: PythonReport,
    good_cuda: CudaReport,
)
    requires
        is_good_python(good_python),
        is_good_cuda(good_cuda),
    ensures
        ({
            let said = voxtral::reasons(os, "x86_64"@, good_python, good_cuda);
            &&& os == "macos"@ ==> said == seq![
                "vLLM has limited macOS support. Linux is recommended."@,
            ]
            &&& os == "windows"@ ==> said == seq!["vLLM requires WSL2 on Windows."@]
            &&& os != "macos"@ && os != "windows"@ ==> said.len() == 0
        }),
        ({
            let said = voxtral::reasons("linux"@, arch, good_python, good_cuda);
            &&& arch == "aarch64"@ ==> said == seq!["ARM64 has limited CUDA/vLLM support."@]
            &&& arch != "aarch64"@ ==> said.len() == 0
        }),
{
    lemma_platforms();
}

/// What is said of Python and of the GPU where the rest is in order.
pub proof fn law_tool_reasons(
    python: PythonReport,
    cuda: CudaReport,
    good_python: PythonReport,
    good_cuda: CudaReport,
)
    requires
        is_good_python(good_python),
        is_good_cuda(good_cuda),
    ensures
        ({
            let said = voxtral::reasons("linux"@, "x86_64"@, python, good_cuda);
            &&& !python.available ==> said == seq!["Python is not installed. Install Python 3.10+."@]
            &&& python.available && !python.sufficient ==> (python.version matches Some(version)
                ==> said == seq!["Python "@ + version + " is too old. Python 3.10+ required."@])
            &&& python.available && !python.sufficient && python.version is None ==> said == seq![
                "Python "@ + "unknown"@ + " is too old. Python 3.10+ required."@,
            ]
            &&& python.available && python.sufficient ==> said.len() == 0
        }),
        ({
            let said = voxtral::reasons("linux"@, "x86_64"@, good_python, cuda);
            &&& !cuda.available ==> said == seq![
                "No NVIDIA GPU detected. CUDA GPU with 10GB+ VRAM required."@,
            ]
            &&& cuda.available && !cuda.sufficient ==> (cuda.memory_mb matches Some(memory) ==> said
                == seq![
                "GPU has "@ + number::decimal(memory as nat)
                    + "MB VRAM. 10GB+ recommended for Voxtral."@,
            ])
            &&& cuda.available && !cuda.sufficient && cuda.memory_mb is None ==> said == seq![
                "GPU has "@ + number::decimal(0) + "MB VRAM. 10GB+ recommended for Voxtral."@,
            ]
            &&& cuda.available && cuda.sufficient ==> said.len() == 0
        }),
{
    lemma_platforms();
}

// Reports as JSON

proof fn lemma_member_keys()
    ensures
        "available"@ != "version"@,
        "available"@ != "sufficient"@,
        "available"@ != "gpu_name"@,
        "available"@ != "memory_mb"@,
        "version"@ != "sufficient"@,
        "gpu_name"@ != "memory_mb"@,
        "gpu_name"@ != "sufficient"@,
        "memory_mb"@ != "sufficient"@,
{
    reveal_strlit("available");
    reveal_strlit("version");
    reveal_strlit("sufficient");
    reveal_strlit("gpu_name");
    reveal_strlit("memory_mb");
    assert("available"@[0] == 'a' && "version"@[0] == 'v' && "sufficient"@[0] == 's');
    assert("gpu_name"@[0] == 'g' && "memory_mb"@[0] == 'm');
}

/// A report on Python has these members and no others.
pub proof fn law_python_report_has_members(python: PythonReport, key: Seq<char>)
    ensures
        ({
            let members = voxtral::python_members(python);
            &&& members.contains_key(key) <==> key == "available"@ || key == "version"@ || key
                == "sufficient"@
            &&& json::bool_member(members, "available"@) == Some(python.available)
            &&& json::bool_member(members, "sufficient"@) == Some(python.sufficient)
            &&& python.version matches Some(version) ==> json::text_member(members, "version"@)
                == Some(version)
            &&& python.version is None ==> members["version"@] is Null
        }),
{
    lemma_member_keys();
}

/// A report on CUDA has these members and no others.
pub proof fn law_cuda_report_has_members(cuda: CudaReport, key: Seq<char>)
    ensures
        ({
            let members = voxtral::cuda_members(cuda);
            &&& members.contains_key(key) <==> key == "available"@ || key == "gpu_name"@ || key
                == "memory_mb"@ || key == "sufficient"@
            &&& json::bool_member(members, "available"@) == Some(cuda.available)
            &&& json::bool_member(members, "sufficient"@) == Some(cuda.sufficient)
            &&& cuda.gpu_name matches Some(name) ==> json::text_member(members, "gpu_name"@)
                == Some(name)
            &&& cuda.gpu_name is None ==> members["gpu_name"@] is Null
            &&& cuda.memory_mb matches Some(memory) ==> json::unsigned_member(
                members,
                "memory_mb"@,
            ) == Some(memory)
            &&& cuda.memory_mb is None ==> members["memory_mb"@] is Null
        }),
{
    lemma_member_keys();
}

/// A report is read by its members alone, whatever other members there are: a
/// flag is set exactly if it is there and true, and a text or a number is there
/// exactly if its member is of that kind.
pub proof fn law_report_is_read_by_members(members: json::JsonMembers)
    ensures
        ({
            let python = voxtral::python_in(members);
            let cuda = voxtral::cuda_in(members);
            let available = members.contains_key("available"@) && (
            members["available"@] matches json::JsonScalar::Bool(flag) && flag);
            let sufficient = members.contains_key("sufficient"@) && (
            members["sufficient"@] matches json::JsonScalar::Bool(flag) && flag);
            &&& python.available == available && cuda.available == available
            &&& python.sufficient == sufficient && cuda.sufficient == sufficient
            &&& python.version == (if members.contains_key("version"@) {
                match members["version"@] {
                    json::JsonScalar::Text(text) => Some(text),
                    _ => None,
                }
            } else {
                None
            })
            &&& cuda.gpu_name == (if members.contains_key("gpu_name"@) {
                match members["gpu_name"@] {
                    json::JsonScalar::Text(text) => Some(text),
                    _ => None,
                }
            } else {
                None
            })
            &&& cuda.memory_mb == (if members.contains_key("memory_mb"@) {
                match members["memory_mb"@] {
                    json::JsonScalar::Unsigned(number) => Some(number),
                    _ => None,
                }
            } else {
                None
            })
        }),
{
}

/// A JSON object is read by its members; any other value reports nothing.
pub proof fn law_only_objects_report(value: serde_json::Value)
    ensures
        json::json_is_object(value) ==> voxtral::reported_python(value) == voxtral::python_in(
            json::json_members(value),
        ),
        json::json_is_object(value) ==> voxtral::reported_cuda(value) == voxtral::cuda_in(
            json::json_members(value),
        ),
        !json::json_is_object(value) ==> ({
            let python = voxtral::reported_python(value);
            let cuda = voxtral::reported_cuda(value);
            &&& !python.available && python.version is None && !python.sufficient
            &&& !cuda.available && cuda.gpu_name is None && cuda.memory_mb is None
            &&& !cuda.sufficient
        }),
{
}

} // verus!
