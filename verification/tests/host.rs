use moltis_voice::detect::{
    binary_path, check_binary_available, check_cuda_availability, check_python_version,
    cuda_status, python_status, CommandOutput, CudaStatus, PythonStatus, PythonStep,
};
use moltis_voice::number::{parse, to_decimal};
use moltis_voice::probe::{
    check_coqui_server, check_vllm_server, check_voxcpm_server, ProbeStep,
};
use moltis_voice::status::HttpStatus;
use moltis_voice::text::{chars_of, first_line_of, split, string_of, trim, white_space};
use moltis_voice::voxtral::{
    check_voxtral_compatibility, cuda_from_json, cuda_to_json, python_from_json, python_to_json,
    voxtral_compatibility,
};

fn ran(success: bool, stdout: &[u8]) -> Option<CommandOutput> {
    Some(CommandOutput { success, stdout: stdout.to_vec() })
}

fn python(version: &str, sufficient: bool) -> PythonStatus {
    PythonStatus { available: true, version: Some(version.into()), sufficient }
}

fn cuda(memory_mb: u64, sufficient: bool) -> CudaStatus {
    CudaStatus {
        available: true,
        gpu_name: Some("RTX".into()),
        memory_mb: Some(memory_mb),
        sufficient,
    }
}

fn report(step: PythonStep) -> (bool, Option<String>, bool) {
    match step {
        PythonStep::Report(status) => (status.available, status.version, status.sufficient),
        PythonStep::Run(command) => panic!("expected a report, not {command}"),
    }
}

fn asked(step: PythonStep) -> &'static str {
    match step {
        PythonStep::Run(command) => command,
        PythonStep::Report(_) => panic!("expected a command"),
    }
}

#[test]
fn python_commands_are_tried_in_order() {
    assert_eq!(asked(check_python_version(&vec![])), "python3");
    assert_eq!(asked(check_python_version(&vec![None])), "python");
    assert_eq!(asked(check_python_version(&vec![ran(false, b"Python 3.12.0\n")])), "python");
    assert_eq!(asked(check_python_version(&vec![ran(true, b"something else")])), "python");
    assert_eq!(
        report(check_python_version(&vec![None, None])),
        (false, None, false)
    );
    assert_eq!(
        report(check_python_version(&vec![ran(true, b"Python 3.11.4\n")])),
        (true, Some("3.11.4".into()), true)
    );
    assert_eq!(
        report(check_python_version(&vec![ran(true, b"huh"), ran(true, b"Python 2.7.18\n")])),
        (true, Some("2.7.18".into()), false)
    );
    // Bytes that are not text are replaced, not rejected.
    assert_eq!(
        report(check_python_version(&vec![ran(true, b"Python 3.\xff")])),
        (true, Some("3.\u{fffd}".into()), false)
    );
}

#[test]
fn python_versions_are_compared_by_their_numbers() {
    let sufficient = |answer: &str| python_status(answer).expect("an answer").sufficient;
    assert!(sufficient("Python 3.10"));
    assert!(sufficient("Python 3.10.0rc1"));
    assert!(sufficient("Python 4.0.0"));
    assert!(!sufficient("Python 3.9.18"));
    assert!(!sufficient("Python 3.10rc1"));
    assert!(!sufficient("Python 3"));
    assert!(!sufficient("Python 2.99"));
    assert!(!sufficient("Python "));
    assert!(!sufficient("Python 3.99999999999"));
    assert!(sufficient("Python +3.+10"));
    assert!(python_status("python 3.10").is_none());
    assert!(python_status("").is_none());
}

#[test]
fn gpus_are_read_from_the_first_line() {
    let status = check_cuda_availability(&ran(true, b" RTX 4090, 24564\r\nGTX, 100\n"));
    assert!(status.available);
    assert_eq!(status.gpu_name.as_deref(), Some("RTX 4090"));
    assert_eq!(status.memory_mb, Some(24564));
    assert!(status.sufficient);

    let status = cuda_status(Some("A, 9999, x"));
    assert_eq!((status.memory_mb, status.sufficient), (Some(9999), false));
    let status = cuda_status(Some("A, 10000"));
    assert_eq!((status.memory_mb, status.sufficient), (Some(10000), true));
    let status = cuda_status(Some("A, [N/A]"));
    assert_eq!((status.memory_mb, status.sufficient), (Some(0), false));
    let status = cuda_status(Some("A, 18446744073709551616"));
    assert_eq!(status.memory_mb, Some(0));

    for unreadable in ["", "  \n", "A,100", "A"] {
        let status = cuda_status(Some(unreadable));
        assert!(status.available && !status.sufficient);
        assert_eq!((status.gpu_name, status.memory_mb), (None, None));
    }
    for output in [None, ran(false, b"A, 20000")] {
        let status = check_cuda_availability(&output);
        assert!(!status.available && !status.sufficient);
        assert_eq!((status.gpu_name, status.memory_mb), (None, None));
    }
}

#[test]
fn binaries_are_found_by_their_path() {
    assert_eq!(
        check_binary_available(&ran(true, b"/usr/bin/piper\n")).as_deref(),
        Some("/usr/bin/piper")
    );
    assert_eq!(check_binary_available(&ran(true, b" \n")), None);
    assert_eq!(check_binary_available(&ran(false, b"/usr/bin/piper\n")), None);
    assert_eq!(check_binary_available(&None), None);
    assert_eq!(binary_path(" a b "), Some("a b".to_string()));
}

#[test]
fn compatible_host_has_no_reasons() {
    let (compatible, reasons) = check_voxtral_compatibility(
        "linux",
        "x86_64",
        &python_to_json(&python("3.11.0", true)),
        &cuda_to_json(&cuda(24564, true)),
    );
    assert!(compatible);
    assert!(reasons.is_empty());
}

#[test]
fn incompatible_host_is_told_why() {
    let (compatible, reasons) =
        voxtral_compatibility("macos", "aarch64", &python("3.9.1", false), &cuda(8000, false));
    assert!(!compatible);
    assert_eq!(
        reasons,
        vec![
            "vLLM has limited macOS support. Linux is recommended.",
            "ARM64 has limited CUDA/vLLM support.",
            "Python 3.9.1 is too old. Python 3.10+ required.",
            "GPU has 8000MB VRAM. 10GB+ recommended for Voxtral.",
        ]
    );
    let (compatible, reasons) = check_voxtral_compatibility(
        "windows",
        "x86_64",
        &serde_json::Value::Null,
        &serde_json::Value::from(3),
    );
    assert!(!compatible);
    assert_eq!(
        reasons,
        vec![
            "vLLM requires WSL2 on Windows.",
            "Python is not installed. Install Python 3.10+.",
            "No NVIDIA GPU detected. CUDA GPU with 10GB+ VRAM required.",
        ]
    );
    let (compatible, reasons) = voxtral_compatibility(
        "linux",
        "x86_64",
        &PythonStatus { available: true, version: None, sufficient: false },
        &CudaStatus { available: true, gpu_name: None, memory_mb: None, sufficient: false },
    );
    assert!(!compatible);
    assert_eq!(
        reasons,
        vec![
            "Python unknown is too old. Python 3.10+ required.",
            "GPU has 0MB VRAM. 10GB+ recommended for Voxtral.",
        ]
    );
    // Nothing is said of systems and processors that are not known.
    let (compatible, reasons) =
        voxtral_compatibility("freebsd", "riscv64", &python("3.11.0", true), &cuda(20000, true));
    assert!(!compatible);
    assert!(reasons.is_empty());
}

#[test]
fn reports_are_json_objects() {
    assert_eq!(
        python_to_json(&python("3.11.0", true)).to_string(),
        r#"{"available":true,"sufficient":true,"version":"3.11.0"}"#
    );
    assert_eq!(
        cuda_to_json(&cuda(24564, true)).to_string(),
        r#"{"available":true,"gpu_name":"RTX","memory_mb":24564,"sufficient":true}"#
    );
    let none = CudaStatus { available: false, gpu_name: None, memory_mb: None, sufficient: false };
    assert_eq!(
        cuda_to_json(&none).to_string(),
        r#"{"available":false,"gpu_name":null,"memory_mb":null,"sufficient":false}"#
    );
    let none = PythonStatus { available: false, version: None, sufficient: false };
    assert_eq!(
        python_to_json(&none).to_string(),
        r#"{"available":false,"sufficient":false,"version":null}"#
    );
}

#[test]
fn reports_are_read_back() {
    let back = python_from_json(&python_to_json(&python("3.9.1", false)));
    assert_eq!((back.available, back.sufficient), (true, false));
    assert_eq!(back.version.as_deref(), Some("3.9.1"));
    let back = cuda_from_json(&cuda_to_json(&cuda(7, false)));
    assert_eq!((back.available, back.sufficient), (true, false));
    assert_eq!((back.gpu_name.as_deref(), back.memory_mb), (Some("RTX"), Some(7)));
    // Members of another kind are taken as not there.
    let odd: serde_json::Value = serde_json::from_str(
        r#"{"available":"yes","version":3,"sufficient":1,"gpu_name":[],"memory_mb":-1}"#,
    )
    .expect("JSON");
    let back = python_from_json(&odd);
    assert_eq!((back.available, back.version, back.sufficient), (false, None, false));
    let back = cuda_from_json(&odd);
    assert_eq!((back.gpu_name, back.memory_mb), (None, None));
    let odd: serde_json::Value = serde_json::from_str(r#"{"memory_mb":1.0}"#).expect("JSON");
    assert_eq!(cuda_from_json(&odd).memory_mb, None);
}

fn status(code: u16) -> Option<HttpStatus> {
    HttpStatus::new(code)
}

fn url(step: ProbeStep) -> String {
    match step {
        ProbeStep::Get(url) => url,
        ProbeStep::Done(up) => panic!("done: {up}"),
    }
}

fn verdict(step: ProbeStep) -> bool {
    match step {
        ProbeStep::Done(up) => up,
        ProbeStep::Get(url) => panic!("next: {url}"),
    }
}

#[test]
fn voxcpm_server_is_probed_at_its_root_and_at_its_voices() {
    let endpoint = "http://localhost:8000/v1/";
    assert_eq!(url(check_voxcpm_server(endpoint, &vec![])), "http://localhost:8000/health");
    assert_eq!(
        url(check_voxcpm_server(endpoint, &vec![status(404)])),
        "http://localhost:8000/v1/audio/voices"
    );
    assert_eq!(
        url(check_voxcpm_server("http://a", &vec![None])),
        "http://a/audio/voices"
    );
    assert_eq!(url(check_voxcpm_server("http://a", &vec![])), "http://a/health");
    assert!(verdict(check_voxcpm_server(endpoint, &vec![status(200)])));
    assert!(verdict(check_voxcpm_server(endpoint, &vec![None, status(204)])));
    assert!(!verdict(check_voxcpm_server(endpoint, &vec![None, status(503)])));
}

#[test]
fn other_servers_are_probed_once() {
    assert_eq!(url(check_vllm_server("http://a//", &vec![])), "http://a/health");
    assert!(verdict(check_vllm_server("http://a", &vec![status(200)])));
    assert!(!verdict(check_vllm_server("http://a", &vec![status(500)])));
    assert_eq!(url(check_coqui_server("http://a/", &vec![])), "http://a/");
    assert!(verdict(check_coqui_server("http://a", &vec![status(200)])));
    assert!(!verdict(check_coqui_server("http://a", &vec![None])));
}

#[test]
fn white_space_is_that_of_unicode() {
    for c in '\0'..=char::MAX {
        assert_eq!(white_space(c), c.is_whitespace(), "{c:?}");
    }
}

#[test]
fn texts_are_cut_as_strings_are() {
    for text in ["", " a ", "\u{2003}a b\n", "   ", "a.b..c", ".", "x\r\ny", "\n", "x\r", "é.ü"] {
        let chars = chars_of(text);
        assert_eq!(string_of(&chars), text);
        assert_eq!(string_of(trim(&chars)), text.trim());
        let parts: Vec<String> = split(&chars, &['.']).iter().map(|p| string_of(p)).collect();
        assert_eq!(parts, text.split('.').collect::<Vec<_>>());
        assert_eq!(
            first_line_of(&chars).map(string_of),
            text.lines().next().map(|line| line.to_string())
        );
    }
}

#[test]
fn numbers_are_read_and_written_as_the_language_does() {
    for n in [0, 9, 10, 99, 100, 12345, u64::MAX] {
        assert_eq!(to_decimal(n), n.to_string());
        assert_eq!(parse(&chars_of(&to_decimal(n)), u64::MAX), Some(n));
    }
    for text in [
        "", "+", "-", "-0", "+7", "++7", "007", "1 ", "1a", "4294967295", "4294967296",
        "18446744073709551615", "18446744073709551616", "٣",
    ] {
        assert_eq!(parse(&chars_of(text), u32::MAX as u64), text.parse::<u32>().ok().map(u64::from));
        assert_eq!(parse(&chars_of(text), u64::MAX), text.parse::<u64>().ok());
    }
}

#[test]
fn values_that_are_no_objects_report_nothing() {
    for raw in ["null", "true", "7", "1.5", "\"available\"", "[]", "[{\"available\":true}]"] {
        let value: serde_json::Value = serde_json::from_str(raw).expect("JSON");
        let python = python_from_json(&value);
        assert_eq!((python.available, python.version, python.sufficient), (false, None, false));
        let cuda = cuda_from_json(&value);
        assert_eq!((cuda.available, cuda.sufficient), (false, false));
        assert_eq!((cuda.gpu_name, cuda.memory_mb), (None, None));
        let (compatible, reasons) =
            check_voxtral_compatibility("linux", "x86_64", &value, &value);
        assert!(!compatible);
        assert_eq!(
            reasons,
            vec![
                "Python is not installed. Install Python 3.10+.",
                "No NVIDIA GPU detected. CUDA GPU with 10GB+ VRAM required.",
            ]
        );
    }
}
