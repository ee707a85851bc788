use render_core::shader::{
    build_compute, build_graphics, compile_failure_report, include_requests, ShaderError, Stage,
};

fn contains(hay: &[u8], needle: &[u8]) -> bool {
    if needle.is_empty() {
        return true;
    }
    hay.windows(needle.len()).any(|w| w == needle)
}

fn flags(fs: &[&str]) -> Vec<Vec<u8>> {
    fs.iter().map(|f| f.as_bytes().to_vec()).collect()
}

#[test]
fn specialization_flags_become_macros_one_when_enabled() {
    let code = b"//!include\n//!specialization A B\nvoid main() {}\n".to_vec();
    let (vs, fs) = build_graphics(&code, &Vec::new(), &flags(&["A"])).unwrap();
    assert!(contains(&vs, b"#define A 1\n"));
    assert!(contains(&vs, b"#define B 0\n"));
    assert!(contains(&fs, b"#define A 1\n"));
    assert!(contains(&fs, b"#define B 0\n"));
}

#[test]
fn specialization_flags_all_zero_when_none_enabled() {
    let code = b"//!include\n//!specialization A B\nvoid main() {}\n".to_vec();
    let (vs, fs) = build_graphics(&code, &Vec::new(), &flags(&[])).unwrap();
    assert!(contains(&vs, b"#define A 0\n"));
    assert!(contains(&vs, b"#define B 0\n"));
    assert!(contains(&fs, b"#define A 0\n"));
    assert!(contains(&fs, b"#define B 0\n"));
}

#[test]
fn stage_headers_and_separator_are_emitted() {
    let code = b"// none\n// none\nbody\n".to_vec();
    let (vs, fs) = build_graphics(&code, &Vec::new(), &flags(&[])).unwrap();
    assert!(vs.starts_with(b"#version 450\n#define SHADER_VS\n"));
    assert!(fs.starts_with(b"#version 450\n#define SHADER_FS\n"));
    assert!(vs.ends_with(b"\n// none\n// none\nbody\n"));
}

#[test]
fn includes_are_routed_to_their_stage_in_order() {
    let code = b"//!include vs:quat fs:color\n// none\nbody\n".to_vec();
    let reqs = include_requests(&code, false).unwrap();
    assert_eq!(reqs.len(), 2);
    assert_eq!(reqs[0].target, Stage::Vs);
    assert_eq!(reqs[0].module, b"quat".to_vec());
    assert_eq!(reqs[1].target, Stage::Fs);
    assert_eq!(reqs[1].module, b"color".to_vec());
    let data = vec![b"// quat code\n".to_vec(), b"// color code\n".to_vec()];
    let (vs, fs) = build_graphics(&code, &data, &flags(&[])).unwrap();
    assert!(contains(&vs, b"// quat code\n"));
    assert!(!contains(&vs, b"// color code\n"));
    assert!(contains(&fs, b"// color code\n"));
    assert!(!contains(&fs, b"// quat code\n"));
}

#[test]
fn legacy_qualifiers_are_rewritten_per_stage() {
    let code = b"// none\n// none\nattribute vec4 p; varying vec2 uv;\n".to_vec();
    let (vs, fs) = build_graphics(&code, &Vec::new(), &flags(&[])).unwrap();
    assert!(contains(&vs, b"in vec4 p; out vec2 uv;\n"));
    assert!(contains(&fs, b"attribute vec4 p; in vec2 uv;\n"));
}

#[test]
fn unknown_include_target_is_an_error() {
    let code = b"//!include xs:foo\n// none\nbody\n".to_vec();
    match build_graphics(&code, &Vec::new(), &flags(&[])) {
        Err(ShaderError::UnknownTarget { directive }) => assert_eq!(directive, b"xs".to_vec()),
        _ => panic!("expected an unknown-target failure"),
    }
}

#[test]
fn compute_target_is_unknown_to_a_graphics_build_and_conversely() {
    let code = b"//!include cs:foo\n// none\nbody\n".to_vec();
    assert!(matches!(
        include_requests(&code, false),
        Err(ShaderError::UnknownTarget { .. })
    ));
    let code2 = b"//!include vs:foo\n// none\nbody\n".to_vec();
    assert!(matches!(
        include_requests(&code2, true),
        Err(ShaderError::UnknownTarget { .. })
    ));
}

#[test]
fn include_directive_without_module_name_is_an_error() {
    let code = b"//!include vs\n// none\nbody\n".to_vec();
    match include_requests(&code, false) {
        Err(ShaderError::MissingIncludeName { directive }) => assert_eq!(directive, b"vs".to_vec()),
        _ => panic!("expected a missing-name failure"),
    }
}

#[test]
fn compute_build_declares_the_workgroup_size() {
    let code = b"//!include cs:common\n//!specialization A\nvoid main() {}\n".to_vec();
    let data = vec![b"// common\n".to_vec()];
    let cs = build_compute(&code, &data, &flags(&["A"]), (8, 4, 1)).unwrap();
    assert!(cs.starts_with(b"#version 450\nlayout(local_size_x = 8, local_size_y = 4, local_size_z = 1) in;\n#define SHADER_CS\n"));
    assert!(contains(&cs, b"// common\n"));
    assert!(contains(&cs, b"#define A 1\n"));
}

#[test]
fn workgroup_sizes_render_in_decimal() {
    let code = b"// none\n// none\nvoid main() {}\n".to_vec();
    let cs = build_compute(&code, &Vec::new(), &flags(&[]), (256, 64, 10)).unwrap();
    assert!(contains(&cs, b"layout(local_size_x = 256, local_size_y = 64, local_size_z = 10) in;\n"));
}

#[test]
fn failure_report_numbers_lines_and_unescapes_the_log() {
    let report = compile_failure_report(
        &b"object".to_vec(),
        &b"line one\nline two".to_vec(),
        &b"bad\\nsyntax".to_vec(),
    );
    let expected =
        b"Generated shader:\n  1| line one\n  2| line two\n\nUnable to compile 'object': bad\nsyntax".to_vec();
    assert_eq!(String::from_utf8_lossy(&report), String::from_utf8_lossy(&expected));
}
