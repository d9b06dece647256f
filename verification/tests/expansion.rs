use gpu_dispatch::errors::{GpuError, IncludeFail};
use gpu_dispatch::shaders::expand_includes_runtime;

fn files(entries: &[(&str, &str)]) -> Vec<(Vec<u8>, Vec<u8>)> {
    entries
        .iter()
        .map(|(p, c)| (p.as_bytes().to_vec(), c.as_bytes().to_vec()))
        .collect()
}

fn expand(src: &str, base: &str, dirs: &[&str], table: &[(&str, &str)]) -> Result<Vec<u8>, GpuError> {
    let dirs: Vec<Vec<u8>> = dirs.iter().map(|d| d.as_bytes().to_vec()).collect();
    expand_includes_runtime(
        &src.as_bytes().to_vec(),
        &base.as_bytes().to_vec(),
        &dirs,
        &files(table),
    )
}

#[test]
fn source_without_includes_passes_through_line_by_line() {
    let out = expand("line1\nline2", "", &[], &[]).unwrap();
    assert_eq!(out, b"line1\nline2\n".to_vec());
    let empty = expand("", "", &[], &[]).unwrap();
    assert_eq!(empty, b"".to_vec());
}

#[test]
fn include_is_replaced_by_the_file_contents() {
    let out = expand(
        "top\n#include \"util.h\"\nbottom",
        "lib",
        &[],
        &[("lib/util.h", "helper")],
    )
    .unwrap();
    assert_eq!(out, b"top\nhelper\n\nbottom\n".to_vec());
}

#[test]
fn include_found_in_an_extra_include_directory() {
    let out = expand(
        "#include \"common.h\"",
        "shaders",
        &["ws/utils"],
        &[("ws/utils/common.h", "c")],
    )
    .unwrap();
    assert_eq!(out, b"c\n\n".to_vec());
}

#[test]
fn includes_resolve_relative_to_the_including_file() {
    let out = expand(
        "#include \"a.h\"",
        "lib",
        &[],
        &[("lib/a.h", "#include \"b.h\""), ("lib/b.h", "bee")],
    )
    .unwrap();
    assert_eq!(out, b"bee\n\n\n".to_vec());
}

#[test]
fn the_including_files_directory_wins_over_extra_directories() {
    let out = expand(
        "#include \"x.h\"",
        "lib",
        &["other"],
        &[("lib/x.h", "near"), ("other/x.h", "far")],
    )
    .unwrap();
    assert_eq!(out, b"near\n\n".to_vec());
}

#[test]
fn missing_include_fails_with_the_name() {
    let r = expand("#include \"missing.h\"", "lib", &[], &[]);
    match r {
        Err(GpuError::IncludeResolutionFailure { fail: IncludeFail::NotFound { name } }) => {
            assert_eq!(name, b"missing.h".to_vec());
        },
        other => panic!("expected a not-found failure, got {:?}", other),
    }
}

#[test]
fn direct_self_include_fails_with_a_circular_failure() {
    let r = expand(
        "#include \"a.h\"",
        "",
        &[],
        &[("a.h", "#include \"a.h\"")],
    );
    match r {
        Err(GpuError::IncludeResolutionFailure { fail: IncludeFail::Circular { path } }) => {
            assert_eq!(path, b"a.h".to_vec());
        },
        other => panic!("expected a circular failure, got {:?}", other),
    }
}

#[test]
fn transitive_circular_include_fails_too() {
    let r = expand(
        "#include \"a.h\"",
        "",
        &[],
        &[("a.h", "#include \"b.h\""), ("b.h", "#include \"a.h\"")],
    );
    assert!(matches!(
        r,
        Err(GpuError::IncludeResolutionFailure { fail: IncludeFail::Circular { .. } })
    ));
}

#[test]
fn a_file_may_be_included_twice_without_being_circular() {
    let out = expand(
        "#include \"u.h\"\n#include \"u.h\"",
        "",
        &[],
        &[("u.h", "u")],
    )
    .unwrap();
    assert_eq!(out, b"u\n\nu\n\n".to_vec());
}

#[test]
fn only_the_double_quote_form_is_recognized() {
    let table = [("sys.h", "s")];
    let angle = expand("#include <sys.h>", "", &[], &table).unwrap();
    assert_eq!(angle, b"#include <sys.h>\n".to_vec());
    let single = expand("#include 'sys.h'", "", &[], &table).unwrap();
    assert_eq!(single, b"#include 'sys.h'\n".to_vec());
}

#[test]
fn trailing_text_after_the_quoted_name_is_not_a_directive() {
    let out = expand("#include \"u.h\" // note", "", &[], &[("u.h", "u")]).unwrap();
    assert_eq!(out, b"#include \"u.h\" // note\n".to_vec());
}

#[test]
fn a_three_level_chain_flattens_inside_out() {
    let out = expand(
        "#include \"a.h\"",
        "d",
        &[],
        &[("d/a.h", "#include \"b.h\""), ("d/b.h", "#include \"c.h\""), ("d/c.h", "core")],
    )
    .unwrap();
    assert_eq!(out, b"core\n\n\n\n".to_vec());
}

#[test]
fn crlf_lines_flatten_to_lf() {
    let out = expand("a\r\nb\r", "", &[], &[]).unwrap();
    assert_eq!(out, b"a\nb\n".to_vec());
    let with_include = expand("#include \"u.h\"\r\ntail", "", &[], &[("u.h", "u")]).unwrap();
    assert_eq!(with_include, b"u\n\ntail\n".to_vec());
}

#[test]
fn directive_whitespace_is_tolerated() {
    let out = expand("  #include   \"u.h\"  ", "", &[], &[("u.h", "u")]).unwrap();
    assert_eq!(out, b"u\n\n".to_vec());
}
