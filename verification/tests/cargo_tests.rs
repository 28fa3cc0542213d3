//! Parsing the build toolchain's output, and the dependency check.

use docmd::cargo_out::{Dependency, Metadata, Package, parse_generated_output, validate_dependency};

#[test]
fn parse_generated_output_extracts_directory_path() {
    let stdout = "  Documenting serde v1.0.193 (/path/to/serde)\n   Generated /home/user/project/target/doc/serde/index.html\n";
    let result = parse_generated_output(stdout);
    assert!(result.is_ok());
    let path = result.unwrap();
    assert_eq!(path, "/home/user/project/target/doc/serde");
}

#[test]
fn parse_generated_output_handles_hyphens_to_underscores() {
    let stdout = "  Documenting rustdoc-types v0.57.0\n   Generated /home/user/project/target/doc/rustdoc_types/index.html\n";
    let result = parse_generated_output(stdout);
    assert!(result.is_ok());
    let path = result.unwrap();
    assert_eq!(path, "/home/user/project/target/doc/rustdoc_types");
}

#[test]
fn parse_generated_output_returns_error_without_generated_line() {
    let stdout = "  Documenting serde v1.0.193\n  some other output\n";
    let result = parse_generated_output(stdout);
    assert!(result.is_err());
}

#[test]
fn parse_generated_output_handles_multiple_lines() {
    let stdout = "line 1\nline 2\n   Generated /path/to/doc/index.html\nline 4\n";
    let result = parse_generated_output(stdout);
    assert!(result.is_ok());
    let path = result.unwrap();
    assert_eq!(path, "/path/to/doc");
}

fn sample_metadata() -> Metadata {
    Metadata {
        packages: vec![
            Package {
                dependencies: vec![
                    Dependency { name: "serde".to_string() },
                    Dependency { name: "rustdoc-types".to_string() },
                ],
            },
        ],
        target_directory: "/target".to_string(),
    }
}

#[test]
fn dependency_check_accepts_installed_crate() {
    let metadata = sample_metadata();
    assert!(validate_dependency(&metadata, "serde").is_ok());
}

#[test]
fn dependency_check_rejects_unknown_crate_with_available_list() {
    let metadata = sample_metadata();
    let result = validate_dependency(&metadata, "unknown");
    assert!(result.is_err());
    let msg = result.unwrap_err().message();
    assert!(msg.contains("Crate 'unknown' is not an installed dependency."));
    assert!(msg.contains("Available crates: serde, rustdoc-types"));
    assert!(msg.contains("Only installed dependencies can be built."));
}
