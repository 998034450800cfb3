use force::error::ForceError;

#[test]
fn error_messages() {
    assert_eq!(
        ForceError::NotFound.message(),
        ".force/ directory not found. Run 'force init' to create one."
    );
    assert_eq!(
        ForceError::ScriptFailed { name: "db".to_string(), code: 2, down: true }.message(),
        "Script 'db' down failed with exit code 2"
    );
    assert_eq!(
        ForceError::Parse { path: "/p/.force/x.toml".to_string(), detail: "oops".to_string() }
            .message(),
        "Failed to parse /p/.force/x.toml: oops"
    );
    assert_eq!(ForceError::Io { detail: "disk full".to_string() }.message(), "disk full");
}
