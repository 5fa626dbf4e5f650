use horto_os_ui_shared::remote::askpass::{askpass_secret, resolve_askpass, ASKPASS_NAMES};

#[test]
fn prompt_secret_errors_when_unset_and_no_path_askpass() {
    let none_found: Vec<Option<String>> = ASKPASS_NAMES.iter().map(|_| None).collect();
    let err = resolve_askpass(None, &none_found).unwrap_err().to_text();
    assert!(err.contains("No askpass program found"), "unexpected err: {err}");
    assert!(!err.contains("TUI/Desktop secrets"), "junk phrase must stay gone: {err}");
    assert!(!err.contains("eisonot"), "must be readable English with spaces: {err}");
    // A blank SSH_ASKPASS counts as unset.
    assert!(resolve_askpass(Some("  "), &none_found).is_err());
}

#[test]
fn prompt_secret_reads_askpass_stdout() {
    assert_eq!(askpass_secret(true, "test-secret").unwrap(), "test-secret");
}

#[test]
fn askpass_choice_and_secret_edges() {
    let found = vec![None, Some("/usr/bin/x11-ssh-askpass".to_owned()), Some("/usr/bin/ksshaskpass".to_owned())];
    assert_eq!(resolve_askpass(None, &found).unwrap(), "/usr/bin/x11-ssh-askpass");
    assert_eq!(resolve_askpass(Some(" /opt/ask "), &found).unwrap(), "/opt/ask");
    assert_eq!(askpass_secret(true, "s3cret\r\n\n").unwrap(), "s3cret");
    assert_eq!(askpass_secret(false, "s3cret").unwrap_err().to_text(), "Askpass cancelled or failed");
    assert_eq!(askpass_secret(true, "\n").unwrap_err().to_text(), "Askpass returned an empty secret");
}
