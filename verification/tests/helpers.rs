use basket::util::helpers::{
    current_user_with, detect_user_shell_with, is_history_read, max_distance, ShellType,
};

#[test]
fn detects_bash_history_path() {
    let home = "/tmp/basket_helpers_bash".to_string();
    match detect_user_shell_with(Some("/bin/bash".to_string()), Some(home.clone())) {
        ShellType::BASH(path) => assert_eq!(path, format!("{}/.bash_history", home)),
        _ => panic!("expected bash shell"),
    }
}

#[test]
fn detects_zsh_history_path() {
    let home = "/tmp/basket_helpers_zsh".to_string();
    match detect_user_shell_with(Some("/bin/zsh".to_string()), Some(home.clone())) {
        ShellType::ZSH(path) => assert_eq!(path, format!("{}/.zsh_history", home)),
        _ => panic!("expected zsh shell"),
    }
}

#[test]
fn max_distance_scales_with_length() {
    assert_eq!(max_distance("ls"), 1);
    assert_eq!(max_distance("abcdef"), 2);
    assert_eq!(max_distance("verylongcommand"), 3);
}

#[test]
fn current_user_prefers_user_env() {
    assert_eq!(
        current_user_with(Some("basket-user".to_string()), Some("basket-log".to_string())),
        "basket-user"
    );
}

#[test]
fn current_user_falls_back_to_logname() {
    assert_eq!(current_user_with(None, Some("basket-log".to_string())), "basket-log");
}

#[test]
fn current_user_defaults_to_unknown() {
    assert_eq!(current_user_with(None, None), "unknown");
}

#[test]
fn detect_user_shell_defaults_to_zsh() {
    match detect_user_shell_with(None, Some("/tmp".to_string())) {
        ShellType::ZSH(path) => assert_eq!(path, "/tmp/.zsh_history"),
        _ => panic!("expected zsh shell"),
    }
}

#[test]
fn is_history_read_tracks_empty_and_non_empty_db() {
    let empty: Result<u32, String> = Err("No entries found".to_string());
    assert!(!is_history_read(&empty));
    let found: Result<u32, String> = Ok(1);
    assert!(is_history_read(&found));
}

#[test]
fn max_distance_counts_bytes() {
    assert_eq!(max_distance(""), 1);
    assert_eq!(max_distance("abcd"), 1);
    assert_eq!(max_distance("abcde"), 2);
    assert_eq!(max_distance("abcdefgh"), 2);
    assert_eq!(max_distance("abcdefghi"), 3);
    // Three characters of two bytes each are six bytes.
    assert_eq!(max_distance("äöü"), 2);
}

#[test]
fn missing_home_uses_placeholder() {
    match detect_user_shell_with(Some("/usr/local/bin/bash".to_string()), None) {
        ShellType::BASH(path) => assert_eq!(path, "/home/unknown/.bash_history"),
        _ => panic!("expected bash shell"),
    }
}
