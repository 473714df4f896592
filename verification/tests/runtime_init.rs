use basket::runtime::init::{rc_file, setup, setup_bash, setup_zsh, SetupStep};
use basket::util::helpers::ShellType;
use std::collections::HashMap;

/// A file system held in memory: path to contents.
type Files = HashMap<String, String>;

fn apply(files: &mut Files, steps: &[SetupStep]) {
    for step in steps {
        match step {
            SetupStep::WriteFile { path, contents } => {
                files.insert(path.clone(), contents.clone());
            }
            SetupStep::AppendFile { path, text } => {
                files.entry(path.clone()).or_default().push_str(text);
            }
        }
    }
}

fn run_zsh(files: &mut Files, home: &str) {
    let zshrc = files.get(&format!("{}/.zshrc", home)).cloned().unwrap_or_default();
    let steps = setup_zsh(home, &zshrc);
    apply(files, &steps);
}

fn run_bash(files: &mut Files, home: &str) {
    let bashrc = files.get(&format!("{}/.bashrc", home)).cloned().unwrap_or_default();
    let steps = setup_bash(home, &bashrc);
    apply(files, &steps);
}

#[test]
fn setup_zsh_writes_hook_and_sources() {
    let home = "/tmp/basket_zsh_init";
    let mut files = Files::new();
    run_zsh(&mut files, home);

    let hook = files.get("/tmp/basket_zsh_init/.basket.zsh").expect("read hook");
    assert!(hook.contains("CMDLOG_FILE"));

    let zshrc = files.get("/tmp/basket_zsh_init/.zshrc").expect("read zshrc");
    assert!(zshrc.contains("source \"$HOME/.basket.zsh\""));
}

#[test]
fn setup_bash_writes_prompt_command() {
    let home = "/tmp/basket_bash_init";
    let mut files = Files::new();
    run_bash(&mut files, home);

    let bashrc = files.get("/tmp/basket_bash_init/.bashrc").expect("read bashrc");
    assert!(bashrc.contains("basket command logger"));
    assert!(bashrc.contains("PROMPT_COMMAND"));
}

#[test]
fn setup_uses_zsh_when_shell_matches() {
    let home = "/tmp/basket_setup_zsh";
    let shell = ShellType::ZSH(format!("{}/.zsh_history", home));
    let mut files = Files::new();
    let rc = rc_file(&shell, home);
    assert_eq!(rc, "/tmp/basket_setup_zsh/.zshrc");
    let steps = setup(&shell, home, "");
    apply(&mut files, &steps);
    assert!(files.contains_key("/tmp/basket_setup_zsh/.basket.zsh"));
}

#[test]
fn setup_uses_bash_when_shell_matches() {
    let home = "/tmp/basket_setup_bash";
    let shell = ShellType::BASH(format!("{}/.bash_history", home));
    let mut files = Files::new();
    assert_eq!(rc_file(&shell, home), "/tmp/basket_setup_bash/.bashrc");
    let steps = setup(&shell, home, "");
    apply(&mut files, &steps);
    assert!(files.contains_key("/tmp/basket_setup_bash/.bashrc"));
}

#[test]
fn setup_zsh_is_idempotent() {
    let home = "/tmp/basket_zsh_idempotent";
    let mut files = Files::new();
    run_zsh(&mut files, home);
    run_zsh(&mut files, home);

    let zshrc = files.get("/tmp/basket_zsh_idempotent/.zshrc").expect("read zshrc");
    assert_eq!(zshrc.matches("source \"$HOME/.basket.zsh\"").count(), 1);
}

#[test]
fn setup_bash_is_idempotent() {
    let home = "/tmp/basket_bash_idempotent";
    let mut files = Files::new();
    run_bash(&mut files, home);
    run_bash(&mut files, home);

    let bashrc = files.get("/tmp/basket_bash_idempotent/.bashrc").expect("read bashrc");
    assert_eq!(bashrc.matches("basket command logger").count(), 1);
}

#[test]
fn existing_rc_lines_are_kept() {
    let steps = setup_zsh("/home/u/", "export A=1\n");
    assert_eq!(steps.len(), 2);
    match &steps[1] {
        SetupStep::AppendFile { path, text } => {
            assert_eq!(path, "/home/u/.zshrc");
            assert!(text.starts_with("\n# basket command logger\n"));
        }
        _ => panic!("expected an append"),
    }
    let steps = setup_zsh("", "source \"$HOME/.basket.zsh\"\n");
    assert_eq!(steps.len(), 1);
    match &steps[0] {
        SetupStep::WriteFile { path, .. } => assert_eq!(path, ".basket.zsh"),
        _ => panic!("expected a write"),
    }
}

#[test]
fn zsh_setup_twice_over_existing_rc_loads_hook_once() {
    let home = "/home/z";
    let mut files = Files::new();
    files.insert("/home/z/.zshrc".to_string(), "export PATH=$PATH:/opt/bin\nalias s=source\n".to_string());
    run_zsh(&mut files, home);
    run_zsh(&mut files, home);
    let zshrc = files.get("/home/z/.zshrc").expect("read zshrc");
    assert!(zshrc.starts_with("export PATH=$PATH:/opt/bin\nalias s=source\n"));
    assert_eq!(zshrc.matches("source \"$HOME/.basket.zsh\"").count(), 1);
}

#[test]
fn bash_setup_twice_over_existing_rc_adds_hook_once() {
    let home = "/home/b";
    let mut files = Files::new();
    files.insert("/home/b/.bashrc".to_string(), "# basket\nexport A=1\n".to_string());
    run_bash(&mut files, home);
    run_bash(&mut files, home);
    let bashrc = files.get("/home/b/.bashrc").expect("read bashrc");
    assert!(bashrc.starts_with("# basket\nexport A=1\n"));
    assert_eq!(bashrc.matches("basket command logger").count(), 1);
}
