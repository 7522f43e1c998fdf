use std::path::PathBuf;

use docstrings::Args;

#[test]
fn args_into_paths() {
    let args = Args {
        directory: "src".into(),
        file_name: "nn.rs".into(),
        license: "LICENSE".into(),
        update: false,
    };
    let (d, f, l) = args.paths();
    assert_eq!(PathBuf::from("src"), PathBuf::from(d));
    assert_eq!(PathBuf::from("nn.rs"), PathBuf::from(f));
    assert_eq!(PathBuf::from("LICENSE"), PathBuf::from(l));
}

#[test]
fn args_update_flag_and_placeholder() {
    let args = Args {
        directory: "src".into(),
        file_name: "*.*".into(),
        license: "LICENSE".into(),
        update: true,
    };
    assert!(args.update());
    assert!(args.asks_for_filetype());
    let named = Args {
        directory: "src".into(),
        file_name: "*.rs".into(),
        license: "LICENSE".into(),
        update: false,
    };
    assert!(!named.update());
    assert!(!named.asks_for_filetype());
}
