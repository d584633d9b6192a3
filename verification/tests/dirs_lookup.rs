use libcommons::dirs::{DirContext, DirRel, DirType};

fn context(home: Option<&str>) -> DirContext {
    DirContext {
        home: home.map(|h| h.to_string()),
        uid: "1000".to_string(),
        runtime_dir: None,
        data_home: None,
        cache_home: None,
        state_home: None,
        config_home: None,
    }
}

#[test]
fn system_dirs_are_fixed() {
    let env = context(None);
    assert_eq!(DirRel::System.dir(DirType::Home, &env), Some("/var/lib".to_string()));
    assert_eq!(DirRel::System.dir(DirType::Runtime, &env), Some("/run".to_string()));
    assert_eq!(DirRel::System.dir(DirType::Share, &env), Some("/usr/share".to_string()));
    assert_eq!(DirRel::System.dir(DirType::Cache, &env), Some("/tmp".to_string()));
    assert_eq!(DirRel::System.dir(DirType::State, &env), None);
    assert_eq!(DirRel::System.dir(DirType::Bin, &env), Some("/usr/bin".to_string()));
    assert_eq!(DirRel::System.dir(DirType::Config, &env), Some("/etc".to_string()));
}

#[test]
fn user_dirs_fall_back_under_home() {
    let env = context(Some("/home/ada"));
    assert_eq!(DirRel::User.dir(DirType::Home, &env), Some("/home/ada".to_string()));
    assert_eq!(
        DirRel::User.dir(DirType::Share, &env),
        Some("/home/ada/.local/share".to_string())
    );
    assert_eq!(DirRel::User.dir(DirType::Cache, &env), Some("/home/ada/.cache".to_string()));
    assert_eq!(
        DirRel::User.dir(DirType::State, &env),
        Some("/home/ada/.local/state".to_string())
    );
    assert_eq!(DirRel::User.dir(DirType::Bin, &env), Some("/home/ada/.local/bin".to_string()));
    assert_eq!(DirRel::User.dir(DirType::Config, &env), Some("/home/ada/.config".to_string()));
    assert_eq!(DirRel::User.dir(DirType::Lib, &env), None);
}

#[test]
fn runtime_dir_uses_uid_without_override() {
    let env = context(Some("/home/ada"));
    assert_eq!(DirRel::User.dir(DirType::Runtime, &env), Some("/run/user/1000".to_string()));
}

#[test]
fn xdg_overrides_win() {
    let mut env = context(Some("/home/ada"));
    env.runtime_dir = Some("/custom/run".to_string());
    env.data_home = Some("/custom/data".to_string());
    env.config_home = Some("/custom/config".to_string());
    assert_eq!(DirRel::User.dir(DirType::Runtime, &env), Some("/custom/run".to_string()));
    assert_eq!(DirType::Share.dir(DirRel::User, &env), Some("/custom/data".to_string()));
    assert_eq!(DirType::Config.dir(DirRel::User, &env), Some("/custom/config".to_string()));
}

#[test]
fn user_dirs_without_home() {
    let env = context(None);
    assert_eq!(DirRel::User.dir(DirType::Home, &env), None);
    assert_eq!(DirRel::User.dir(DirType::Share, &env), None);
    assert_eq!(DirRel::User.dir(DirType::Bin, &env), None);
}
