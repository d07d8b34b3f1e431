use git_cryptx::util::get_key_path;

#[test]
fn key_path_under_control_directory() {
    assert_eq!(
        get_key_path("/home/user/repo"),
        "/home/user/repo/.git/cryptx/keys/global_ase_key"
    );
}

#[test]
fn key_path_relative_root() {
    assert_eq!(get_key_path("."), "./.git/cryptx/keys/global_ase_key");
}
