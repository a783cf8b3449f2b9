use git_remote_util::paths::expand_git_path;

#[test]
fn tilde_slash_is_replaced_by_the_home_directory() {
    assert_eq!(expand_git_path("~/.gitconfig", Some("/home/u")), "/home/u/.gitconfig");
}

#[test]
fn absolute_path_is_unchanged() {
    assert_eq!(expand_git_path("/etc/gitconfig", Some("/home/u")), "/etc/gitconfig");
}

#[test]
fn missing_home_leaves_the_path_unchanged() {
    assert_eq!(expand_git_path("~/.gitconfig", None), "~/.gitconfig");
}

#[test]
fn tilde_without_slash_is_unchanged() {
    assert_eq!(expand_git_path("~user/.gitconfig", Some("/home/u")), "~user/.gitconfig");
}

#[test]
fn bare_tilde_is_unchanged() {
    assert_eq!(expand_git_path("~", Some("/home/u")), "~");
}
