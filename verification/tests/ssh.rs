use git_remote_util::ssh_keys::filter_existing;
use git_remote_util::ssh_keys::get_ssh_keys;
use git_remote_util::ssh_keys::ssh_key_candidates;

#[test]
fn candidates_are_three_fixed_names_in_priority_order() {
    let cands = ssh_key_candidates("/home/u");
    assert_eq!(
        cands,
        vec![
            String::from("/home/u/.ssh/id_ed25519_sk"),
            String::from("/home/u/.ssh/id_ed25519"),
            String::from("/home/u/.ssh/id_rsa"),
        ]
    );
}

#[test]
fn only_rsa_present_yields_exactly_one_rsa_path() {
    let cands = ssh_key_candidates("/home/u");
    let keep = vec![false, false, true];
    let keys = filter_existing(cands, &keep);
    assert_eq!(keys.len(), 1);
    assert!(keys[0].ends_with("id_rsa"));
}

#[test]
fn missing_files_are_omitted_and_order_is_kept() {
    let cands = ssh_key_candidates("/home/u");
    let keep = vec![true, false, true];
    let keys = filter_existing(cands, &keep);
    assert_eq!(
        keys,
        vec![String::from("/home/u/.ssh/id_ed25519_sk"), String::from("/home/u/.ssh/id_rsa")]
    );
}

#[test]
fn no_candidate_kept_yields_empty_list() {
    let cands = ssh_key_candidates("/home/u");
    let keep = vec![false, false, false];
    assert_eq!(filter_existing(cands, &keep), Vec::<String>::new());
}

#[test]
fn locator_returns_at_most_three_keys() {
    let keys = get_ssh_keys("user");
    assert!(keys.len() <= 3);
}
