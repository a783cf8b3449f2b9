use git_remote_util::credentials::get_username_password;
use git_remote_util::credentials::passphrase_prompt_label;
use git_remote_util::credentials::resolve_passphrase;
use git_remote_util::credentials::terminal_get_pw;
use git_remote_util::credentials::terminal_get_username;
use git_remote_util::credentials::username_prompt_label;
use git_remote_util::prompter::ScriptedPrompter;

const URL: &str = "https://example.com/repo";

#[test]
fn prompt_labels_name_the_url() {
    assert_eq!(username_prompt_label(URL), "Username for https://example.com/repo");
    assert_eq!(passphrase_prompt_label(URL), "Passphrase for https://example.com/repo: ");
}

#[test]
fn secure_entry_result_wins_and_terminal_is_untouched() {
    let mut ui = ScriptedPrompter::new();
    let got = resolve_passphrase(&mut ui, URL, Some(String::from("fromhelper")));
    assert_eq!(got, Some(String::from("fromhelper")));
    assert_eq!(ui.masked_prompt_count(), 0);
    assert_eq!(ui.plain_prompt_count(), 0);
}

#[test]
fn terminal_is_asked_exactly_once_when_secure_entry_yields_nothing() {
    let mut ui = ScriptedPrompter::new();
    ui.push_masked(Some(String::from("typed-passphrase")));
    let got = resolve_passphrase(&mut ui, URL, None);
    assert_eq!(got, Some(String::from("typed-passphrase")));
    assert_eq!(ui.masked_prompt_count(), 1);
    assert_eq!(ui.masked_labels[0], "Passphrase for https://example.com/repo: ");
}

#[test]
fn exhausted_chain_yields_no_credential() {
    let mut ui = ScriptedPrompter::new();
    let got = resolve_passphrase(&mut ui, URL, None);
    assert_eq!(got, None);
    assert_eq!(ui.masked_prompt_count(), 1);
}

#[test]
fn username_and_password_both_succeed() {
    let mut ui = ScriptedPrompter::new();
    ui.push_plain(Some(String::from("alice")));
    ui.push_masked(Some(String::from("hunter2")));
    let got = get_username_password(&mut ui, URL);
    assert_eq!(got, Some((String::from("alice"), String::from("hunter2"))));
    assert_eq!(ui.plain_labels[0], "Username for https://example.com/repo");
    assert_eq!(ui.masked_labels[0], "Passphrase for https://example.com/repo: ");
}

#[test]
fn failed_username_skips_the_password_prompt() {
    let mut ui = ScriptedPrompter::new();
    let got = get_username_password(&mut ui, URL);
    assert_eq!(got, None);
    assert_eq!(ui.plain_prompt_count(), 1);
    assert_eq!(ui.masked_prompt_count(), 0);
}

#[test]
fn failed_password_discards_the_username() {
    let mut ui = ScriptedPrompter::new();
    ui.push_plain(Some(String::from("alice")));
    let got = get_username_password(&mut ui, URL);
    assert_eq!(got, None);
    assert_eq!(ui.plain_prompt_count(), 1);
    assert_eq!(ui.masked_prompt_count(), 1);
}

#[test]
fn terminal_helpers_use_their_own_labels() {
    let mut ui = ScriptedPrompter::new();
    ui.push_plain(Some(String::from("bob")));
    assert_eq!(terminal_get_username(&mut ui, URL), Some(String::from("bob")));
    assert_eq!(ui.plain_labels[0], "Username for https://example.com/repo");
    let mut ui = ScriptedPrompter::new();
    ui.push_masked(None);
    assert_eq!(terminal_get_pw(&mut ui, URL), None);
    assert_eq!(ui.masked_labels[0], "Passphrase for https://example.com/repo: ");
}
