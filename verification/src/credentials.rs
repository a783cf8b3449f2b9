//! The credential fallback chain the transport engine calls back into.
//!
//! Three independent contracts are exposed: enumerate SSH keys (see
//! `ssh_keys`), obtain a passphrase for a URL, and obtain a username and
//! password for a URL. A strategy that yields nothing is never an error:
//! resolution falls through to the next strategy, and only exhaustion of the
//! chain becomes "no credential".

use crate::prompter::opt_text;
use crate::prompter::Prompter;
use vstd::prelude::*;
use vstd::string::StringExecFns;

verus! {

/// The label of the plaintext username prompt for one URL.
pub open spec fn username_label(url: Seq<char>) -> Seq<char> {
    "Username for "@ + url
}

/// The label of the masked passphrase prompt for one URL.
pub open spec fn passphrase_label(url: Seq<char>) -> Seq<char> {
    "Passphrase for "@ + url + ": "@
}

/// Builds the username prompt label for one URL.
pub fn username_prompt_label(url: &str) -> (r: String)
    ensures
        r@ == username_label(url@),
{
    let mut out = "Username for ".to_owned();
    out.append(url);
    out
}

/// Builds the passphrase prompt label for one URL.
pub fn passphrase_prompt_label(url: &str) -> (r: String)
    ensures
        r@ == passphrase_label(url@),
{
    let mut out = "Passphrase for ".to_owned();
    out.append(url);
    out.append(": ");
    out
}

/// Asks the surface for a username, under a label naming the URL.
pub fn terminal_get_username<P: Prompter>(ui: &mut P, url: &str) -> (r: Option<String>)
    ensures
        opt_text(r) == P::plain_response(old(ui).state(), username_label(url@)),
        final(ui).state() == P::after_plain(old(ui).state(), username_label(url@)),
{
    let label = username_prompt_label(url);
    ui.prompt(label.as_str())
}

/// Asks the surface for a passphrase, masked, under a label naming the URL.
pub fn terminal_get_pw<P: Prompter>(ui: &mut P, url: &str) -> (r: Option<String>)
    ensures
        opt_text(r) == P::masked_response(old(ui).state(), passphrase_label(url@)),
        final(ui).state() == P::after_masked(old(ui).state(), passphrase_label(url@)),
{
    let label = passphrase_prompt_label(url);
    ui.prompt_password(label.as_str())
}

/// Resolves a passphrase for one URL, given what the secure-entry strategy
/// yielded.
///
/// The secure-entry helper is always tried first; its result is handed in
/// here. Where it yielded a secret, that secret is the answer and the
/// terminal surface is not touched at all. Where it yielded nothing, the
/// terminal is asked exactly once, masked, under the passphrase label naming
/// the URL; if that too yields nothing, the result is "no credential".
pub fn resolve_passphrase<P: Prompter>(ui: &mut P, url: &str, secure_entry: Option<String>) -> (r:
    Option<String>)
    ensures
        secure_entry is Some ==> r == secure_entry && final(ui).state() == old(ui).state(),
        secure_entry is None ==> opt_text(r) == P::masked_response(
            old(ui).state(),
            passphrase_label(url@),
        ) && final(ui).state() == P::after_masked(old(ui).state(), passphrase_label(url@)),
{
    match secure_entry {
        Some(secret) => Some(secret),
        None => terminal_get_pw(ui, url),
    }
}

/// Resolves a username and password for one URL, both from the terminal
/// surface.
///
/// The username is asked first, plaintext; only if it is answered is the
/// password asked, masked. Both must succeed, or the whole resolution yields
/// nothing.
pub fn get_username_password<P: Prompter>(ui: &mut P, url: &str) -> (r: Option<(String, String)>)
    ensures
        ({
            let user = P::plain_response(old(ui).state(), username_label(url@));
            let mid = P::after_plain(old(ui).state(), username_label(url@));
            match user {
                None => r is None && final(ui).state() == mid,
                Some(name) => {
                    let word = P::masked_response(mid, passphrase_label(url@));
                    &&& final(ui).state() == P::after_masked(mid, passphrase_label(url@))
                    &&& match word {
                        None => r is None,
                        Some(secret) => r is Some && r.unwrap().0@ == name && r.unwrap().1@
                            == secret,
                    }
                },
            }
        }),
{
    match terminal_get_username(ui, url) {
        None => None,
        Some(name) => match terminal_get_pw(ui, url) {
            None => None,
            Some(secret) => Some((name, secret)),
        },
    }
}

} // verus!
