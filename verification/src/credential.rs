//! The credential-resolution policy shared by both tools: read a named
//! secret from the platform secret store; if the store is reachable but the
//! entry is absent, fall back to an environment variable named like the
//! account; if the store itself cannot be reached, or both lookups miss,
//! fail with a diagnostic. The two lookups themselves are input here — the
//! application shell performs them and hands in their outcomes — so the
//! policy is total and checked for every combination.

use vstd::prelude::*;

use crate::text::{append_chars, has_sub, is_sub_at, str_to_chars};

verus! {

/// The outcome of asking the secret store for the entry.
pub enum StoreLookup {
    /// The store itself could not be reached; the text of its error.
    Unavailable(Vec<char>),
    /// The store answered, but holds no such entry.
    Missing,
    /// The entry's secret.
    Present(Vec<char>),
}

/// What an invocation does with the credential lookups.
pub enum CredOutcome {
    /// A credential was found.
    Key(Vec<char>),
    /// No credential; the diagnostic to print before exiting non-zero.
    Fatal(Vec<char>),
}

/// The diagnostic for an unreachable store.
pub open spec fn spec_store_error_msg(err: Seq<char>) -> Seq<char> {
    "Error accessing keychain: "@ + err
}

/// The diagnostic for a credential found in neither the store nor the
/// environment; it names the service, the account and (through the account)
/// the environment variable that were consulted.
pub open spec fn spec_not_found_msg(service: Seq<char>, account: Seq<char>) -> Seq<char> {
    "Error: "@ + service + seq![':'] + account + " not found in keychain (service: "@ + service
        + ", account: "@ + account + ") or environment variables."@
}

/// Resolve a credential from the store lookup's outcome and the value of the
/// fallback environment variable. Exactly one of the four behaviours
/// happens: the store's secret is used; the environment value is used; an
/// unreachable store is fatal at once (the fallback is not consulted); and a
/// double miss is fatal with the diagnostic naming both lookup paths.
pub fn resolve_credential(
    store: StoreLookup,
    env: Option<Vec<char>>,
    service: &Vec<char>,
    account: &Vec<char>,
) -> (r: CredOutcome)
    ensures
        match store {
            StoreLookup::Present(k) => (r matches CredOutcome::Key(key) && key@ == k@),
            StoreLookup::Unavailable(err) => (r matches CredOutcome::Fatal(msg) && msg@
                == spec_store_error_msg(err@)),
            StoreLookup::Missing => match env {
                Option::Some(v) => (r matches CredOutcome::Key(key) && key@ == v@),
                Option::None => (r matches CredOutcome::Fatal(msg) && msg@ == spec_not_found_msg(
                    service@,
                    account@,
                )),
            },
        },
{
    match store {
        StoreLookup::Present(k) => CredOutcome::Key(k),
        StoreLookup::Unavailable(err) => {
            let mut msg = str_to_chars("Error accessing keychain: ");
            append_chars(&mut msg, &err);
            CredOutcome::Fatal(msg)
        },
        StoreLookup::Missing => {
            match env {
                Option::Some(v) => CredOutcome::Key(v),
                Option::None => {
                    let mut msg = str_to_chars("Error: ");
                    append_chars(&mut msg, service);
                    msg.push(':');
                    append_chars(&mut msg, account);
                    append_chars(&mut msg, &str_to_chars(" not found in keychain (service: "));
                    append_chars(&mut msg, service);
                    append_chars(&mut msg, &str_to_chars(", account: "));
                    append_chars(&mut msg, account);
                    append_chars(&mut msg, &str_to_chars(") or environment variables."));
                    assert(msg@ =~= spec_not_found_msg(service@, account@));
                    CredOutcome::Fatal(msg)
                },
            }
        },
    }
}

/// Law: the double-miss diagnostic names both lookup paths — the service and
/// the account (which is also the name of the fallback environment variable)
/// occur in the message.
pub proof fn lemma_not_found_msg_names_paths(service: Seq<char>, account: Seq<char>)
    ensures
        has_sub(spec_not_found_msg(service, account), service),
        has_sub(spec_not_found_msg(service, account), account),
{
    reveal_strlit("Error: ");
    let msg = spec_not_found_msg(service, account);
    assert(msg.subrange(7, 7 + service.len() as int) =~= service);
    assert(is_sub_at(msg, service, 7));
    let apos = 8 + service.len() as int;
    assert(msg.subrange(apos, apos + account.len() as int) =~= account);
    assert(is_sub_at(msg, account, apos));
}

} // verus!
