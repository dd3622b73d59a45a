//! The enterprise policy of the HTTP service: the sign-in settings it reports, the models it
//! allows, and how an administrator's update is written to the settings.
use crate::model_catalog::{insert_sorted, strictly_sorted};
use crate::model_endpoints::{normalize_optional_text, optional_text};
use crate::text::{from_chars, lower, lower_chars, strings_view, to_chars, trim, trim_chars};
use crate::text::{opt_text};
use vstd::prelude::*;

verus! {

/// The sign-in settings of the policy.
#[derive(Debug)]
pub struct AuthConfigDto {
    pub issuer: String,
    pub client_id: String,
    pub redirect_uri: String,
    pub roles_claim: String,
}

/// The sign-in fields of the settings file.
#[derive(Debug)]
pub struct StoredAuthSettings {
    pub oidc_issuer: Option<String>,
    pub oidc_client_id: Option<String>,
    pub oidc_redirect_uri: Option<String>,
    pub oidc_roles_claim: Option<String>,
}

pub open spec fn or_text(v: Option<Seq<char>>, default: Seq<char>) -> Seq<char> {
    match v {
        Some(t) => t,
        None => default,
    }
}

fn clone_or(v: &Option<String>, default: &str) -> (r: String)
    ensures
        r@ == or_text(opt_text(*v), default@),
{
    match v {
        Some(s) => from_chars(&to_chars(s.as_str())),
        None => from_chars(&to_chars(default)),
    }
}

/// The sign-in settings: the stored ones, and for those unset the placeholders
/// "https://example-idp.local", "memori-vault-enterprise",
/// "http://localhost:3757/api/auth/oidc/login" and "roles".
pub fn resolve_auth_config(stored: &StoredAuthSettings) -> (r: AuthConfigDto)
    ensures
        r.issuer@ == or_text(opt_text(stored.oidc_issuer), "https://example-idp.local"@),
        r.client_id@ == or_text(opt_text(stored.oidc_client_id), "memori-vault-enterprise"@),
        r.redirect_uri@ == or_text(opt_text(stored.oidc_redirect_uri), "http://localhost:3757/api/auth/oidc/login"@),
        r.roles_claim@ == or_text(opt_text(stored.oidc_roles_claim), "roles"@),
{
    AuthConfigDto {
        issuer: clone_or(&stored.oidc_issuer, "https://example-idp.local"),
        client_id: clone_or(&stored.oidc_client_id, "memori-vault-enterprise"),
        redirect_uri: clone_or(&stored.oidc_redirect_uri, "http://localhost:3757/api/auth/oidc/login"),
        roles_claim: clone_or(&stored.oidc_roles_claim, "roles"),
    }
}

/// Whether `t` is one of the trimmed, non-blank entries of `items`.
pub open spec fn trimmed_entry(items: Seq<Seq<char>>, t: Seq<char>) -> bool {
    exists|i: int| 0 <= i < items.len() && trim(#[trigger] items[i]) == t && t.len() > 0
}

/// The models the policy allows: the stored entries trimmed, blank ones dropped, sorted and
/// each once.
pub fn allowed_models(stored: &Option<Vec<String>>) -> (r: Vec<String>)
    ensures
        strictly_sorted(strings_view(r@)),
        forall|t: Seq<char>| strings_view(r@).contains(t) <==> match stored {
            Some(v) => trimmed_entry(strings_view(v@), t),
            None => false,
        },
{
    let mut out: Vec<String> = Vec::new();
    match stored {
        None => {},
        Some(items) => {
            let ghost iv = strings_view(items@);
            let mut k: usize = 0;
            while k < items.len()
                invariant
                    k <= items.len(),
                    iv == strings_view(items@),
                    strictly_sorted(strings_view(out@)),
                    forall|t: Seq<char>| strings_view(out@).contains(t) <==> trimmed_entry(iv.take(k as int), t),
                decreases items.len() - k,
            {
                let t = trim_chars(&to_chars(items[k].as_str()));
                assert(iv[k as int] == items@[k as int]@);
                assert(t@ == trim(iv[k as int]));
                proof {
                    assert forall|u: Seq<char>| trimmed_entry(iv.take(k + 1), u) <==> (trimmed_entry(iv.take(k as int), u)
                        || (trim(iv[k as int]) == u && u.len() > 0)) by {
                        if trimmed_entry(iv.take(k + 1), u) {
                            let i = choose|i: int| 0 <= i < iv.take(k + 1).len() && trim(#[trigger] iv.take(k + 1)[i]) == u && u.len() > 0;
                            if i < k {
                                assert(iv.take(k as int)[i] == iv.take(k + 1)[i]);
                            }
                        }
                        if trimmed_entry(iv.take(k as int), u) {
                            let i = choose|i: int| 0 <= i < iv.take(k as int).len() && trim(#[trigger] iv.take(k as int)[i]) == u && u.len() > 0;
                            assert(iv.take(k + 1)[i] == iv.take(k as int)[i]);
                        }
                        if trim(iv[k as int]) == u && u.len() > 0 {
                            assert(iv.take(k + 1)[k as int] == iv[k as int]);
                        }
                    }
                }
                let ghost before = strings_view(out@);
                if t.len() > 0 {
                    let name = from_chars(&t);
                    insert_sorted(&mut out, &name);
                }
                assert forall|u: Seq<char>| strings_view(out@).contains(u) <==> trimmed_entry(iv.take(k + 1), u) by {
                    assert(strings_view(out@).contains(u) <==> (before.contains(u) || (t@ == u && t@.len() > 0)));
                }
                k += 1;
            }
            assert(iv.take(k as int) =~= iv);
        },
    }
    out
}

/// The entries of a policy update as they are stored: each trimmed (endpoints also in ASCII
/// lower case), blank ones dropped, in order.
pub open spec fn cleaned_entries(items: Seq<Seq<char>>, lowercase: bool) -> Seq<Seq<char>>
    decreases items.len(),
{
    if items.len() == 0 {
        Seq::empty()
    } else {
        let init = cleaned_entries(items.drop_last(), lowercase);
        let t = if lowercase { lower(trim(items.last())) } else { trim(items.last()) };
        if t.len() > 0 {
            init.push(t)
        } else {
            init
        }
    }
}

fn cleaned_entries_exec(items: &Vec<String>, lowercase: bool) -> (r: Vec<String>)
    ensures
        strings_view(r@) == cleaned_entries(strings_view(items@), lowercase),
{
    let ghost iv = strings_view(items@);
    let mut out: Vec<String> = Vec::new();
    let mut k: usize = 0;
    while k < items.len()
        invariant
            k <= items.len(),
            iv == strings_view(items@),
            strings_view(out@) == cleaned_entries(iv.take(k as int), lowercase),
        decreases items.len() - k,
    {
        assert(iv.take(k + 1).drop_last() =~= iv.take(k as int));
        assert(iv.take(k + 1).last() == items@[k as int]@);
        let trimmed = trim_chars(&to_chars(items[k].as_str()));
        let t = if lowercase { lower_chars(&trimmed) } else { trimmed };
        if t.len() > 0 {
            let ghost before = strings_view(out@);
            out.push(from_chars(&t));
            assert(strings_view(out@) =~= before.push(t@));
        }
        k += 1;
    }
    assert(iv.take(k as int) =~= iv);
    out
}

/// What an administrator's policy update writes to the settings.
#[derive(Debug)]
pub struct PolicySettingsUpdate {
    pub allowed_model_endpoints: Vec<String>,
    pub allowed_models: Vec<String>,
    pub auth: StoredAuthSettings,
}

/// The settings written for a policy update: the endpoints trimmed and in ASCII lower case,
/// the models trimmed, blank entries dropped; each sign-in field trimmed, unset when blank.
pub fn policy_settings_update(
    endpoints: &Vec<String>,
    models: &Vec<String>,
    issuer: String,
    client_id: String,
    redirect_uri: String,
    roles_claim: String,
) -> (r: PolicySettingsUpdate)
    ensures
        strings_view(r.allowed_model_endpoints@) == cleaned_entries(strings_view(endpoints@), true),
        strings_view(r.allowed_models@) == cleaned_entries(strings_view(models@), false),
        opt_text(r.auth.oidc_issuer) == optional_text(Some(issuer@)),
        opt_text(r.auth.oidc_client_id) == optional_text(Some(client_id@)),
        opt_text(r.auth.oidc_redirect_uri) == optional_text(Some(redirect_uri@)),
        opt_text(r.auth.oidc_roles_claim) == optional_text(Some(roles_claim@)),
{
    PolicySettingsUpdate {
        allowed_model_endpoints: cleaned_entries_exec(endpoints, true),
        allowed_models: cleaned_entries_exec(models, false),
        auth: StoredAuthSettings {
            oidc_issuer: normalize_optional_text(Some(issuer)),
            oidc_client_id: normalize_optional_text(Some(client_id)),
            oidc_redirect_uri: normalize_optional_text(Some(redirect_uri)),
            oidc_roles_claim: normalize_optional_text(Some(roles_claim)),
        },
    }
}

} // verus!
