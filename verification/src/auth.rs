//! Credentials for the model providers.

use crate::strmap::StrMap;
use crate::text;
use vstd::prelude::*;

verus! {

/// The credentials of all providers, by the name of the provider.
#[derive(Debug)]
pub struct Auth {
    pub providers: StrMap<ProviderAuth>,
}

/// The credentials of one provider.
#[derive(Debug)]
pub struct ProviderAuth {
    pub api_key: Option<String>,
    pub token: Option<String>,
    /// Whatever else the provider needs.
    pub extra: StrMap<String>,
}

impl Default for ProviderAuth {
    fn default() -> (a: ProviderAuth)
        ensures
            a.api_key is None,
            a.token is None,
            a.extra@ == Map::<Seq<char>, String>::empty(),
    {
        ProviderAuth { api_key: None, token: None, extra: StrMap::new() }
    }
}

impl Default for Auth {
    fn default() -> (a: Auth)
        ensures
            a.providers@ == Map::<Seq<char>, ProviderAuth>::empty(),
    {
        Auth { providers: StrMap::new() }
    }
}

impl ProviderAuth {
    /// The key, if there is one.
    pub fn api_key(&self) -> (r: Option<&str>)
        ensures
            match r {
                Some(s) => self.api_key matches Some(k) && s@ == k@,
                None => self.api_key is None,
            },
    {
        match &self.api_key {
            Some(k) => Some(k.as_str()),
            None => None,
        }
    }

    /// The token, if there is one.
    pub fn token(&self) -> (r: Option<&str>)
        ensures
            match r {
                Some(s) => self.token matches Some(t) && s@ == t@,
                None => self.token is None,
            },
    {
        match &self.token {
            Some(t) => Some(t.as_str()),
            None => None,
        }
    }
}

impl Auth {
    /// The key of a provider.
    pub open spec fn key_of(&self, provider: Seq<char>) -> Option<Seq<char>> {
        if self.providers@.contains_key(provider) {
            text::opt_view(self.providers@[provider].api_key)
        } else {
            None
        }
    }

    /// The token of a provider.
    pub open spec fn token_of(&self, provider: Seq<char>) -> Option<Seq<char>> {
        if self.providers@.contains_key(provider) {
            text::opt_view(self.providers@[provider].token)
        } else {
            None
        }
    }

    /// What the credentials file held: without a file, or with one that cannot
    /// be read, there are no credentials.
    pub fn load(file: Option<Result<Auth, String>>) -> (a: Auth)
        ensures
            match file {
                Some(Ok(parsed)) => a == parsed,
                _ => a.providers@ == Map::<Seq<char>, ProviderAuth>::empty(),
            },
    {
        match file {
            Some(Ok(parsed)) => parsed,
            _ => Auth::default(),
        }
    }

    /// The credentials of a provider.
    pub fn for_provider(&self, provider: &str) -> (r: Option<&ProviderAuth>)
        ensures
            match r {
                Some(a) => self.providers@.contains_key(provider@) && *a
                    == self.providers@[provider@],
                None => !self.providers@.contains_key(provider@),
            },
    {
        self.providers.get(provider)
    }

    /// The key of a provider.
    pub fn api_key(&self, provider: &str) -> (r: Option<&str>)
        ensures
            match r {
                Some(s) => self.key_of(provider@) == Some(s@),
                None => self.key_of(provider@) is None,
            },
    {
        match self.for_provider(provider) {
            Some(a) => a.api_key(),
            None => None,
        }
    }

    /// The token of a provider.
    pub fn token(&self, provider: &str) -> (r: Option<&str>)
        ensures
            match r {
                Some(s) => self.token_of(provider@) == Some(s@),
                None => self.token_of(provider@) is None,
            },
    {
        match self.for_provider(provider) {
            Some(a) => a.token(),
            None => None,
        }
    }
}

/// The credentials of a provider with one field changed.
pub open spec fn credential_set(
    before: Option<ProviderAuth>,
    after: ProviderAuth,
    field: Seq<char>,
    value: Seq<char>,
) -> bool {
    let key = match before {
        Some(a) => text::opt_view(a.api_key),
        None => None,
    };
    let token = match before {
        Some(a) => text::opt_view(a.token),
        None => None,
    };
    &&& text::opt_view(after.api_key) == if field == "api_key"@ {
        Some(value)
    } else {
        key
    }
    &&& text::opt_view(after.token) == if field == "token"@ {
        Some(value)
    } else {
        token
    }
    &&& after.extra@ == match before {
        Some(a) => a.extra@,
        None => Map::empty(),
    }
}

/// Whether `after` is what `before` becomes when a credential is saved.
pub open spec fn is_saved(
    before: Auth,
    after: Auth,
    provider: Seq<char>,
    field: Seq<char>,
    value: Seq<char>,
) -> bool {
    &&& after.providers@ == before.providers@.insert(provider, after.providers@[provider])
    &&& credential_set(
        if before.providers@.contains_key(provider) {
            Some(before.providers@[provider])
        } else {
            None
        },
        after.providers@[provider],
        field,
        value,
    )
}

/// A credential that was saved is found, and the others are as they were.
pub proof fn law_saved_credentials_are_found(
    before: Auth,
    after: Auth,
    provider: Seq<char>,
    field: Seq<char>,
    value: Seq<char>,
    other: Seq<char>,
)
    requires
        is_saved(before, after, provider, field, value),
        other != provider,
    ensures
        after.key_of(provider) == if field == "api_key"@ {
            Some(value)
        } else {
            before.key_of(provider)
        },
        after.token_of(provider) == if field == "token"@ {
            Some(value)
        } else {
            before.token_of(provider)
        },
        before.providers@.contains_key(provider) ==> after.providers@[provider].extra@
            == before.providers@[provider].extra@,
        after.key_of(other) == before.key_of(other),
        after.token_of(other) == before.token_of(other),
        after.providers@.contains_key(other) == before.providers@.contains_key(other),
        before.providers@.contains_key(other) ==> after.providers@[other]
            == before.providers@[other],
{
}

/// The credentials with one field of one provider set; a provider that was not
/// there is added. There are two fields, `api_key` and `token`.
pub fn save_credential(auth: Auth, provider: &str, field: &str, value: &str) -> (r: Result<
    Auth,
    String,
>)
    ensures
        match r {
            Ok(saved) => (field@ == "api_key"@ || field@ == "token"@) && is_saved(
                auth,
                saved,
                provider@,
                field@,
                value@,
            ),
            Err(e) => field@ != "api_key"@ && field@ != "token"@ && e@
                == "Unknown credential field '"@ + field@ + "'"@,
        },
{
    let ghost before = auth.providers@;
    let mut auth = auth;
    let mut entry = match auth.providers.take(provider) {
        Some(a) => a,
        None => ProviderAuth::default(),
    };
    proof {
        reveal_strlit("api_key");
        reveal_strlit("token");
        assert("api_key"@.len() != "token"@.len());
    }
    if text::same(field, "api_key") {
        entry.api_key = Some(value.to_owned());
    } else if text::same(field, "token") {
        entry.token = Some(value.to_owned());
    } else {
        return Err(text::cat3("Unknown credential field '", field, "'"));
    }
    auth.providers.insert(provider.to_owned(), entry);
    assert(auth.providers@ =~= before.insert(provider@, entry));
    Ok(auth)
}

/// The credentials with the token of one provider set.
pub fn save_token_to_auth(auth: Auth, provider: &str, token: &str) -> (r: Result<Auth, String>)
    ensures
        r matches Ok(saved) && is_saved(auth, saved, provider@, "token"@, token@),
{
    proof {
        reveal_strlit("api_key");
        reveal_strlit("token");
        assert("api_key"@.len() != "token"@.len());
    }
    save_credential(auth, provider, "token", token)
}

} // verus!
