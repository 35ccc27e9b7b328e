//! What is kept between two runs: the settings, and the session token in the
//! keychain of the system.
use crate::text::join;
use std::collections::HashSet;
use vstd::prelude::*;

verus! {

/// The settings.
#[derive(Debug)]
pub struct Config {
    /// The games that the backend has taken.
    pub synced_ids: HashSet<i64>,
    /// When the last successful sync ended, in milliseconds.
    pub last_sync_ms: Option<i64>,
    /// How many games were ever sent.
    pub total_synced: u64,
}

impl Default for Config {
    fn default() -> (config: Self)
        ensures
            config.synced_ids@ == Set::<i64>::empty(),
            config.last_sync_ms is None,
            config.total_synced == 0,
    {
        Config { synced_ids: HashSet::new(), last_sync_ms: None, total_synced: 0 }
    }
}

/// Takes up the settings that were read; where there are none, or they cannot
/// be read, the default ones.
pub fn load_config(read: Option<Config>) -> (config: Config)
    ensures
        match read {
            Some(read) => config == read,
            None => {
                &&& config.synced_ids@ == Set::<i64>::empty()
                &&& config.last_sync_ms is None
                &&& config.total_synced == 0
            },
        },
{
    match read {
        Some(config) => config,
        None => Config::default(),
    }
}

/// What the keychain answered.
#[derive(Debug)]
pub enum Keychain<T> {
    Done(T),
    /// There is no such entry.
    NoEntry,
    /// The keychain refused, for a reason.
    Failed(String),
    /// There is no keychain to ask.
    Unavailable,
}

/// Whether the token was saved.
pub fn save_token(answer: Keychain<()>) -> (done: Result<(), String>)
    ensures
        done is Ok <==> answer is Done,
        answer is Unavailable ==> done->Err_0@ == "criar entrada no keychain"@,
        (answer is NoEntry || answer is Failed) ==> done->Err_0@ == "salvar token no keychain"@,
{
    match answer {
        Keychain::Done(()) => Ok(()),
        Keychain::Unavailable => Err("criar entrada no keychain".to_string()),
        _ => Err("salvar token no keychain".to_string()),
    }
}

/// The token that the keychain holds; none where it holds none.
pub fn load_token(answer: Keychain<String>) -> (token: Result<Option<String>, String>)
    ensures
        match answer {
            Keychain::Done(held) => token == Ok::<Option<String>, String>(Some(held)),
            Keychain::NoEntry => token == Ok::<Option<String>, String>(None),
            Keychain::Failed(why) => token is Err && token->Err_0@
                == "erro ao ler token do keychain: "@ + why@,
            Keychain::Unavailable => token is Err && token->Err_0@ == "criar entrada no keychain"@,
        },
{
    match answer {
        Keychain::Done(token) => Ok(Some(token)),
        Keychain::NoEntry => Ok(None),
        Keychain::Failed(why) => Err(join("erro ao ler token do keychain: ", why.as_str())),
        Keychain::Unavailable => Err("criar entrada no keychain".to_string()),
    }
}

/// Whether the token is gone; one that was not there is.
pub fn delete_token(answer: Keychain<()>) -> (done: Result<(), String>)
    ensures
        match answer {
            Keychain::Done(()) => done is Ok,
            Keychain::NoEntry => done is Ok,
            Keychain::Failed(why) => done is Err && done->Err_0@
                == "erro ao remover token do keychain: "@ + why@,
            Keychain::Unavailable => done is Err && done->Err_0@ == "criar entrada no keychain"@,
        },
{
    match answer {
        Keychain::Done(()) => Ok(()),
        Keychain::NoEntry => Ok(()),
        Keychain::Failed(why) => Err(join("erro ao remover token do keychain: ", why.as_str())),
        Keychain::Unavailable => Err("criar entrada no keychain".to_string()),
    }
}

} // verus!
