use crate::error::AppError;
use crate::recency::RecencyStore;
use vstd::prelude::*;

verus! {

/// The user's persisted preferences: the decompression mode flag and the
/// bounded history of recently viewed archives.
pub struct AppConfig {
    pub multi_threaded_decompression: bool,
    pub recently_viewed: RecencyStore,
}

impl Default for AppConfig {
    /// The configuration used when none was persisted yet: single-threaded
    /// decompression, empty history.
    fn default() -> (c: Self)
        ensures
            !c.multi_threaded_decompression,
            c.recently_viewed@ == Seq::<Seq<char>>::empty(),
            c.recently_viewed.wf(),
    {
        AppConfig { multi_threaded_decompression: false, recently_viewed: RecencyStore::new() }
    }
}

impl AppConfig {
    /// The configuration to run with, given what loading the persisted one
    /// produced: the loaded configuration when there is one, the default
    /// otherwise.
    pub fn load_or_default(loaded: Result<AppConfig, AppError>) -> (c: AppConfig)
        requires
            loaded matches Ok(l) ==> l.recently_viewed.wf(),
        ensures
            c.recently_viewed.wf(),
            loaded matches Ok(l) ==> c == l,
            loaded matches Err(_) ==> !c.multi_threaded_decompression && c.recently_viewed@
                == Seq::<Seq<char>>::empty(),
    {
        match loaded {
            Ok(l) => l,
            Err(_) => AppConfig::default(),
        }
    }
}

} // verus!
