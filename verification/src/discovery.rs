//! Where credentials are discovered.
use crate::string_map::StringMap;
use vstd::prelude::*;

verus! {

/// The surroundings that providers look for credentials in.
pub trait DiscoveryContext {
    /// The value of the environment variable `key`, if it is set.
    fn env_var(&self, key: &str) -> (r: Option<String>);
}

/// Surroundings made up for a test.
pub struct MockDiscoveryContext {
    env: StringMap<String>,
}

impl View for MockDiscoveryContext {
    type V = Map<Seq<char>, Seq<char>>;

    /// The variables that are set, with their values.
    closed spec fn view(&self) -> Map<Seq<char>, Seq<char>> {
        self.env.deep_view()
    }
}

impl Default for MockDiscoveryContext {
    fn default() -> (r: Self)
        ensures
            r@ == Map::<Seq<char>, Seq<char>>::empty(),
    {
        let env: StringMap<String> = StringMap::new();
        assert(env.deep_view() =~= Map::<Seq<char>, Seq<char>>::empty());
        MockDiscoveryContext { env }
    }
}

impl MockDiscoveryContext {
    /// Surroundings in which no variable is set.
    pub fn new() -> (r: Self)
        ensures
            r@ == Map::<Seq<char>, Seq<char>>::empty(),
    {
        MockDiscoveryContext::default()
    }

    /// The same surroundings with the variable `key` set to `value`.
    pub fn with_env(self, key: &str, value: &str) -> (r: Self)
        ensures
            r@ == self@.insert(key@, value@),
    {
        let mut env = self.env;
        env.insert(key.to_owned(), value.to_owned());
        assert(env.deep_view() =~= self.env.deep_view().insert(key@, value@));
        MockDiscoveryContext { env }
    }
}

impl DiscoveryContext for MockDiscoveryContext {
    fn env_var(&self, key: &str) -> (r: Option<String>)
        ensures
            r is Some <==> self@.contains_key(key@),
            r matches Some(value) ==> value@ == self@[key@],
    {
        match self.env.get(key) {
            Some(value) => Some(value.clone()),
            None => None,
        }
    }
}

} // verus!
