//! Captchas that wait for their answer, kept in memory.

use crate::text::same_text;
use crate::users::{is_uuid_v4, random_uuid};
use std::collections::hash_map::RandomState;
use vstd::prelude::*;

verus! {

/// `dashmap::DashMap`: a map that many threads may share.
#[verifier::external_type_specification]
#[verifier::external_body]
#[verifier::reject_recursive_types(K)]
#[verifier::reject_recursive_types(V)]
#[verifier::reject_recursive_types(S)]
pub struct ExDashMap<K, V, S>(dashmap::DashMap<K, V, S>);

/// The identifier of a captcha: sixteen random bytes.
#[derive(Debug, Clone, Copy, PartialEq, Eq)]
pub struct CaptchaId(pub [u8; 16]);

impl CaptchaId {
    /// A fresh identifier: a random UUID of version 4.
    pub fn random() -> (r: CaptchaId)
        ensures
            is_uuid_v4(r.0@),
    {
        CaptchaId(random_uuid())
    }
}

/// What a map of captchas holds: the solution stored under each
/// identifier.
///
/// The contracts below take the map they are given to be written through
/// them alone.
pub uninterp spec fn solutions(map: dashmap::DashMap<[u8; 16], String, RandomState>) -> Map<
    Seq<u8>,
    Seq<char>,
>;

/// A map that holds no solution.
pub open spec fn no_solutions() -> Map<Seq<u8>, Seq<char>> {
    Map::empty()
}

/// `dashmap::DashMap::new`: an empty map.
#[verifier::external_body]
pub(crate) fn solutions_new() -> (r: dashmap::DashMap<[u8; 16], String, RandomState>)
    ensures
        solutions(r) == no_solutions(),
{
    dashmap::DashMap::new()
}

/// `dashmap::DashMap::insert`: the map holds `solution` under `id` and is
/// otherwise as before.
#[verifier::external_body]
pub(crate) fn solutions_insert(
    map: &mut dashmap::DashMap<[u8; 16], String, RandomState>,
    id: [u8; 16],
    solution: String,
)
    ensures
        solutions(*final(map)) == solutions(*old(map)).insert(id@, solution@),
{
    map.insert(id, solution);
}

/// `dashmap::DashMap::remove`: the map holds nothing under `id` and is
/// otherwise as before; what it held under `id` is returned.
#[verifier::external_body]
pub(crate) fn solutions_remove(
    map: &mut dashmap::DashMap<[u8; 16], String, RandomState>,
    id: &[u8; 16],
) -> (r: Option<String>)
    ensures
        solutions(*final(map)) == solutions(*old(map)).remove(id@),
        match r {
            Some(solution) => solutions(*old(map)).contains_key(id@) && solution@ == solutions(
                *old(map),
            )[id@],
            None => !solutions(*old(map)).contains_key(id@),
        },
{
    map.remove(id).map(|entry| entry.1)
}

/// `dashmap::DashMap::get`: what the map holds under `id`.
#[verifier::external_body]
pub(crate) fn solutions_get(map: &dashmap::DashMap<[u8; 16], String, RandomState>, id: &[u8; 16]) -> (r:
    Option<String>)
    ensures
        match r {
            Some(solution) => solutions(*map).contains_key(id@) && solution@ == solutions(*map)[id@],
            None => !solutions(*map).contains_key(id@),
        },
{
    map.get(id).map(|entry| entry.value().clone())
}

/// The captchas that were shown and not answered yet.
pub struct Cache {
    captcha_solution: dashmap::DashMap<[u8; 16], String, RandomState>,
}

impl View for Cache {
    type V = Map<Seq<u8>, Seq<char>>;

    closed spec fn view(&self) -> Map<Seq<u8>, Seq<char>> {
        solutions(self.captcha_solution)
    }
}

impl Default for Cache {
    fn default() -> (r: Cache)
        ensures
            r@ == no_solutions(),
    {
        Cache { captcha_solution: solutions_new() }
    }
}

impl Cache {
    /// Remembers the solution of captcha `id`, to be checked later.
    pub fn register_captcha(&mut self, id: CaptchaId, solution: &str)
        ensures
            final(self)@ == old(self)@.insert(id.0@, solution@),
    {
        solutions_insert(&mut self.captcha_solution, id.0, solution.to_owned());
    }

    /// Checks `given_solution` against the solution of captcha `id`, and
    /// forgets the captcha: it can be answered once. An unknown captcha has
    /// no right answer.
    pub fn validate_captcha(&mut self, id: CaptchaId, given_solution: &str) -> (r: bool)
        ensures
            final(self)@ == old(self)@.remove(id.0@),
            r == (old(self)@.contains_key(id.0@) && old(self)@[id.0@] == given_solution@),
    {
        match solutions_remove(&mut self.captcha_solution, &id.0) {
            Some(stored_solution) => same_text(given_solution, stored_solution.as_str()),
            None => false,
        }
    }

    /// The solution of captcha `id`, if it still waits for its answer.
    pub fn get_solution(&self, id: CaptchaId) -> (r: Option<String>)
        ensures
            match r {
                Some(solution) => self@.contains_key(id.0@) && solution@ == self@[id.0@],
                None => !self@.contains_key(id.0@),
            },
    {
        solutions_get(&self.captcha_solution, &id.0)
    }
}

} // verus!
