//! Program contexts kept between a host call and the resumption that follows it.
use std::collections::HashMap;
use std::sync::Arc;
use vstd::prelude::*;

use crate::types::VmContext;

verus! {

broadcast use vstd::std_specs::hash::group_hash_axioms;

/// Contexts under their tokens, and the next token to hand out.
pub struct ContextRegistry {
    pub next_token: u64,
    pub contexts: HashMap<u64, Arc<VmContext>>,
}

impl ContextRegistry {
    /// An empty registry whose first token is 1.
    pub fn new() -> (r: Self)
        ensures
            r.next_token == 1,
            r.contexts@ == Map::<u64, Arc<VmContext>>::empty(),
    {
        Self { next_token: 1, contexts: HashMap::new() }
    }

    /// Hands out a fresh token (tokens count up, wrapping).
    pub fn generate_context_token(&mut self) -> (r: u64)
        ensures
            r == old(self).next_token,
            final(self).next_token == old(self).next_token.wrapping_add(1),
            final(self).contexts@ == old(self).contexts@,
    {
        let token = self.next_token;
        self.next_token = self.next_token.wrapping_add(1);
        token
    }

    pub fn store_context(&mut self, token: u64, context: Arc<VmContext>)
        ensures
            final(self).contexts@ == old(self).contexts@.insert(token, context),
            final(self).next_token == old(self).next_token,
    {
        self.contexts.insert(token, context);
    }

    pub fn get_context(&self, token: u64) -> (r: Option<&Arc<VmContext>>)
        ensures
            match r {
                Some(c) => self.contexts@.contains_key(token) && *c == self.contexts@[token],
                None => !self.contexts@.contains_key(token),
            },
    {
        self.contexts.get(&token)
    }

    pub fn remove_context(&mut self, token: u64)
        ensures
            final(self).contexts@ == old(self).contexts@.remove(token),
            final(self).next_token == old(self).next_token,
    {
        self.contexts.remove(&token);
    }
}

} // verus!
