//! The enforcement context a sidecar runs: it holds the currently
//! configured block lists, re-reads them from the local configuration, and
//! matches connection and request metadata against them.

use crate::policy::{contains_entry, normalize_entries, normalize_of, parse_policy_fields,
    parsed_policy};
use vstd::prelude::*;
use vstd::string::*;

verus! {

/// What to do with a new connection.
pub enum ConnectionAction {
    Continue,
    Close,
}

/// What to do with a request.
pub enum RequestAction {
    Continue,
    Reject(u16),
}

/// The host part of a source address: everything before the first `:`.
pub open spec fn host_of(s: Seq<char>) -> Seq<char>
    decreases s.len(),
{
    if s.len() == 0 {
        s
    } else if s[0] == ':' {
        Seq::empty()
    } else {
        seq![s[0]] + host_of(s.subrange(1, s.len() as int))
    }
}

/// Where no `:` stands before position `i`, and `i` is the end or a `:`,
/// the host part is exactly the prefix up to `i`.
proof fn lemma_host_prefix(s: Seq<char>, i: int)
    requires
        0 <= i <= s.len(),
        forall|k: int| 0 <= k < i ==> s[k] != ':',
        i < s.len() ==> s[i] == ':',
    ensures
        host_of(s) == s.subrange(0, i),
    decreases i,
{
    if i == 0 {
        if s.len() == 0 {
            assert(s.subrange(0, 0) =~= s);
        } else {
            assert(s.subrange(0, 0) =~= Seq::<char>::empty());
        }
    } else {
        let rest = s.subrange(1, s.len() as int);
        assert forall|k: int| 0 <= k < i - 1 implies rest[k] != ':' by {
            assert(rest[k] == s[k + 1]);
        };
        assert(i - 1 < rest.len() ==> rest[i - 1] == s[i]);
        lemma_host_prefix(rest, i - 1);
        assert(seq![s[0]] + rest.subrange(0, i - 1) =~= s.subrange(0, i));
    }
}

/// Extracts the host part of a source address.
pub fn source_host(address: &str) -> (r: String)
    ensures
        r@ == host_of(address@),
{
    let n = address.unicode_len();
    let mut i: usize = 0;
    while i < n && address.get_char(i) != ':'
        invariant
            i <= n,
            n == address@.len(),
            forall|k: int| 0 <= k < i ==> address@[k] != ':',
        decreases n - i,
    {
        i = i + 1;
    }
    proof {
        lemma_host_prefix(address@, i as int);
    }
    address.substring_char(0, i).to_owned()
}

/// The lists a sidecar currently enforces.
pub struct EnforcementContext {
    pub blocked_addresses: Vec<String>,
    pub blocked_client_ids: Vec<String>,
}

impl EnforcementContext {
    /// A context that blocks nothing, as a sidecar starts.
    pub fn new() -> (r: EnforcementContext)
        ensures
            r.blocked_addresses@.len() == 0,
            r.blocked_client_ids@.len() == 0,
    {
        EnforcementContext { blocked_addresses: Vec::new(), blocked_client_ids: Vec::new() }
    }

    /// Re-reads the block lists from the local configuration text. On a
    /// well-formed policy document the held lists are replaced by its
    /// normalized lists; any other text leaves the context unchanged.
    pub fn configure(&mut self, text: &str) -> (r: bool)
        ensures
            r == (parsed_policy(text@) is Some),
            match parsed_policy(text@) {
                Some(lists) => final(self).blocked_addresses.deep_view() == normalize_of(lists.0)
                    && final(self).blocked_client_ids.deep_view() == normalize_of(lists.1),
                None => *final(self) == *old(self),
            },
    {
        match parse_policy_fields(text) {
            None => false,
            Some((addresses, ids)) => {
                self.blocked_addresses = normalize_entries(&addresses);
                self.blocked_client_ids = normalize_entries(&ids);
                true
            },
        }
    }

    /// Closes a connection exactly when the host part of its source
    /// address is blocked.
    pub fn on_new_connection(&self, source_address: &str) -> (r: ConnectionAction)
        ensures
            r is Close == self.blocked_addresses.deep_view().contains(host_of(source_address@)),
    {
        let host = source_host(source_address);
        if contains_entry(&self.blocked_addresses, &host) {
            ConnectionAction::Close
        } else {
            ConnectionAction::Continue
        }
    }

    /// Rejects a request with a client error exactly when its client
    /// identifier is blocked.
    pub fn on_http_request_headers(&self, user_agent: &String) -> (r: RequestAction)
        ensures
            (r matches RequestAction::Reject(status) && status == 403) == self
                .blocked_client_ids.deep_view().contains(user_agent@),
            r is Continue == !self.blocked_client_ids.deep_view().contains(user_agent@),
    {
        if contains_entry(&self.blocked_client_ids, user_agent) {
            RequestAction::Reject(403)
        } else {
            RequestAction::Continue
        }
    }
}

} // verus!
