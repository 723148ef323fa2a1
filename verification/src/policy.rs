//! Policies and their resolution from namespaced configuration objects.
//!
//! A policy names the source it was read from and carries the blocked
//! source-address and blocked client-identifier lists. Entries are kept
//! unique, non-empty and trimmed; a document read from the store is
//! normalized into that shape when it is parsed.

use crate::store::{field_of, field_value, ConfigObject};
use crate::text::{lemma_trim_of_fixed, trim, trim_of};
use vstd::prelude::*;
use vstd::string::*;

verus! {

/// The (namespace, name) a policy document is read from.
pub struct PolicyRef {
    pub namespace: String,
    pub name: String,
}

/// A resolved traffic-filtering policy.
pub struct Policy {
    pub source: PolicyRef,
    pub blocked_addresses: Vec<String>,
    pub blocked_client_ids: Vec<String>,
}

/// Why a policy reference did not resolve.
#[derive(Debug)]
pub enum PolicyError {
    /// The configuration object, or its policy field, is absent.
    NotFound,
    /// The policy field does not hold a well-formed policy document.
    Parse,
    /// The configuration store could not be reached.
    Transport(String),
}

/// A block-list entry: non-empty and carrying no surrounding whitespace.
pub open spec fn entry_wf(e: Seq<char>) -> bool {
    e.len() > 0 && trim_of(e) == e
}

/// A block list: well-formed entries, no duplicates.
pub open spec fn entry_list_wf(l: Seq<Seq<char>>) -> bool {
    &&& forall|i: int| 0 <= i < l.len() ==> entry_wf(#[trigger] l[i])
    &&& forall|i: int, j: int| 0 <= i < j < l.len() ==> l[i] != l[j]
}

impl Policy {
    pub open spec fn wf(self) -> bool {
        entry_list_wf(self.blocked_addresses.deep_view()) && entry_list_wf(
            self.blocked_client_ids.deep_view(),
        )
    }
}

/// What deserializing a JSON object of string lists yields: every field with
/// its list, in key order, or nothing when the text is no such object.
pub uninterp spec fn parsed_fields(s: Seq<char>) -> Option<Seq<(Seq<char>, Seq<Seq<char>>)>>;

/// Relies on serde_json::from_str: deserializing a JSON object whose values
/// are string lists depends on the text alone, and a `BTreeMap`'s entries
/// come out in key order, so the result is a function of the text; any
/// other text fails to deserialize and yields nothing.
#[verifier::external_body]
fn parse_string_list_object(text: &str) -> (r: Option<Vec<(String, Vec<String>)>>)
    ensures
        r.deep_view() == parsed_fields(text@),
{
    let doc: std::collections::BTreeMap<String, Vec<String>> = match serde_json::from_str(text) {
        Ok(d) => d,
        Err(_) => return None,
    };
    Some(doc.into_iter().collect())
}

/// The list of the first field named `key` among a document's fields.
pub open spec fn list_field_of(fields: Seq<(Seq<char>, Seq<Seq<char>>)>, key: Seq<char>) -> Option<
    Seq<Seq<char>>,
>
    decreases fields.len(),
{
    if fields.len() == 0 {
        None
    } else if fields[0].0 == key {
        Some(fields[0].1)
    } else {
        list_field_of(fields.subrange(1, fields.len() as int), key)
    }
}

/// Looks up a field of a deserialized document.
fn list_field_value<'a>(fields: &'a Vec<(String, Vec<String>)>, key: &String) -> (r: Option<
    &'a Vec<String>,
>)
    ensures
        match r {
            Some(v) => list_field_of(fields.deep_view(), key@) == Some(v.deep_view()),
            None => list_field_of(fields.deep_view(), key@) is None,
        },
{
    let n = fields.len();
    let ghost dv = fields.deep_view();
    proof {
        assert(dv.subrange(0, n as int) =~= dv);
    }
    let mut i: usize = 0;
    while i < n
        invariant
            i <= n,
            n == fields@.len(),
            dv == fields.deep_view(),
            n == dv.len(),
            list_field_of(dv, key@) == list_field_of(dv.subrange(i as int, n as int), key@),
        decreases n - i,
    {
        proof {
            let cur = dv.subrange(i as int, n as int);
            assert(cur[0] == dv[i as int]);
            assert(dv[i as int] == fields@[i as int].deep_view());
            assert(cur.subrange(1, cur.len() as int) =~= dv.subrange(i + 1, n as int));
        }
        if fields[i].0 == *key {
            return Some(&fields[i].1);
        }
        i = i + 1;
    }
    proof {
        assert(dv.subrange(n as int, n as int) =~= Seq::<(Seq<char>, Seq<Seq<char>>)>::empty());
    }
    None
}

/// An exact copy of an entry list.
fn duplicate_entries(v: &Vec<String>) -> (r: Vec<String>)
    ensures
        r@ == v@,
{
    let n = v.len();
    let mut r: Vec<String> = Vec::new();
    let mut i: usize = 0;
    while i < n
        invariant
            i <= n,
            n == v@.len(),
            r@ == v@.subrange(0, i as int),
        decreases n - i,
    {
        r.push(v[i].clone());
        proof {
            assert(r@ =~= v@.subrange(0, i + 1));
        }
        i = i + 1;
    }
    proof {
        assert(v@.subrange(0, n as int) =~= v@);
    }
    r
}

/// What deserializing a policy document yields: the blocked-address list and
/// the blocked client-identifier list, exactly as written, or nothing when
/// the text is no JSON object of string lists or either field is absent.
pub open spec fn parsed_policy(s: Seq<char>) -> Option<(Seq<Seq<char>>, Seq<Seq<char>>)> {
    match parsed_fields(s) {
        None => None,
        Some(fields) => match (
            list_field_of(fields, "blockedAddresses"@),
            list_field_of(fields, "blockedClientIds"@),
        ) {
            (Some(addrs), Some(ids)) => Some((addrs, ids)),
            _ => None,
        },
    }
}

/// Deserializes a policy document and selects its two schema fields.
pub(crate) fn parse_policy_fields(text: &str) -> (r: Option<(Vec<String>, Vec<String>)>)
    ensures
        r.deep_view() == parsed_policy(text@),
{
    let fields = match parse_string_list_object(text) {
        None => {
            return None;
        },
        Some(f) => f,
    };
    let addresses_key = "blockedAddresses".to_owned();
    let ids_key = "blockedClientIds".to_owned();
    let addresses = match list_field_value(&fields, &addresses_key) {
        None => {
            return None;
        },
        Some(v) => v,
    };
    let ids = match list_field_value(&fields, &ids_key) {
        None => {
            return None;
        },
        Some(v) => v,
    };
    Some((duplicate_entries(addresses), duplicate_entries(ids)))
}

/// The normalized form of a raw entry list: each entry trimmed, empty
/// entries dropped, and later duplicates dropped.
pub open spec fn normalize_of(l: Seq<Seq<char>>) -> Seq<Seq<char>>
    decreases l.len(),
{
    if l.len() == 0 {
        Seq::empty()
    } else {
        let rest = normalize_of(l.drop_last());
        let t = trim_of(l.last());
        if t.len() == 0 || rest.contains(t) {
            rest
        } else {
            rest.push(t)
        }
    }
}

/// Normalizing establishes the block-list invariant.
pub proof fn lemma_normalize_of_wf(l: Seq<Seq<char>>)
    ensures
        entry_list_wf(normalize_of(l)),
    decreases l.len(),
{
    if l.len() > 0 {
        let prefix = l.drop_last();
        lemma_normalize_of_wf(prefix);
        let rest = normalize_of(prefix);
        let t = trim_of(l.last());
        lemma_trim_of_fixed(l.last());
        if t.len() == 0 || rest.contains(t) {
        } else {
            let nw = rest.push(t);
            assert forall|i: int| 0 <= i < nw.len() implies entry_wf(#[trigger] nw[i]) by {
                if i < rest.len() {
                    assert(nw[i] == rest[i]);
                } else {
                    assert(nw[i] == t);
                }
            };
            assert forall|i: int, j: int| 0 <= i < j < nw.len() implies nw[i] != nw[j] by {
                if j < rest.len() {
                    assert(nw[i] == rest[i] && nw[j] == rest[j]);
                } else {
                    assert(nw[j] == t);
                    assert(nw[i] == rest[i]);
                    if rest[i] == t {
                        assert(rest.contains(t));
                    }
                }
            };
        }
    }
}

/// Whether some entry of `v` reads as `x`.
pub fn contains_entry(v: &Vec<String>, x: &String) -> (r: bool)
    ensures
        r == v.deep_view().contains(x@),
{
    let n = v.len();
    let mut j: usize = 0;
    while j < n
        invariant
            j <= n,
            n == v@.len(),
            forall|k: int| 0 <= k < j ==> v.deep_view()[k] != x@,
        decreases n - j,
    {
        if v[j] == *x {
            proof {
                assert(v.deep_view()[j as int] == x@);
            }
            return true;
        }
        j = j + 1;
    }
    proof {
        if v.deep_view().contains(x@) {
            let k = choose|k: int| 0 <= k < v.deep_view().len() && v.deep_view()[k] == x@;
            assert(false);
        }
    }
    false
}

/// Trims every entry and drops empty entries and duplicates, keeping first
/// occurrences in order.
pub fn normalize_entries(entries: &Vec<String>) -> (r: Vec<String>)
    ensures
        r.deep_view() == normalize_of(entries.deep_view()),
{
    let n = entries.len();
    let mut r: Vec<String> = Vec::new();
    let mut i: usize = 0;
    while i < n
        invariant
            i <= n,
            n == entries@.len(),
            r.deep_view() == normalize_of(entries.deep_view().subrange(0, i as int)),
        decreases n - i,
    {
        let t = trim(entries[i].as_str());
        proof {
            let dv = entries.deep_view();
            assert(dv.subrange(0, i + 1).drop_last() =~= dv.subrange(0, i as int));
            assert(dv.subrange(0, i + 1).last() == dv[i as int]);
            assert(dv[i as int] == entries@[i as int]@);
        }
        let keep = t.as_str().unicode_len() > 0 && !contains_entry(&r, &t);
        if keep {
            let ghost before = r.deep_view();
            r.push(t);
            proof {
                assert(r.deep_view() =~= before.push(
                    trim_of(entries.deep_view()[i as int]),
                ));
            }
        }
        i = i + 1;
    }
    proof {
        assert(entries.deep_view().subrange(0, n as int) =~= entries.deep_view());
    }
    r
}

/// Parses a policy document into a policy attributed to `source`.
/// Succeeds exactly on texts that deserialize as a policy document.
pub fn parse(source: PolicyRef, text: &str) -> (r: Result<Policy, PolicyError>)
    ensures
        match r {
            Ok(p) => parsed_policy(text@) matches Some(lists) && p.source == source && p.wf()
                && p.blocked_addresses.deep_view() == normalize_of(lists.0)
                && p.blocked_client_ids.deep_view() == normalize_of(lists.1),
            Err(e) => e == PolicyError::Parse && parsed_policy(text@) is None,
        },
{
    match parse_policy_fields(text) {
        None => Err(PolicyError::Parse),
        Some((addresses, ids)) => {
            let blocked_addresses = normalize_entries(&addresses);
            let blocked_client_ids = normalize_entries(&ids);
            proof {
                lemma_normalize_of_wf(addresses.deep_view());
                lemma_normalize_of_wf(ids.deep_view());
            }
            Ok(Policy { source, blocked_addresses, blocked_client_ids })
        },
    }
}

/// Resolves a policy reference from the outcome of reading its
/// configuration object: absent object or field is `NotFound`, a field that
/// is no policy document is `Parse`, a failed read is `Transport`, and
/// otherwise the parsed, normalized policy is returned.
pub fn resolve(source: PolicyRef, read: Result<Option<&ConfigObject>, String>) -> (r: Result<
    Policy,
    PolicyError,
>)
    ensures
        match read {
            Err(m) => r matches Err(e) && e matches PolicyError::Transport(t) && t == m,
            Ok(None) => r matches Err(e) && e == PolicyError::NotFound,
            Ok(Some(o)) => match field_of(o.data@, "hermit.json"@) {
                None => r matches Err(e) && e == PolicyError::NotFound,
                Some(text) => match r {
                    Ok(p) => parsed_policy(text) matches Some(lists) && p.source == source
                        && p.wf() && p.blocked_addresses.deep_view() == normalize_of(lists.0)
                        && p.blocked_client_ids.deep_view() == normalize_of(lists.1),
                    Err(e) => e == PolicyError::Parse && parsed_policy(text) is None,
                },
            },
        },
{
    match read {
        Err(m) => Err(PolicyError::Transport(m)),
        Ok(None) => Err(PolicyError::NotFound),
        Ok(Some(o)) => {
            let key = "hermit.json".to_owned();
            match field_value(&o.data, &key) {
                None => Err(PolicyError::NotFound),
                Some(text) => parse(source, text.as_str()),
            }
        },
    }
}

} // verus!
