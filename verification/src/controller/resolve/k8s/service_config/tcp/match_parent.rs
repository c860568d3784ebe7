//! Whether a route is attached to a listener of a gateway.
use vstd::prelude::*;
use crate::text::same_text;

verus! {

/// A route's reference to the gateway (and optionally the listener) it attaches to.
#[derive(Debug)]
pub struct ParentRef {
    pub name: String,
    pub port: Option<i32>,
    pub section_name: Option<String>,
}

/// A parent reference names the listener: same gateway, and the port and section name,
/// when given, are the listener's.
pub open spec fn parent_matches(
    parent_name: Seq<char>,
    parent_port: Option<i32>,
    parent_section_name: Option<Seq<char>>,
    gateway_name: Seq<char>,
    listener_name: Seq<char>,
    listener_port: u16,
) -> bool {
    &&& parent_name == gateway_name
    &&& (parent_port matches Some(p) ==> p == listener_port as i32)
    &&& (parent_section_name matches Some(sn) ==> sn == listener_name)
}

pub fn parent_ref_matches_listener(
    parent_name: &str,
    parent_port: Option<i32>,
    parent_section_name: Option<&str>,
    gateway_name: &str,
    listener_name: &str,
    listener_port: u16,
) -> (b: bool)
    ensures
        b == parent_matches(parent_name@, parent_port,
            match parent_section_name { Some(s) => Some(s@), None => None },
            gateway_name@, listener_name@, listener_port),
{
    if !same_text(parent_name, gateway_name) {
        return false;
    }
    if let Some(port) = parent_port {
        if port != listener_port as i32 {
            return false;
        }
    }
    if let Some(section_name) = parent_section_name {
        if !same_text(section_name, listener_name) {
            return false;
        }
    }
    true
}

/// The view of a parent reference.
pub open spec fn parent_ref_matches(pr: ParentRef, gateway_name: Seq<char>, listener_name: Seq<char>, listener_port: u16) -> bool {
    parent_matches(pr.name@, pr.port, match pr.section_name { Some(s) => Some(s@), None => None },
        gateway_name, listener_name, listener_port)
}

/// Some parent reference of the list names the listener.
pub open spec fn attaches(parent_refs: Option<Vec<ParentRef>>, gateway_name: Seq<char>, listener_name: Seq<char>, listener_port: u16) -> bool {
    parent_refs is Some && any_parent_matches(parent_refs->0@, gateway_name, listener_name, listener_port)
}

/// Some parent reference of the sequence names the listener.
pub open spec fn any_parent_matches(prs: Seq<ParentRef>, gateway_name: Seq<char>, listener_name: Seq<char>, listener_port: u16) -> bool {
    exists|i: int| 0 <= i < prs.len() && #[trigger] parent_ref_matches(prs[i], gateway_name, listener_name, listener_port)
}

/// Whether some parent reference names the listener.
pub fn parent_refs_attach_listener(
    parent_refs: &Option<Vec<ParentRef>>,
    gateway_name: &str,
    listener_name: &str,
    listener_port: u16,
) -> (b: bool)
    ensures
        b == attaches(*parent_refs, gateway_name@, listener_name@, listener_port),
{
    match parent_refs {
        None => false,
        Some(prs) => {
            let mut i: usize = 0;
            while i < prs.len()
                invariant
                    i <= prs@.len(),
                    *parent_refs == Some(*prs),
                    forall|j: int| 0 <= j < i ==> !#[trigger] parent_ref_matches(prs@[j], gateway_name@, listener_name@, listener_port),
                decreases prs@.len() - i,
            {
                let pr = &prs[i];
                let section = match &pr.section_name {
                    Some(s) => Some(s.as_str()),
                    None => None,
                };
                if parent_ref_matches_listener(pr.name.as_str(), pr.port, section, gateway_name, listener_name, listener_port) {
                    assert(parent_ref_matches(prs@[i as int], gateway_name@, listener_name@, listener_port));

                    return true;
                }
                i = i + 1;
            }
            false
        },
    }
}

} // verus!
