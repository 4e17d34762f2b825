//! Which clients may use the proxy.
use crate::status::{reply, HttpStatus, Reply};
#[allow(unused_imports)]
use vstd::string::StringExecFns;
use vstd::prelude::*;

verus! {

/// An IP address, as the number that its bytes make up, highest byte first.
#[derive(Clone, Copy, PartialEq, Eq, Structural, Debug)]
pub enum IpAddress {
    V4(u32),
    V6(u128),
}

impl IpAddress {
    /// Whether this is the unspecified address, `0.0.0.0` or `::`.
    pub open spec fn unspecified(self) -> bool {
        self == IpAddress::V4(0) || self == IpAddress::V6(0)
    }

    /// Whether this is the unspecified address.
    pub fn is_unspecified(&self) -> (yes: bool)
        ensures
            yes == self.unspecified(),
    {
        match self {
            IpAddress::V4(bits) => *bits == 0,
            IpAddress::V6(bits) => *bits == 0,
        }
    }
}

/// Whether the list admits every client: it holds an unspecified address.
pub open spec fn admits_all(allowed: Seq<IpAddress>) -> bool {
    exists|i: int| 0 <= i < allowed.len() && (#[trigger] allowed[i]).unspecified()
}

/// Whether the list admits the client: it admits everyone, or it holds this address.
pub open spec fn admits(allowed: Seq<IpAddress>, client: IpAddress) -> bool {
    admits_all(allowed) || allowed.contains(client)
}

/// Whether the list admits every client.
pub fn allow_all(allowed: &Vec<IpAddress>) -> (yes: bool)
    ensures
        yes == admits_all(allowed@),
{
    let mut i: usize = 0;
    while i < allowed.len()
        invariant
            i <= allowed.len(),
            forall|j: int| 0 <= j < i ==> !(#[trigger] allowed@[j]).unspecified(),
        decreases allowed.len() - i,
    {
        if allowed[i].is_unspecified() {
            return true;
        }
        i += 1;
    }
    false
}

fn lists(allowed: &Vec<IpAddress>, client: IpAddress) -> (yes: bool)
    ensures
        yes == allowed@.contains(client),
{
    let mut i: usize = 0;
    while i < allowed.len()
        invariant
            i <= allowed.len(),
            forall|j: int| 0 <= j < i ==> allowed@[j] != client,
        decreases allowed.len() - i,
    {
        if allowed[i] == client {
            return true;
        }
        i += 1;
    }
    false
}

/// Lets a request through if its client is admitted, and answers it otherwise. `client_text` is
/// the client's address in the usual notation.
pub fn ip_allowlist(allowed: &Vec<IpAddress>, client: IpAddress, client_text: &str) -> (verdict:
    Result<(), Reply>)
    ensures
        match verdict {
            Ok(_) => admits(allowed@, client),
            Err(refusal) => !admits(allowed@, client) && refusal@ == reply(
                403,
                "IP "@ + client_text@ + " not in allowlist"@,
            ),
        },
{
    if !allow_all(allowed) && !lists(allowed, client) {
        let mut body: String = "IP ".to_owned();
        body.append(client_text);
        body.append(" not in allowlist");
        return Err(Reply::new(HttpStatus::forbidden(), body));
    }
    Ok(())
}

/// A list that holds all addresses of another, in whatever order, admits all clients that the other
/// admits.
pub proof fn law_wider_lists_admit_more(
    allowed: Seq<IpAddress>,
    wider: Seq<IpAddress>,
    client: IpAddress,
)
    requires
        forall|address: IpAddress| allowed.contains(address) ==> wider.contains(address),
        admits(allowed, client),
    ensures
        admits(wider, client),
{
    if admits_all(allowed) {
        let i = choose|i: int| 0 <= i < allowed.len() && (#[trigger] allowed[i]).unspecified();
        assert(allowed.contains(allowed[i]));
        let j = choose|j: int| 0 <= j < wider.len() && wider[j] == allowed[i];
        assert(wider[j].unspecified());
    }
}

/// Adding addresses to a list takes access away from nobody.
pub proof fn law_longer_lists_admit_more(
    allowed: Seq<IpAddress>,
    more: Seq<IpAddress>,
    client: IpAddress,
)
    requires
        admits(allowed, client),
    ensures
        admits(allowed + more, client),
{
    assert forall|address: IpAddress| allowed.contains(address) implies (allowed + more).contains(
        address,
    ) by {
        let i = choose|i: int| 0 <= i < allowed.len() && allowed[i] == address;
        assert((allowed + more)[i] == address);
    }
    law_wider_lists_admit_more(allowed, allowed + more, client);
}

/// A client is admitted exactly if its address is listed, or if `0.0.0.0` or `::` is.
pub proof fn law_admitted_clients_are_listed(allowed: Seq<IpAddress>, client: IpAddress)
    ensures
        admits(allowed, client) <==> allowed.contains(client) || allowed.contains(IpAddress::V4(0))
            || allowed.contains(IpAddress::V6(0)),
        admits_all(allowed) <==> allowed.contains(IpAddress::V4(0)) || allowed.contains(
            IpAddress::V6(0),
        ),
{
    if allowed.contains(IpAddress::V4(0)) {
        let i = choose|i: int| 0 <= i < allowed.len() && allowed[i] == IpAddress::V4(0);
        assert(allowed[i].unspecified());
    }
    if allowed.contains(IpAddress::V6(0)) {
        let i = choose|i: int| 0 <= i < allowed.len() && allowed[i] == IpAddress::V6(0);
        assert(allowed[i].unspecified());
    }
    if admits_all(allowed) {
        let i = choose|i: int| 0 <= i < allowed.len() && (#[trigger] allowed[i]).unspecified();
        assert(allowed.contains(allowed[i]));
    }
}

} // verus!
