//! Which calls a provisioning run makes for a wallet, and where the node
//! serves a wallet.
//!
//! The node keeps the wallets; this module only decides. A run first learns
//! which wallets the node lists. A wallet that is listed needs nothing. One
//! that is not is loaded, and created only where loading failed.

use vstd::prelude::*;
use vstd::string::StringExecFns;

verus! {

/// What a provisioning run does next for one wallet.
#[derive(Debug, Clone, Copy, PartialEq, Eq)]
pub enum WalletStep {
    /// Nothing: the wallet can be used.
    Ready,
    /// Ask the node to load the wallet.
    Load,
    /// Ask the node to create the wallet.
    Create,
}

/// Whether `name` is among the listed wallets.
pub open spec fn is_listed(listed: Seq<String>, name: Seq<char>) -> bool {
    exists|i: int| 0 <= i < listed.len() && (#[trigger] listed[i])@ == name
}

/// The first step for a wallet, from what the node lists.
pub open spec fn first_step_of(listed: Seq<String>, name: Seq<char>) -> WalletStep {
    if is_listed(listed, name) {
        WalletStep::Ready
    } else {
        WalletStep::Load
    }
}

/// The step that follows an attempt to load.
pub open spec fn step_after_load(loaded: bool) -> WalletStep {
    if loaded {
        WalletStep::Ready
    } else {
        WalletStep::Create
    }
}

/// The calls that a whole run makes for one wallet, in order, where loading
/// answers `loaded`.
pub open spec fn calls_of(listed: Seq<String>, name: Seq<char>, loaded: bool) -> Seq<WalletStep> {
    if first_step_of(listed, name) == WalletStep::Ready {
        Seq::empty()
    } else if step_after_load(loaded) == WalletStep::Ready {
        seq![WalletStep::Load]
    } else {
        seq![WalletStep::Load, WalletStep::Create]
    }
}

/// Decides the first step for the wallet `name`, given the wallets that the
/// node lists.
pub fn first_step(listed: &Vec<String>, name: &String) -> (r: WalletStep)
    ensures
        r == first_step_of(listed@, name@),
{
    let mut i: usize = 0;
    while i < listed.len()
        invariant
            i <= listed.len(),
            forall|j: int| 0 <= j < i ==> (#[trigger] listed@[j])@ != name@,
        decreases listed.len() - i,
    {
        if listed[i] == *name {
            return WalletStep::Ready;
        }
        i = i + 1;
    }
    WalletStep::Load
}

/// Decides the step that follows an attempt to load the wallet.
pub fn after_load(loaded: bool) -> (r: WalletStep)
    ensures
        r == step_after_load(loaded),
{
    if loaded {
        WalletStep::Ready
    } else {
        WalletStep::Create
    }
}

/// The endpoint of the node that is scoped to the wallet `name`: the node's
/// own endpoint, then `/wallet/`, then the name.
pub fn wallet_endpoint(base: &str, name: &str) -> (r: String)
    ensures
        r@ == base@ + "/wallet/"@ + name@,
{
    let mut s = base.to_owned();
    s.append("/wallet/");
    s.append(name);
    s
}

/// A run for a wallet that the node already lists makes no call: nothing is
/// loaded again, nothing is created twice, and nothing can fail.
pub proof fn law_listed_wallet_needs_no_call(listed: Seq<String>, name: Seq<char>, loaded: bool)
    requires
        is_listed(listed, name),
    ensures
        first_step_of(listed, name) == WalletStep::Ready,
        calls_of(listed, name, loaded) == Seq::<WalletStep>::empty(),
{
}

/// No run creates a wallet that could be loaded, and no run creates a wallet
/// more than once.
pub proof fn law_create_only_after_failed_load(listed: Seq<String>, name: Seq<char>, loaded: bool)
    ensures
        calls_of(listed, name, loaded).contains(WalletStep::Create) ==> !loaded && !is_listed(
            listed,
            name,
        ),
        forall|i: int, j: int|
            0 <= i < j < calls_of(listed, name, loaded).len() ==> calls_of(listed, name, loaded)[i]
                != calls_of(listed, name, loaded)[j],
{
    let calls = calls_of(listed, name, loaded);
    if calls.contains(WalletStep::Create) {
        let k = choose|k: int| 0 <= k < calls.len() && calls[k] == WalletStep::Create;
        assert(calls[k] == WalletStep::Create);
    }
}

} // verus!
