//! The upstreams that requests may be routed to.
//!
//! The configured list is fixed when the proxy starts. The live list holds
//! the upstreams that are believed to be reachable: it starts as the
//! configured list, loses an upstream when a connection to it fails, and is
//! replaced as a whole after each health check. It never holds an address
//! that is not configured. It may be empty: then no upstream can be reached.

use vstd::prelude::*;

verus! {

/// The test that an address is not `addr`.
pub open spec fn differs_from(addr: Seq<char>) -> spec_fn(Seq<char>) -> bool {
    |a: Seq<char>| a != addr
}

/// The addresses of `live` that are not `addr`, in their order.
pub open spec fn without(live: Seq<Seq<char>>, addr: Seq<char>) -> Seq<Seq<char>> {
    live.filter(differs_from(addr))
}

/// Every address of `live` is one of `configured`.
pub open spec fn within(live: Seq<Seq<char>>, configured: Seq<Seq<char>>) -> bool {
    forall|i: int| 0 <= i < live.len() ==> configured.contains(#[trigger] live[i])
}

/// What is left after a removal is what was there and is not the removed
/// address; nothing is added.
pub proof fn lemma_without_members(live: Seq<Seq<char>>, addr: Seq<char>)
    ensures
        forall|a: Seq<char>| #[trigger]
            without(live, addr).contains(a) <==> live.contains(a) && a != addr,
        without(live, addr).len() <= live.len(),
{
    let keep = differs_from(addr);
    live.lemma_filter_len(keep);
    assert forall|a: Seq<char>| #[trigger]
        without(live, addr).contains(a) <==> live.contains(a) && a != addr by {
        if without(live, addr).contains(a) {
            live.lemma_filter_contains_rev(keep, a);
            let j = choose|j: int| 0 <= j < live.filter(keep).len() && live.filter(keep)[j] == a;
            live.lemma_filter_pred(keep, j);
        }
        if live.contains(a) && a != addr {
            let i = choose|i: int| 0 <= i < live.len() && live[i] == a;
            live.lemma_filter_contains(keep, i);
        }
    }
}

/// Removing an address that is not in the list leaves the list as it is.
pub proof fn lemma_remove_absent(live: Seq<Seq<char>>, addr: Seq<char>)
    requires
        !live.contains(addr),
    ensures
        without(live, addr) == live,
    decreases live.len(),
{
    reveal(Seq::filter);
    if live.len() > 0 {
        let front = live.drop_last();
        assert(live[live.len() - 1] == live.last());
        assert forall|i: int| 0 <= i < front.len() implies front[i] != addr by {
            assert(live[i] == front[i]);
        }
        lemma_remove_absent(front, addr);
        assert(front.push(live.last()) =~= live);
    }
}

/// Removing an address a second time changes nothing.
pub proof fn lemma_remove_idempotent(live: Seq<Seq<char>>, addr: Seq<char>)
    ensures
        without(without(live, addr), addr) == without(live, addr),
{
    lemma_without_members(live, addr);
    lemma_remove_absent(without(live, addr), addr);
}

/// Removing an address that is in the list makes the list shorter. So a
/// caller that removes each upstream it could not connect to runs out of
/// upstreams after as many failures as the list is long.
pub proof fn lemma_remove_shrinks(live: Seq<Seq<char>>, addr: Seq<char>)
    requires
        live.contains(addr),
    ensures
        without(live, addr).len() < live.len(),
    decreases live.len(),
{
    reveal(Seq::filter);
    let front = live.drop_last();
    if live.last() == addr {
        front.lemma_filter_len(differs_from(addr));
    } else {
        let i = choose|i: int| 0 <= i < live.len() && live[i] == addr;
        assert(front[i] == addr);
        lemma_remove_shrinks(front, addr);
    }
}

/// The address that a selector picks from `live`: the one at the selector's
/// place, counted round the list. An empty list has none to pick.
pub open spec fn selected(live: Seq<Seq<char>>, selector: nat) -> Option<Seq<char>> {
    if live.len() == 0 {
        None
    } else {
        Some(live[(selector % live.len()) as int])
    }
}

/// What a selector picks is live.
pub proof fn lemma_selected_is_live(live: Seq<Seq<char>>, selector: nat)
    ensures
        selected(live, selector) is None <==> live.len() == 0,
        selected(live, selector) matches Some(addr) ==> live.contains(addr),
{
    if live.len() > 0 {
        let at = (selector % live.len()) as int;
        assert(0 <= at < live.len()) by (nonlinear_arith)
            requires
                at == selector % live.len(),
                live.len() > 0,
        ;
        assert(live[at] == selected(live, selector)->0);
    }
}

/// Whether `addr` is one of `list`.
fn holds(list: &Vec<String>, addr: &String) -> (found: bool)
    ensures
        found == list.deep_view().contains(addr@),
{
    let mut i: usize = 0;
    while i < list.len()
        invariant
            i <= list.len(),
            forall|k: int| 0 <= k < i ==> list.deep_view()[k] != addr@,
        decreases list.len() - i,
    {
        if list[i] == *addr {
            assert(list.deep_view()[i as int] == addr@);
            return true;
        }
        i += 1;
    }
    false
}

/// Whether every address of `list` is one of `configured`.
fn all_within(list: &Vec<String>, configured: &Vec<String>) -> (all: bool)
    ensures
        all == within(list.deep_view(), configured.deep_view()),
{
    let mut i: usize = 0;
    while i < list.len()
        invariant
            i <= list.len(),
            forall|k: int|
                0 <= k < i ==> configured.deep_view().contains(#[trigger] list.deep_view()[k]),
        decreases list.len() - i,
    {
        if !holds(configured, &list[i]) {
            assert(list.deep_view()[i as int] == list[i as int]@);
            return false;
        }
        i += 1;
    }
    true
}

/// The configured upstreams and those of them that are live.
pub struct LiveUpstreams {
    configured: Vec<String>,
    live: Vec<String>,
}

impl LiveUpstreams {
    #[verifier::type_invariant]
    spec fn live_is_configured(self) -> bool {
        &&& self.configured.len() > 0
        &&& within(self.live.deep_view(), self.configured.deep_view())
    }

    /// The configured addresses, in the order in which they were given.
    pub closed spec fn configured(&self) -> Seq<Seq<char>> {
        self.configured.deep_view()
    }

    /// The live addresses, in their order.
    pub closed spec fn live(&self) -> Seq<Seq<char>> {
        self.live.deep_view()
    }

    /// The state at startup: every configured upstream is live. There is no
    /// such state for an empty list.
    pub fn new(configured: Vec<String>) -> (state: Option<LiveUpstreams>)
        ensures
            state is None <==> configured.len() == 0,
            state matches Some(upstreams) ==> {
                &&& upstreams.configured() == configured.deep_view()
                &&& upstreams.live() == configured.deep_view()
            },
    {
        if configured.len() == 0 {
            return None;
        }
        let live = configured.clone();
        assert(live.deep_view() =~= configured.deep_view());
        Some(LiveUpstreams { configured, live })
    }

    /// The configured addresses.
    pub fn configured_upstreams(&self) -> (all: Vec<String>)
        ensures
            all.deep_view() == self.configured(),
            all.len() > 0,
    {
        proof {
            use_type_invariant(self);
        }
        let all = self.configured.clone();
        assert(all.deep_view() =~= self.configured.deep_view());
        all
    }

    /// The live addresses as they are now. The result is a copy: what
    /// happens to the live list later does not show in it.
    pub fn snapshot_live_upstreams(&self) -> (snapshot: Vec<String>)
        ensures
            snapshot.deep_view() == self.live(),
            within(self.live(), self.configured()),
    {
        proof {
            use_type_invariant(self);
        }
        let snapshot = self.live.clone();
        assert(snapshot.deep_view() =~= self.live.deep_view());
        snapshot
    }

    /// The number of live upstreams.
    pub fn live_count(&self) -> (count: usize)
        ensures
            count == self.live().len(),
            within(self.live(), self.configured()),
    {
        proof {
            use_type_invariant(self);
        }
        self.live.len()
    }

    /// The live upstream that `selector` picks, if any is live.
    pub fn select(&self, selector: usize) -> (choice: Option<String>)
        ensures
            choice is None <==> self.live().len() == 0,
            choice matches Some(addr) ==> selected(self.live(), selector as nat) == Some(addr@)
                && self.live().contains(addr@),
            within(self.live(), self.configured()),
    {
        proof {
            use_type_invariant(self);
        }
        if self.live.len() == 0 {
            return None;
        }
        proof {
            lemma_selected_is_live(self.live.deep_view(), selector as nat);
        }
        let at = selector % self.live.len();
        Some(self.live[at].clone())
    }

    /// Whether `addr` is live.
    pub fn is_live(&self, addr: &str) -> (live: bool)
        ensures
            live == self.live().contains(addr@),
    {
        let wanted = addr.to_owned();
        holds(&self.live, &wanted)
    }

    /// Whether `addr` is configured.
    pub fn is_configured(&self, addr: &str) -> (configured: bool)
        ensures
            configured == self.configured().contains(addr@),
    {
        let wanted = addr.to_owned();
        holds(&self.configured, &wanted)
    }

    /// Makes `new_set` the live list, all of it at once, if each of its
    /// addresses is configured. Otherwise the live list stays as it is.
    /// Either way a reader finds one of the two lists whole, never a mix.
    pub fn replace_live(&mut self, new_set: Vec<String>) -> (replaced: bool)
        ensures
            replaced == within(new_set.deep_view(), old(self).configured()),
            final(self).configured() == old(self).configured(),
            final(self).live() == if replaced {
                new_set.deep_view()
            } else {
                old(self).live()
            },
            within(final(self).live(), final(self).configured()),
    {
        proof {
            use_type_invariant(&*self);
        }
        if all_within(&new_set, &self.configured) {
            self.live = new_set;
            true
        } else {
            false
        }
    }

    /// Removes `addr` from the live list, wherever it stands there.
    pub fn remove_live(&mut self, addr: &str)
        ensures
            final(self).configured() == old(self).configured(),
            final(self).live() == without(old(self).live(), addr@),
            !old(self).live().contains(addr@) ==> final(self).live() == old(self).live(),
            within(final(self).live(), final(self).configured()),
    {
        proof {
            use_type_invariant(&*self);
        }
        let gone = addr.to_owned();
        let mut kept: Vec<String> = Vec::new();
        let mut i: usize = 0;
        proof {
            reveal(Seq::filter);
            assert(self.live.deep_view().take(0) =~= Seq::empty());
            assert(kept.deep_view() =~= Seq::empty());
        }
        while i < self.live.len()
            invariant
                i <= self.live.len(),
                gone@ == addr@,
                kept.deep_view() == without(self.live.deep_view().take(i as int), addr@),
            decreases self.live.len() - i,
        {
            let ghost all = self.live.deep_view();
            let ghost before = kept.deep_view();
            proof {
                assert(all.take(i + 1) =~= all.take(i as int).push(all[i as int]));
                all.take(i as int).lemma_filter_push(all[i as int], differs_from(addr@));
            }
            if self.live[i] != gone {
                kept.push(self.live[i].clone());
                assert(kept.deep_view() =~= before.push(all[i as int]));
            }
            i += 1;
        }
        proof {
            let all = self.live.deep_view();
            assert(all.take(i as int) =~= all);
            lemma_without_members(all, addr@);
            assert forall|k: int| 0 <= k < kept.deep_view().len() implies self.configured.deep_view().contains(
                #[trigger] kept.deep_view()[k],
            ) by {
                assert(without(all, addr@).contains(kept.deep_view()[k]));
                let j = choose|j: int| 0 <= j < all.len() && all[j] == kept.deep_view()[k];
                assert(self.configured.deep_view().contains(all[j]));
            }
            if !all.contains(addr@) {
                lemma_remove_absent(all, addr@);
            }
        }
        self.live = kept;
    }
}

} // verus!
