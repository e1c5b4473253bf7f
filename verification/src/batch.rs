//! A batch under way: which item to forward next, and how the batch ends.

use crate::host::{held, held_at, held_len};
use crate::request::{CallView, MintCall, MintRequest};
use soroban_sdk::{Address, Val};
use vstd::prelude::*;

verus! {

/// How the registry answered a forwarded call.
#[derive(Clone, Copy, Debug, PartialEq, Eq, Structural)]
pub enum Reply {
    /// The call returned.
    Accepted,
    /// The call failed.
    Refused,
}

/// What the contract does next.
#[derive(Debug)]
pub enum Step<'a> {
    /// Forward this item to this registry and hand back the reply.
    Forward {
        registry: &'a Address,
        item: Val,
    },
    /// Return this number of mints to the caller.
    Return(u32),
    /// Fail the invocation, so that the host rolls back all of it.
    Abort,
}

/// A step by its contents.
pub ghost enum StepView {
    Forward { registry: Address, item: Val },
    Return(nat),
    Abort,
}

impl<'a> View for Step<'a> {
    type V = StepView;

    open spec fn view(&self) -> StepView {
        match *self {
            Step::Forward { registry, item } => StepView::Forward { registry: *registry, item },
            Step::Return(count) => StepView::Return(count as nat),
            Step::Abort => StepView::Abort,
        }
    }
}

/// A batch by its contents: the registry, the items, how many of them the
/// registry has accepted so far, and whether it has refused one.
pub ghost struct BatchView {
    pub registry: Address,
    pub items: Seq<Val>,
    pub accepted: nat,
    pub refused: bool,
}

impl BatchView {
    /// A batch of which nothing has been forwarded.
    pub open spec fn fresh(registry: Address, items: Seq<Val>) -> BatchView {
        BatchView { registry, items, accepted: 0, refused: false }
    }

    /// Whether an item is still to be forwarded.
    pub open spec fn open(self) -> bool {
        !self.refused && self.accepted < self.items.len()
    }

    /// What is done next: items are forwarded in order until one is refused
    /// or all are accepted.
    pub open spec fn step(self) -> StepView {
        if self.refused {
            StepView::Abort
        } else if self.accepted < self.items.len() {
            StepView::Forward { registry: self.registry, item: self.items[self.accepted as int] }
        } else {
            StepView::Return(self.items.len())
        }
    }

    /// The call that forwards an item which holds this request.
    pub open spec fn call(self, request: MintRequest) -> CallView {
        CallView { contract: self.registry, request }
    }

    /// The batch after a reply. One that has ended stays as it is.
    pub open spec fn after(self, reply: Reply) -> BatchView {
        if !self.open() {
            self
        } else if reply == Reply::Accepted {
            BatchView { accepted: self.accepted + 1, ..self }
        } else {
            BatchView { refused: true, ..self }
        }
    }
}

/// A batch that the proxy has admitted.
pub struct Batch<'a> {
    registry: &'a Address,
    items: &'a soroban_sdk::Vec<Val>,
    accepted: u32,
    refused: bool,
}

impl<'a> View for Batch<'a> {
    type V = BatchView;

    closed spec fn view(&self) -> BatchView {
        BatchView {
            registry: *self.registry,
            items: held(*self.items),
            accepted: self.accepted as nat,
            refused: self.refused,
        }
    }
}

impl<'a> Batch<'a> {
    /// A batch of which nothing has been forwarded.
    pub(crate) fn fresh(registry: &'a Address, items: &'a soroban_sdk::Vec<Val>) -> (batch: Self)
        ensures
            batch@ == BatchView::fresh(*registry, held(*items)),
            batch@.registry == *registry,
            batch@.items == held(*items),
            batch@.accepted == 0,
            !batch@.refused,
    {
        Batch { registry, items, accepted: 0, refused: false }
    }

    /// What the contract does next.
    pub fn step(&self) -> (step: Step<'a>)
        ensures
            step@ == self@.step(),
            step is Abort <==> self@.refused,
            step is Forward <==> !self@.refused && self@.accepted < self@.items.len(),
            step is Return <==> !self@.refused && self@.accepted >= self@.items.len(),
            step matches Step::Forward { registry, item } ==> *registry == self@.registry && item
                == self@.items[self@.accepted as int],
            step matches Step::Return(count) ==> count == self@.items.len(),
    {
        if self.refused {
            return Step::Abort;
        }
        match held_at(self.items, self.accepted) {
            Some(item) => Step::Forward { registry: self.registry, item },
            None => Step::Return(held_len(self.items)),
        }
    }

    /// The call that forwards an item of this batch, given the request that
    /// the item holds: it goes to the batch's registry, the one that `step`
    /// names, and carries that request.
    pub fn call<'b>(&self, request: &'b MintRequest) -> (call: MintCall<'b>) where 'a: 'b
        ensures
            call@ == self@.call(*request),
            *call.contract == self@.registry,
            *call.request == *request,
    {
        MintCall { contract: self.registry, request }
    }

    /// Takes the registry's reply to the call that `step` asked for.
    pub fn reply(&mut self, reply: Reply)
        ensures
            final(self)@ == old(self)@.after(reply),
            final(self)@.registry == old(self)@.registry,
            final(self)@.items == old(self)@.items,
            !old(self)@.refused && old(self)@.accepted < old(self)@.items.len() ==> {
                &&& reply is Accepted ==> final(self)@.accepted == old(self)@.accepted + 1
                    && !final(self)@.refused
                &&& reply is Refused ==> final(self)@.accepted == old(self)@.accepted
                    && final(self)@.refused
            },
            old(self)@.refused || old(self)@.accepted >= old(self)@.items.len() ==> {
                &&& final(self)@.accepted == old(self)@.accepted
                &&& final(self)@.refused == old(self)@.refused
            },
    {
        if self.refused || self.accepted >= held_len(self.items) {
            return;
        }
        match reply {
            Reply::Accepted => {
                self.accepted = self.accepted + 1;
            },
            Reply::Refused => {
                self.refused = true;
            },
        }
    }
}

} // verus!
