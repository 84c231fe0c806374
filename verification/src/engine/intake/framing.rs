//! What an order carries as a member of its family, written on it as it is
//! taken.

use crate::engine::intake::transmit::{restating, stated_by};
use crate::types::attrs::{
    shared_copy, AttachedAttrs, AttachedComboFrame, ComboLegSpec, OrderAttrs,
};
use crate::types::orders::{OrderRequest, OrderSpec};
use std::sync::Arc;
use vstd::prelude::*;

verus! {

/// What the contract of an attached family resolved to.
#[derive(Debug)]
pub struct Framing {
    /// The number on its definition, where one is held.
    pub contract_id: Option<i64>,
    /// The legs the venue confirmed, where it is a combination.
    pub legs: Option<Arc<Vec<ComboLegSpec>>>,
    /// The terms the combination resolved to.
    pub combo: Option<Arc<AttachedComboFrame>>,
}

/// Whether some terms are those an order carries already, or none where it
/// carries none.
pub open spec fn carries(before: Option<Arc<AttachedAttrs>>, base: AttachedAttrs) -> bool {
    match before {
        Some(before) => base == *before,
        None => {
            &&& base.api_identity is None
            &&& base.contract_id is None
            &&& base.ratio_factor is None
            &&& base.family_key@.len() == 0
            &&& base.parent@.len() == 0
            &&& !base.use_parent_price
            &&& base.profit_offset is None
            &&& base.combo is None
        },
    }
}

fn carried(before: &Option<Arc<AttachedAttrs>>) -> (base: AttachedAttrs)
    ensures
        carries(*before, base),
{
    match before {
        Some(before) => (**before).clone(),
        None => AttachedAttrs::default(),
    }
}

/// What an order states, with its family's terms, its legs and the order it
/// hangs from replaced.
pub open spec fn restated_in_family(
    attrs: OrderAttrs,
    attached: AttachedAttrs,
    legs: Option<Arc<Vec<ComboLegSpec>>>,
    parent_id: u64,
) -> OrderAttrs {
    OrderAttrs {
        attached: Some(Arc::new(attached)),
        combo_legs: match legs {
            Some(legs) => legs,
            None => attrs.combo_legs,
        },
        parent_id,
        ..attrs
    }
}

#[verifier::spinoff_prover]
fn restate_in_family(
    attrs: OrderAttrs,
    attached: AttachedAttrs,
    legs: Option<Arc<Vec<ComboLegSpec>>>,
    parent_id: u64,
) -> (r: OrderAttrs)
    ensures
        r == restated_in_family(attrs, attached, legs, parent_id),
{
    let combo_legs: Arc<Vec<ComboLegSpec>> = match legs {
        Some(legs) => legs,
        None => attrs.combo_legs,
    };
    OrderAttrs { attached: Some(Arc::new(attached)), combo_legs, parent_id, ..attrs }
}

/// The terms an order carries as it is taken: what its family's contract
/// resolved to where it belongs to one, the key of a family it begins, and the
/// numbers its caller has for it.
pub open spec fn taken_terms(
    base: AttachedAttrs,
    framing: Option<Framing>,
    key: Option<String>,
    identity: (i64, i32),
) -> AttachedAttrs {
    let framed = match framing {
        Some(framing) => AttachedAttrs {
            contract_id: framing.contract_id,
            combo: framing.combo,
            ..base
        },
        None => base,
    };
    AttachedAttrs {
        family_key: match key {
            Some(key) => key,
            None => framed.family_key,
        },
        api_identity: Some(identity),
        ..framed
    }
}

/// The legs an order is taken with, where its family's contract has any.
pub open spec fn framed_legs(framing: Option<Framing>) -> Option<Arc<Vec<ComboLegSpec>>> {
    match framing {
        Some(framing) => framing.legs,
        None => None,
    }
}

/// Whether an instruction is taken as another: it states its family's terms and
/// its caller's numbers, and everything else as it was. What was kept under its
/// number keeps its family's terms.
pub open spec fn taken_as(
    built: OrderRequest,
    taken: OrderRequest,
    held: Option<OrderRequest>,
    framing: Option<Framing>,
    key: Option<String>,
    parent_id: u64,
    identity: (i64, i32),
) -> bool {
    match stated_by(built) {
        None => taken == built,
        Some(attrs) => {
            let start = family_terms(attrs, held);
            exists|base: AttachedAttrs|
                {
                    &&& #[trigger] carries(start, base)
                    &&& taken == restating(
                        built,
                        restated_in_family(
                            attrs,
                            taken_terms(base, framing, key, identity),
                            framed_legs(framing),
                            parent_id,
                        ),
                    )
                }
        },
    }
}

/// The family's terms an order starts from: those of what was kept under its
/// number, and its own otherwise.
pub open spec fn family_terms(
    attrs: OrderAttrs,
    held: Option<OrderRequest>,
) -> Option<Arc<AttachedAttrs>> {
    match held {
        Some(held) => match stated_by(held) {
            Some(was) => was.attached,
            None => attrs.attached,
        },
        None => attrs.attached,
    }
}

/// The family's terms an instruction states, where it states an order whole.
pub open spec fn terms_stated(request: OrderRequest) -> Option<Option<Arc<AttachedAttrs>>> {
    match stated_by(request) {
        Some(attrs) => Some(attrs.attached),
        None => None,
    }
}

/// The family's terms an instruction states.
pub fn terms_of(request: &OrderRequest) -> (terms: Option<Option<Arc<AttachedAttrs>>>)
    ensures
        terms == terms_stated(*request),
{
    match request {
        OrderRequest::SubmitEx { attrs, .. } => Some(shared_copy(&attrs.attached)),
        OrderRequest::Modify { spec, .. } => match spec {
            Some(spec) => Some(shared_copy(&spec.attrs.attached)),
            None => None,
        },
        _ => None,
    }
}

/// The order an instruction's order hangs from, nought where it states none.
pub open spec fn parent_stated(request: OrderRequest) -> u64 {
    match stated_by(request) {
        Some(attrs) => attrs.parent_id,
        None => 0,
    }
}

fn parent_of(request: &OrderRequest) -> (parent: u64)
    ensures
        parent == parent_stated(*request),
{
    match request {
        OrderRequest::SubmitEx { attrs, .. } => attrs.parent_id,
        OrderRequest::Modify { spec, .. } => match spec {
            Some(spec) => spec.attrs.parent_id,
            None => 0,
        },
        _ => 0,
    }
}

/// Restate what an instruction's order carries of its family.
#[verifier::spinoff_prover]
fn restate(
    request: OrderRequest,
    attached: AttachedAttrs,
    legs: Option<Arc<Vec<ComboLegSpec>>>,
    parent_id: u64,
) -> (r: OrderRequest)
    ensures
        match stated_by(request) {
            Some(attrs) => r == restating(
                request,
                restated_in_family(attrs, attached, legs, parent_id),
            ),
            None => r == request,
        },
{
    match request {
        OrderRequest::SubmitEx { order_id, instrument, con_id, side, qty, kind, tif, attrs } => {
            let attrs: OrderAttrs = restate_in_family(attrs, attached, legs, parent_id);
            OrderRequest::SubmitEx { order_id, instrument, con_id, side, qty, kind, tif, attrs }
        },
        OrderRequest::Modify {
            order_id,
            price,
            qty,
            outside_rth,
            ord_type,
            tif,
            stop_price,
            spec,
        } => match spec {
            Some(spec) => {
                let spec: OrderSpec = *spec;
                let attrs: OrderAttrs = restate_in_family(spec.attrs, attached, legs, parent_id);
                OrderRequest::Modify {
                    order_id,
                    price,
                    qty,
                    outside_rth,
                    ord_type,
                    tif,
                    stop_price,
                    spec: Some(Box::new(OrderSpec { kind: spec.kind, attrs })),
                }
            },
            None => OrderRequest::Modify {
                order_id,
                price,
                qty,
                outside_rth,
                ord_type,
                tif,
                stop_price,
                spec: None,
            },
        },
        other => other,
    }
}

fn frame(base: &mut AttachedAttrs, framing: &Framing)
    ensures
        *final(base) == (AttachedAttrs {
            contract_id: framing.contract_id,
            combo: framing.combo,
            ..*old(base)
        }),
{
    base.contract_id = framing.contract_id;
    base.combo = shared_copy(&framing.combo);
}

/// Write on an instruction what its order is taken with.
pub fn take_as(
    built: OrderRequest,
    held: Option<&OrderRequest>,
    framing: Option<&Framing>,
    key: Option<&String>,
    parent_id: u64,
    identity: (i64, i32),
) -> (taken: OrderRequest)
    ensures
        taken_as(
            built,
            taken,
            (match held {
                Some(held) => Some(*held),
                None => None::<OrderRequest>,
            }),
            (match framing {
                Some(framing) => Some(*framing),
                None => None::<Framing>,
            }),
            (match key {
                Some(key) => Some(*key),
                None => None::<String>,
            }),
            parent_id,
            identity,
        ),
{
    let own: Option<Arc<AttachedAttrs>> = match terms_of(&built) {
        Some(own) => own,
        None => {
            return built;
        },
    };
    let start: Option<Arc<AttachedAttrs>> = match held {
        Some(held) => match terms_of(held) {
            Some(terms) => terms,
            None => own,
        },
        None => own,
    };
    let mut terms: AttachedAttrs = carried(&start);
    let ghost base = terms;
    let mut legs: Option<Arc<Vec<ComboLegSpec>>> = None;
    match framing {
        Some(framing) => {
            frame(&mut terms, framing);
            legs = shared_copy(&framing.legs);
        },
        None => {},
    }
    match key {
        Some(key) => {
            terms.family_key = key.clone();
        },
        None => {},
    }
    terms.api_identity = Some(identity);
    proof {
        assert(carries(start, base));
    }
    restate(built, terms, legs, parent_id)
}

/// Whether a generated order's instruction is framed as another: it states what
/// its family's contract resolved to, and everything else as it was.
pub open spec fn framed_as(
    generated: OrderRequest,
    framed: OrderRequest,
    framing: Framing,
) -> bool {
    match stated_by(generated) {
        None => framed == generated,
        Some(attrs) => exists|base: AttachedAttrs|
            {
                &&& #[trigger] carries(attrs.attached, base)
                &&& framed == restating(
                    generated,
                    restated_in_family(
                        attrs,
                        AttachedAttrs {
                            contract_id: framing.contract_id,
                            combo: framing.combo,
                            ..base
                        },
                        framing.legs,
                        attrs.parent_id,
                    ),
                )
            },
    }
}

/// Write on a generated order's instruction what its family's contract resolved
/// to.
pub fn frame_generated(generated: OrderRequest, framing: &Framing) -> (framed: OrderRequest)
    ensures
        framed_as(generated, framed, *framing),
{
    let own: Option<Arc<AttachedAttrs>> = match terms_of(&generated) {
        Some(own) => own,
        None => {
            return generated;
        },
    };
    let parent_id: u64 = parent_of(&generated);
    let mut terms: AttachedAttrs = carried(&own);
    let ghost base = terms;
    frame(&mut terms, framing);
    proof {
        assert(carries(own, base));
    }
    restate(generated, terms, shared_copy(&framing.legs), parent_id)
}

} // verus!
