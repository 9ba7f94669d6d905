use vstd::prelude::*;

use crate::api::Agent;
use crate::cargo_management::ContractRequirement;

verus! {

/// A contract offered to or held by the agent.
#[derive(Debug, Clone, PartialEq, Eq)]
pub struct Contract {
    pub id: String,
    pub faction_symbol: String,
    pub contract_type: String,
    pub terms: ContractTerms,
    pub accepted: bool,
    pub fulfilled: bool,
    pub deadline_to_accept: String,
}

/// Deadline, payment and deliveries of a contract.
#[derive(Debug, Clone, PartialEq, Eq)]
pub struct ContractTerms {
    pub deadline: String,
    pub payment: ContractPayment,
    pub deliver: Option<Vec<ContractDelivery>>,
}

/// What a contract pays on acceptance and on fulfilment.
#[derive(Debug, Clone, PartialEq, Eq)]
pub struct ContractPayment {
    pub on_accepted: i32,
    pub on_fulfilled: i32,
}

/// One good that a contract asks to be delivered somewhere.
#[derive(Debug, Clone, PartialEq, Eq)]
pub struct ContractDelivery {
    pub trade_symbol: String,
    pub destination_symbol: String,
    pub units_required: i32,
    pub units_fulfilled: i32,
}

/// The server's answer to accepting a contract.
#[derive(Debug, Clone, PartialEq, Eq)]
pub struct AcceptContractResponse {
    pub contract: Contract,
    pub agent: Agent,
}

/// A contract binds the agent while it is accepted and not yet fulfilled.
pub open spec fn is_binding(c: Contract) -> bool {
    c.accepted && !c.fulfilled
}

/// A delivery is open while fewer units were delivered than required.
pub open spec fn is_open(d: ContractDelivery) -> bool {
    d.units_required > d.units_fulfilled
}

/// The requirement an open delivery stands for.
pub open spec fn requirement_of(d: ContractDelivery) -> ContractRequirement {
    ContractRequirement {
        trade_symbol: d.trade_symbol,
        required_units: (d.units_required - d.units_fulfilled) as i64,
        fulfilled_units: d.units_fulfilled,
        destination: d.destination_symbol,
    }
}

/// The requirements of the open deliveries among `ds`, in their order.
pub open spec fn open_requirements(ds: Seq<ContractDelivery>) -> Seq<ContractRequirement>
    decreases ds.len(),
{
    if ds.len() == 0 {
        seq![]
    } else {
        open_requirements(ds.drop_last()) + if is_open(ds.last()) {
            seq![requirement_of(ds.last())]
        } else {
            seq![]
        }
    }
}

/// What one contract still asks for: nothing unless it is binding.
pub open spec fn contract_requirements(c: Contract) -> Seq<ContractRequirement> {
    if is_binding(c) {
        match c.terms.deliver {
            Some(ds) => open_requirements(ds@),
            None => seq![],
        }
    } else {
        seq![]
    }
}

/// What all of `cs` still ask for, contract by contract.
pub open spec fn all_requirements(cs: Seq<Contract>) -> Seq<ContractRequirement>
    decreases cs.len(),
{
    if cs.len() == 0 {
        seq![]
    } else {
        all_requirements(cs.drop_last()) + contract_requirements(cs.last())
    }
}

proof fn lemma_open_requirements_concat(a: Seq<ContractDelivery>, b: Seq<ContractDelivery>)
    ensures
        open_requirements(a + b) == open_requirements(a) + open_requirements(b),
    decreases b.len(),
{
    if b.len() == 0 {
        assert(a + b == a);
    } else {
        assert((a + b).drop_last() == a + b.drop_last());
        lemma_open_requirements_concat(a, b.drop_last());
    }
}

proof fn lemma_all_requirements_concat(a: Seq<Contract>, b: Seq<Contract>)
    ensures
        all_requirements(a + b) == all_requirements(a) + all_requirements(b),
    decreases b.len(),
{
    if b.len() == 0 {
        assert(a + b == a);
    } else {
        assert((a + b).drop_last() == a + b.drop_last());
        lemma_all_requirements_concat(a, b.drop_last());
    }
}

/// A contract that is not accepted, or already fulfilled, contributes no
/// requirement wherever it stands among the others.
pub proof fn lemma_non_binding_contract_adds_nothing(
    before: Seq<Contract>,
    c: Contract,
    after: Seq<Contract>,
)
    requires
        !c.accepted || c.fulfilled,
    ensures
        all_requirements(before + seq![c] + after) == all_requirements(before + after),
{
    lemma_all_requirements_concat(before + seq![c], after);
    lemma_all_requirements_concat(before, seq![c]);
    lemma_all_requirements_concat(before, after);
    assert(seq![c].drop_last() =~= Seq::<Contract>::empty());
    assert(seq![c].last() == c);
    assert(all_requirements(Seq::<Contract>::empty()) =~= Seq::<ContractRequirement>::empty());
    assert(all_requirements(seq![c]) =~= Seq::<ContractRequirement>::empty());
}

/// A delivery whose fulfilled units reach its required units contributes no
/// requirement wherever it stands among the others.
pub proof fn lemma_met_delivery_adds_nothing(
    before: Seq<ContractDelivery>,
    d: ContractDelivery,
    after: Seq<ContractDelivery>,
)
    requires
        d.units_fulfilled >= d.units_required,
    ensures
        open_requirements(before + seq![d] + after) == open_requirements(before + after),
{
    lemma_open_requirements_concat(before + seq![d], after);
    lemma_open_requirements_concat(before, seq![d]);
    lemma_open_requirements_concat(before, after);
    assert(seq![d].drop_last() =~= Seq::<ContractDelivery>::empty());
    assert(seq![d].last() == d);
    assert(open_requirements(Seq::<ContractDelivery>::empty()) =~= Seq::<ContractRequirement>::empty());
    assert(open_requirements(seq![d]) =~= Seq::<ContractRequirement>::empty());
}

/// Every requirement derived from contracts asks for at least one unit.
pub proof fn lemma_requirements_are_positive(cs: Seq<Contract>)
    ensures
        forall|k: int|
            0 <= k < all_requirements(cs).len() ==> #[trigger] all_requirements(cs)[k].required_units
                > 0,
    decreases cs.len(),
{
    if cs.len() > 0 {
        lemma_requirements_are_positive(cs.drop_last());
        let c = cs.last();
        if is_binding(c) {
            if let Some(ds) = c.terms.deliver {
                lemma_open_requirements_positive(ds@);
            }
        }
        let prefix = all_requirements(cs.drop_last());
        let tail = contract_requirements(c);
        assert forall|k: int| 0 <= k < all_requirements(cs).len() implies #[trigger] all_requirements(
            cs,
        )[k].required_units > 0 by {
            if k >= prefix.len() {
                assert(all_requirements(cs)[k] == tail[k - prefix.len()]);
            }
        }
    }
}

proof fn lemma_open_requirements_positive(ds: Seq<ContractDelivery>)
    ensures
        forall|k: int|
            0 <= k < open_requirements(ds).len() ==> #[trigger] open_requirements(ds)[k].required_units
                > 0,
    decreases ds.len(),
{
    if ds.len() > 0 {
        lemma_open_requirements_positive(ds.drop_last());
        let prefix = open_requirements(ds.drop_last());
        assert forall|k: int| 0 <= k < open_requirements(ds).len() implies #[trigger] open_requirements(
            ds,
        )[k].required_units > 0 by {
            if k >= prefix.len() {
                assert(open_requirements(ds)[k] == requirement_of(ds.last()));
            }
        }
    }
}

/// Appends to `out` the requirements of the open deliveries in `ds`.
fn push_open_requirements(ds: &Vec<ContractDelivery>, out: &mut Vec<ContractRequirement>)
    ensures
        final(out)@ == old(out)@ + open_requirements(ds@),
{
    let ghost start = out@;
    let mut j: usize = 0;
    while j < ds.len()
        invariant
            j <= ds.len(),
            out@ == start + open_requirements(ds@.subrange(0, j as int)),
        decreases ds.len() - j,
    {
        let d = &ds[j];
        assert(ds@.subrange(0, j + 1).drop_last() == ds@.subrange(0, j as int));
        let remaining: i64 = d.units_required as i64 - d.units_fulfilled as i64;
        if remaining > 0 {
            out.push(
                ContractRequirement {
                    trade_symbol: d.trade_symbol.clone(),
                    required_units: remaining,
                    fulfilled_units: d.units_fulfilled,
                    destination: d.destination_symbol.clone(),
                },
            );
        }
        j += 1;
    }
    assert(ds@.subrange(0, ds.len() as int) == ds@);
}

/// The outstanding requirements of the fetched contracts, in contract order
/// and then delivery order. Where the contracts could not be fetched the
/// result is empty, so that market analysis still goes on.
pub fn get_contract_requirements(fetched: Option<&Vec<Contract>>) -> (r: Vec<ContractRequirement>)
    ensures
        r@ == match fetched {
            Some(cs) => all_requirements(cs@),
            None => seq![],
        },
{
    let mut requirements: Vec<ContractRequirement> = Vec::new();
    if let Some(contracts) = fetched {
        let mut i: usize = 0;
        while i < contracts.len()
            invariant
                i <= contracts.len(),
                requirements@ == all_requirements(contracts@.subrange(0, i as int)),
            decreases contracts.len() - i,
        {
            let contract = &contracts[i];
            assert(contracts@.subrange(0, i + 1).drop_last() == contracts@.subrange(0, i as int));
            if contract.accepted && !contract.fulfilled {
                if let Some(deliveries) = &contract.terms.deliver {
                    push_open_requirements(deliveries, &mut requirements);
                }
            }
            i += 1;
        }
        assert(contracts@.subrange(0, contracts.len() as int) == contracts@);
    }
    requirements
}

} // verus!
