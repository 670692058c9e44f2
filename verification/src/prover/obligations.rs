//! Proof obligations: the safety properties a program must be proved to
//! have, each with its assumptions, target and the negated query that a
//! solver refutes.

use vstd::prelude::*;

verus! {

/// What an obligation is about.
#[derive(Clone, Copy, Debug, PartialEq, Eq, Structural)]
pub enum ObligationKind {
    /// Every use of a value respects linearity.
    OwnershipInvariant,
    /// A region is only accessed while active.
    RegionSafety,
    /// No shared mutable access.
    LinearityConstraint,
    /// Effects happen after their preconditions.
    EffectOrdering,
    /// An index lies within bounds.
    BoundsCheck,
    /// An effect's precondition holds.
    EffectPrecondition,
}

/// A single proof obligation.
#[derive(Clone, Debug)]
pub struct ProofObligation {
    pub id: u32,
    pub kind: ObligationKind,
    pub description: String,
    pub assumptions: Vec<String>,
    pub target: String,
    pub negated_query: String,
}

/// Whether an obligation has the given parts.
pub open spec fn obligation_is(
    o: ProofObligation,
    id: u32,
    kind: ObligationKind,
    description: Seq<char>,
    assumptions: Seq<Seq<char>>,
    target: Seq<char>,
    negated_query: Seq<char>,
) -> bool {
    &&& o.id == id
    &&& o.kind == kind
    &&& o.description@ == description
    &&& o.assumptions@.map_values(|a: String| a@) == assumptions
    &&& o.target@ == target
    &&& o.negated_query@ == negated_query
}

fn cat3(a: &str, x: &str, b: &str) -> (s: String)
    ensures
        s@ == a@ + x@ + b@,
{
    let mut s = String::from_str(a);
    s.append(x);
    s.append(b);
    s
}

fn cat5(a: &str, x: &str, b: &str, y: &str, c: &str) -> (s: String)
    ensures
        s@ == a@ + x@ + b@ + y@ + c@,
{
    let mut s = String::from_str(a);
    s.append(x);
    s.append(b);
    s.append(y);
    s.append(c);
    s
}

impl ProofObligation {
    /// The obligation that a value is used linearly.
    pub fn ownership_invariant(id: u32, value: &str) -> (o: Self)
        ensures
            obligation_is(o, id, ObligationKind::OwnershipInvariant,
                "Value '"@ + value@ + "' respects ownership invariant (linear use)"@,
                seq!["linear("@ + value@ + ")"@, "not_consumed("@ + value@ + ")"@],
                "safe(owns("@ + value@ + "))"@,
                "?- double_use("@ + value@ + ")."@),
    {
        let assumptions = vec![cat3("linear(", value, ")"), cat3("not_consumed(", value, ")")];
        let o = ProofObligation {
            id,
            kind: ObligationKind::OwnershipInvariant,
            description: cat3("Value '", value, "' respects ownership invariant (linear use)"),
            assumptions,
            target: cat3("safe(owns(", value, "))"),
            negated_query: cat3("?- double_use(", value, ")."),
        };
        assert(o.assumptions@.map_values(|a: String| a@) =~= seq!["linear("@ + value@ + ")"@, "not_consumed("@ + value@ + ")"@]);
        o
    }

    /// The obligation that a region is accessed only while active.
    pub fn region_safety(id: u32, region: &str) -> (o: Self)
        ensures
            obligation_is(o, id, ObligationKind::RegionSafety,
                "Region '"@ + region@ + "' access is safe (active state)"@,
                seq!["region_entered("@ + region@ + ")"@, "not region_closed("@ + region@ + ")"@],
                "safe(access_to("@ + region@ + "))"@,
                "?- access_to_closed("@ + region@ + ")."@),
    {
        let assumptions = vec![cat3("region_entered(", region, ")"), cat3("not region_closed(", region, ")")];
        let o = ProofObligation {
            id,
            kind: ObligationKind::RegionSafety,
            description: cat3("Region '", region, "' access is safe (active state)"),
            assumptions,
            target: cat3("safe(access_to(", region, "))"),
            negated_query: cat3("?- access_to_closed(", region, ")."),
        };
        assert(o.assumptions@.map_values(|a: String| a@) =~= seq!["region_entered("@ + region@ + ")"@, "not region_closed("@ + region@ + ")"@]);
        o
    }

    /// The obligation that an index lies within the bounds of a length.
    pub fn bounds_check(id: u32, index: &str, length: &str) -> (o: Self)
        ensures
            obligation_is(o, id, ObligationKind::BoundsCheck,
                "Index "@ + index@ + " is within bounds of "@ + length@,
                seq!["index_value("@ + index@ + ")"@, "array_length("@ + length@ + ")"@],
                "within_bounds("@ + index@ + ", "@ + length@ + ")"@,
                "?- "@ + index@ + " >= "@ + length@ + "."@),
    {
        let assumptions = vec![cat3("index_value(", index, ")"), cat3("array_length(", length, ")")];
        let mut description = String::from_str("Index ");
        description.append(index);
        description.append(" is within bounds of ");
        description.append(length);
        let o = ProofObligation {
            id,
            kind: ObligationKind::BoundsCheck,
            description,
            assumptions,
            target: cat5("within_bounds(", index, ", ", length, ")"),
            negated_query: cat5("?- ", index, " >= ", length, "."),
        };
        assert(o.assumptions@.map_values(|a: String| a@) =~= seq!["index_value("@ + index@ + ")"@, "array_length("@ + length@ + ")"@]);
        o
    }

    /// The obligation that one effect's preconditions hold before another.
    pub fn effect_ordering(id: u32, effect1: &str, effect2: &str) -> (o: Self)
        ensures
            obligation_is(o, id, ObligationKind::EffectOrdering,
                "Effect '"@ + effect1@ + "' preconditions satisfied before '"@ + effect2@ + "'"@,
                seq!["effect_precondition("@ + effect1@ + ")"@, "ordering("@ + effect1@ + ", "@ + effect2@ + ")"@],
                "safe(order("@ + effect1@ + ", "@ + effect2@ + "))"@,
                "?- precondition_violated("@ + effect1@ + ", "@ + effect2@ + ")."@),
    {
        let assumptions = vec![
            cat3("effect_precondition(", effect1, ")"),
            cat5("ordering(", effect1, ", ", effect2, ")"),
        ];
        let o = ProofObligation {
            id,
            kind: ObligationKind::EffectOrdering,
            description: cat5("Effect '", effect1, "' preconditions satisfied before '", effect2, "'"),
            assumptions,
            target: cat5("safe(order(", effect1, ", ", effect2, "))"),
            negated_query: cat5("?- precondition_violated(", effect1, ", ", effect2, ")."),
        };
        assert(o.assumptions@.map_values(|a: String| a@) =~= seq![
            "effect_precondition("@ + effect1@ + ")"@,
            "ordering("@ + effect1@ + ", "@ + effect2@ + ")"@,
        ]);
        o
    }
}

/// The obligations of a program.
#[derive(Clone, Debug)]
pub struct ObligationSet {
    pub obligations: Vec<ProofObligation>,
}

impl ObligationSet {
    /// An empty set.
    pub fn new() -> (s: Self)
        ensures
            s.obligations@.len() == 0,
    {
        ObligationSet { obligations: Vec::new() }
    }

    /// Adds an obligation at the end.
    pub fn add(&mut self, obligation: ProofObligation)
        ensures
            final(self).obligations@ == old(self).obligations@.push(obligation),
    {
        self.obligations.push(obligation);
    }
}

} // verus!
