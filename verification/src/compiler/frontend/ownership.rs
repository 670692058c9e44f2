//! Ownership analysis: a log of ownership facts, checked for values that
//! more than one owner holds exclusively and for values used after they
//! were consumed.

use vstd::prelude::*;
use crate::text::{debug_opt, dec, opt_view, push_debug_opt, push_decimal, str_eq};

verus! {

/// The ownership state of a value at a program point.
#[derive(Debug, Clone, Copy, PartialEq, Eq, Structural)]
pub enum OwnershipKind {
    /// Exactly one path to the value.
    Unique,
    /// Read-only access; many readers allowed.
    BorrowedShared,
    /// Exclusive write access; a single writer.
    BorrowedMut,
    /// Moved or dropped; the value cannot be used.
    Consumed,
}

/// The span for which a borrow is valid.
#[derive(Debug, Clone)]
pub struct Lifetime {
    pub name: String,
    /// Program point where the borrow begins.
    pub scope: usize,
}

/// A value's ownership at one program point.
#[derive(Debug, Clone)]
pub struct OwnershipFact {
    pub value_id: String,
    /// The thread or context that owns the value, if any.
    pub owner: Option<String>,
    pub kind: OwnershipKind,
    pub lifetime: Option<Lifetime>,
    pub region: Option<String>,
}

/// Whether a kind grants exclusive access (unique ownership or a mutable borrow).
pub open spec fn exclusive(k: OwnershipKind) -> bool {
    k == OwnershipKind::Unique || k == OwnershipKind::BorrowedMut
}

/// The views of a sequence of optional owners.
pub open spec fn owner_views(s: Seq<Option<String>>) -> Seq<Option<Seq<char>>> {
    s.map_values(|o: Option<String>| opt_view(o))
}

/// The distinct owners, in order of first appearance, that the exclusive
/// facts among the first `n` facts give to value `v`.
pub open spec fn owners_upto(facts: Seq<OwnershipFact>, v: Seq<char>, n: nat) -> Seq<Option<Seq<char>>>
    decreases n,
{
    if n == 0 || n > facts.len() {
        Seq::empty()
    } else {
        let prev = owners_upto(facts, v, (n - 1) as nat);
        let f = facts[n - 1];
        if exclusive(f.kind) && f.value_id@ == v && !prev.contains(opt_view(f.owner)) {
            prev.push(opt_view(f.owner))
        } else {
            prev
        }
    }
}

/// The distinct exclusive owners of value `v` over the whole log.
pub open spec fn owners_of(facts: Seq<OwnershipFact>, v: Seq<char>) -> Seq<Option<Seq<char>>> {
    owners_upto(facts, v, facts.len())
}

/// Fact `i` is exclusive and its value has more than one exclusive owner.
pub open spec fn shared_by_many(facts: Seq<OwnershipFact>, i: int) -> bool {
    exclusive(facts[i].kind) && owners_of(facts, facts[i].value_id@).len() > 1
}

/// Owners rendered with `debug_opt`, separated by `", "`.
pub open spec fn owners_joined(s: Seq<Option<Seq<char>>>) -> Seq<char>
    decreases s.len(),
{
    if s.len() == 0 {
        Seq::empty()
    } else if s.len() == 1 {
        debug_opt(s[0])
    } else {
        owners_joined(s.drop_last()) + ", "@ + debug_opt(s.last())
    }
}

/// The message for a value that several owners hold exclusively.
pub open spec fn aliasing_message(v: Seq<char>, owners: Seq<Option<Seq<char>>>) -> Seq<char> {
    "Multiple threads own value "@ + v + ": {"@ + owners_joined(owners) + "}"@
}

/// The first aliasing report from fact `i` on, if any.
pub open spec fn first_alias_from(facts: Seq<OwnershipFact>, i: int) -> Option<Seq<char>>
    decreases facts.len() - i,
{
    if i < 0 || i >= facts.len() {
        None
    } else if shared_by_many(facts, i) {
        Some(aliasing_message(facts[i].value_id@, owners_of(facts, facts[i].value_id@)))
    } else {
        first_alias_from(facts, i + 1)
    }
}

/// The index of the last `Consumed` fact for value `v` among the first `n`
/// facts, or -1 when there is none.
pub open spec fn last_consumed(facts: Seq<OwnershipFact>, v: Seq<char>, n: nat) -> int
    decreases n,
{
    if n == 0 || n > facts.len() {
        -1
    } else if facts[n - 1].kind == OwnershipKind::Consumed && facts[n - 1].value_id@ == v {
        n - 1
    } else {
        last_consumed(facts, v, (n - 1) as nat)
    }
}

/// Fact `i` uses its value after an earlier consumption of that value.
pub open spec fn used_after_consume(facts: Seq<OwnershipFact>, i: int) -> bool {
    facts[i].kind != OwnershipKind::Consumed && last_consumed(facts, facts[i].value_id@, i as nat) >= 0
}

/// Some fact uses a value after an earlier fact consumed it.
pub open spec fn any_use_after_consume(facts: Seq<OwnershipFact>) -> bool {
    exists|j: int, i: int| 0 <= j < i < facts.len()
        && #[trigger] facts[j].kind == OwnershipKind::Consumed
        && #[trigger] facts[i].kind != OwnershipKind::Consumed
        && facts[j].value_id@ == facts[i].value_id@
}

/// The message for a use after consumption.
pub open spec fn consume_message(v: Seq<char>, consumed: nat, used: nat) -> Seq<char> {
    "Use-after-consume: value "@ + v + " consumed at point "@ + dec(consumed) + " but used at point "@ + dec(used)
}

/// The first use-after-consume report from fact `i` on, if any.
pub open spec fn first_consume_violation_from(facts: Seq<OwnershipFact>, i: int) -> Option<Seq<char>>
    decreases facts.len() - i,
{
    if i < 0 || i >= facts.len() {
        None
    } else if used_after_consume(facts, i) {
        Some(consume_message(
            facts[i].value_id@,
            last_consumed(facts, facts[i].value_id@, i as nat) as nat,
            i as nat,
        ))
    } else {
        first_consume_violation_from(facts, i + 1)
    }
}

/// The error list of a full check: the aliasing report, then the
/// use-after-consume report, each where there is one.
pub open spec fn all_reports(facts: Seq<OwnershipFact>) -> Seq<Seq<char>> {
    let a = match first_alias_from(facts, 0) {
        Some(m) => seq![m],
        None => Seq::empty(),
    };
    let c = match first_consume_violation_from(facts, 0) {
        Some(m) => seq![m],
        None => Seq::empty(),
    };
    a + c
}

proof fn lemma_alias_found_from(facts: Seq<OwnershipFact>, k: int, i: int)
    requires
        0 <= k <= i < facts.len(),
        shared_by_many(facts, i),
    ensures
        first_alias_from(facts, k) is Some,
    decreases i - k,
{
    if !shared_by_many(facts, k) {
        lemma_alias_found_from(facts, k + 1, i);
    }
}

proof fn lemma_owner_listed(facts: Seq<OwnershipFact>, v: Seq<char>, n: nat, j: int)
    requires
        n <= facts.len(),
        0 <= j < n,
        exclusive(facts[j].kind),
        facts[j].value_id@ == v,
    ensures
        owners_upto(facts, v, n).contains(opt_view(facts[j].owner)),
    decreases n,
{
    let prev = owners_upto(facts, v, (n - 1) as nat);
    if j < n - 1 {
        lemma_owner_listed(facts, v, (n - 1) as nat, j);
        let w = choose|w: int| 0 <= w < prev.len() && prev[w] == opt_view(facts[j].owner);
        if !prev.contains(opt_view(facts[n - 1].owner)) && exclusive(facts[n - 1].kind) && facts[n - 1].value_id@ == v {
            assert(owners_upto(facts, v, n)[w] == opt_view(facts[j].owner));
        }
    } else {
        if !prev.contains(opt_view(facts[j].owner)) {
            assert(owners_upto(facts, v, n).last() == opt_view(facts[j].owner));
        }
    }
}

/// Law: when two exclusive facts (unique ownership or mutable borrows) give
/// the same value two different owners, the aliasing check reports it.
pub proof fn lemma_two_owners_reported(facts: Seq<OwnershipFact>, i: int, j: int)
    requires
        0 <= i < facts.len(),
        0 <= j < facts.len(),
        exclusive(facts[i].kind),
        exclusive(facts[j].kind),
        facts[i].value_id@ == facts[j].value_id@,
        opt_view(facts[i].owner) != opt_view(facts[j].owner),
    ensures
        first_alias_from(facts, 0) is Some,
{
    let v = facts[i].value_id@;
    lemma_owner_listed(facts, v, facts.len(), i);
    lemma_owner_listed(facts, v, facts.len(), j);
    let os = owners_of(facts, v);
    if os.len() <= 1 {
        let a = choose|a: int| 0 <= a < os.len() && os[a] == opt_view(facts[i].owner);
        let b = choose|b: int| 0 <= b < os.len() && os[b] == opt_view(facts[j].owner);
        assert(a == b);
    }
    lemma_alias_found_from(facts, 0, i);
}

proof fn lemma_consume_found_from(facts: Seq<OwnershipFact>, k: int, i: int)
    requires
        0 <= k <= i < facts.len(),
        used_after_consume(facts, i),
    ensures
        first_consume_violation_from(facts, k) is Some,
    decreases i - k,
{
    if !used_after_consume(facts, k) {
        lemma_consume_found_from(facts, k + 1, i);
    }
}

proof fn lemma_last_consumed_bounds(facts: Seq<OwnershipFact>, v: Seq<char>, n: nat, j: int)
    requires
        n <= facts.len(),
        0 <= j < n,
        facts[j].kind == OwnershipKind::Consumed,
        facts[j].value_id@ == v,
    ensures
        j <= last_consumed(facts, v, n) < n,
        facts[last_consumed(facts, v, n)].kind == OwnershipKind::Consumed,
        facts[last_consumed(facts, v, n)].value_id@ == v,
    decreases n,
{
    if j < n - 1 && !(facts[n - 1].kind == OwnershipKind::Consumed && facts[n - 1].value_id@ == v) {
        lemma_last_consumed_bounds(facts, v, (n - 1) as nat, j);
    }
}

proof fn lemma_last_consumed_found(facts: Seq<OwnershipFact>, v: Seq<char>, n: nat)
    requires
        n <= facts.len(),
        last_consumed(facts, v, n) >= 0,
    ensures
        last_consumed(facts, v, n) < n,
        facts[last_consumed(facts, v, n)].kind == OwnershipKind::Consumed,
        facts[last_consumed(facts, v, n)].value_id@ == v,
    decreases n,
{
    if n > 0 && !(facts[n - 1].kind == OwnershipKind::Consumed && facts[n - 1].value_id@ == v) {
        lemma_last_consumed_found(facts, v, (n - 1) as nat);
    }
}

proof fn lemma_consume_report_has_use(facts: Seq<OwnershipFact>, k: int)
    requires
        0 <= k,
        first_consume_violation_from(facts, k) is Some,
    ensures
        exists|i: int| k <= i < facts.len() && used_after_consume(facts, i),
    decreases facts.len() - k,
{
    if k < facts.len() && !used_after_consume(facts, k) {
        lemma_consume_report_has_use(facts, k + 1);
    }
}

/// Law: the use-after-consume check reports exactly when some fact uses a
/// value after an earlier fact consumed it.
pub proof fn lemma_use_after_consume_reported(facts: Seq<OwnershipFact>)
    ensures
        first_consume_violation_from(facts, 0) is Some <==> any_use_after_consume(facts),
{
    if any_use_after_consume(facts) {
        let (j, i) = choose|j: int, i: int| 0 <= j < i < facts.len()
            && #[trigger] facts[j].kind == OwnershipKind::Consumed
            && #[trigger] facts[i].kind != OwnershipKind::Consumed
            && facts[j].value_id@ == facts[i].value_id@;
        lemma_last_consumed_bounds(facts, facts[i].value_id@, i as nat, j);
        lemma_consume_found_from(facts, 0, i);
    }
    if first_consume_violation_from(facts, 0) is Some {
        lemma_consume_report_has_use(facts, 0);
        let i = choose|i: int| 0 <= i < facts.len() && used_after_consume(facts, i);
        let v = facts[i].value_id@;
        lemma_last_consumed_found(facts, v, i as nat);
        let j = last_consumed(facts, v, i as nat);
        assert(facts[j].kind == OwnershipKind::Consumed && facts[i].kind != OwnershipKind::Consumed);
    }
}

fn is_exclusive(k: OwnershipKind) -> (b: bool)
    ensures
        b == exclusive(k),
{
    match k {
        OwnershipKind::Unique => true,
        OwnershipKind::BorrowedMut => true,
        _ => false,
    }
}

fn owner_eq(a: &Option<String>, b: &Option<String>) -> (r: bool)
    ensures
        r == (opt_view(*a) == opt_view(*b)),
{
    match (a, b) {
        (None, None) => true,
        (Some(x), Some(y)) => str_eq(x.as_str(), y.as_str()),
        _ => false,
    }
}

fn clone_owner(o: &Option<String>) -> (r: Option<String>)
    ensures
        opt_view(r) == opt_view(*o),
{
    match o {
        None => None,
        Some(s) => Some(s.clone()),
    }
}

fn contains_owner(v: &Vec<Option<String>>, o: &Option<String>) -> (b: bool)
    ensures
        b == owner_views(v@).contains(opt_view(*o)),
{
    let mut i: usize = 0;
    while i < v.len()
        invariant
            i <= v.len(),
            forall|j: int| 0 <= j < i ==> opt_view(v@[j]) != opt_view(*o),
        decreases v.len() - i,
    {
        if owner_eq(&v[i], o) {
            assert(owner_views(v@)[i as int] == opt_view(*o));
            return true;
        }
        i = i + 1;
    }
    assert(!owner_views(v@).contains(opt_view(*o))) by {
        if owner_views(v@).contains(opt_view(*o)) {
            let j = choose|j: int| 0 <= j < owner_views(v@).len() && owner_views(v@)[j] == opt_view(*o);
            assert(opt_view(v@[j]) == opt_view(*o));
        }
    }
    false
}

proof fn lemma_joined_step(s: Seq<Option<Seq<char>>>, k: int)
    requires
        0 <= k < s.len(),
    ensures
        owners_joined(s.take(k + 1)) == owners_joined(s.take(k)) + (if k > 0 { ", "@ } else { Seq::empty() })
            + debug_opt(s[k]),
{
    let t = s.take(k + 1);
    assert(t.drop_last() =~= s.take(k));
    assert(t.last() == s[k]);
    if k == 0 {
        assert(s.take(0) =~= Seq::<Option<Seq<char>>>::empty());
        assert(owners_joined(t) == debug_opt(t[0]));
        assert(Seq::<char>::empty() + Seq::<char>::empty() + debug_opt(s[0]) =~= debug_opt(s[0]));
    }
}

fn render_aliasing(v: &String, owners: &Vec<Option<String>>) -> (m: String)
    ensures
        m@ == aliasing_message(v@, owner_views(owners@)),
{
    let mut m = String::from_str("Multiple threads own value ");
    m.append(v.as_str());
    m.append(": {");
    let ghost head = m@;
    let ghost views = owner_views(owners@);
    let mut k: usize = 0;
    while k < owners.len()
        invariant
            k <= owners.len(),
            views == owner_views(owners@),
            m@ == head + owners_joined(views.take(k as int)),
        decreases owners.len() - k,
    {
        proof {
            lemma_joined_step(views, k as int);
        }
        if k > 0 {
            m.append(", ");
        }
        push_debug_opt(&mut m, &owners[k]);
        proof {
            assert(views[k as int] == opt_view(owners@[k as int]));
            if k > 0 {
                assert(m@ =~= head + owners_joined(views.take(k + 1)));
            } else {
                assert(m@ =~= head + owners_joined(views.take(k + 1)));
            }
        }
        k = k + 1;
    }
    assert(views.take(owners.len() as int) =~= views);
    m.append("}");
    m
}

fn render_consume(v: &String, consumed: usize, used: usize) -> (m: String)
    ensures
        m@ == consume_message(v@, consumed as nat, used as nat),
{
    let mut m = String::from_str("Use-after-consume: value ");
    m.append(v.as_str());
    m.append(" consumed at point ");
    push_decimal(&mut m, consumed as u64);
    m.append(" but used at point ");
    push_decimal(&mut m, used as u64);
    m
}

/// Checks a program's ownership facts.
pub struct OwnershipAnalyzer {
    facts: Vec<OwnershipFact>,
    program_point: usize,
}

impl OwnershipAnalyzer {
    /// The recorded facts, oldest first.
    pub closed spec fn facts(&self) -> Seq<OwnershipFact> {
        self.facts@
    }

    /// The current program point.
    pub closed spec fn point(&self) -> nat {
        self.program_point as nat
    }

    /// An analyzer with no facts, at program point 0.
    pub fn new() -> (a: Self)
        ensures
            a.facts() == Seq::<OwnershipFact>::empty(),
            a.point() == 0,
    {
        OwnershipAnalyzer { facts: Vec::new(), program_point: 0 }
    }

    /// Records a value's ownership at the current program point.
    pub fn record_fact(&mut self, fact: OwnershipFact)
        ensures
            final(self).facts() == old(self).facts().push(fact),
            final(self).point() == old(self).point(),
    {
        self.facts.push(fact);
    }

    fn owners_of_value(&self, v: &String) -> (r: Vec<Option<String>>)
        ensures
            owner_views(r@) == owners_of(self.facts@, v@),
    {
        let mut owners: Vec<Option<String>> = Vec::new();
        let mut j: usize = 0;
        while j < self.facts.len()
            invariant
                j <= self.facts.len(),
                owner_views(owners@) == owners_upto(self.facts@, v@, j as nat),
            decreases self.facts.len() - j,
        {
            let f = &self.facts[j];
            if is_exclusive(f.kind) && str_eq(f.value_id.as_str(), v.as_str()) {
                if !contains_owner(&owners, &f.owner) {
                    let o = clone_owner(&f.owner);
                    owners.push(o);
                    assert(owner_views(owners@) =~= owners_upto(self.facts@, v@, (j + 1) as nat));
                } else {
                    assert(owner_views(owners@) == owners_upto(self.facts@, v@, (j + 1) as nat));
                }
            } else {
                assert(owner_views(owners@) == owners_upto(self.facts@, v@, (j + 1) as nat));
            }
            j = j + 1;
        }
        owners
    }

    /// Checks that no value has two different exclusive owners. The report
    /// names the first such value (in log order) and its owners in order of
    /// first appearance.
    pub fn check_no_aliasing(&self) -> (r: Result<(), String>)
        ensures
            match r {
                Ok(()) => first_alias_from(self.facts(), 0) is None,
                Err(m) => first_alias_from(self.facts(), 0) == Some(m@),
            },
    {
        let mut i: usize = 0;
        while i < self.facts.len()
            invariant
                i <= self.facts.len(),
                first_alias_from(self.facts@, 0) == first_alias_from(self.facts@, i as int),
            decreases self.facts.len() - i,
        {
            let f = &self.facts[i];
            if is_exclusive(f.kind) {
                let owners = self.owners_of_value(&f.value_id);
                if owners.len() > 1 {
                    return Err(render_aliasing(&f.value_id, &owners));
                }
            }
            i = i + 1;
        }
        Ok(())
    }

    fn last_consumption(&self, v: &String, n: usize) -> (r: Option<usize>)
        requires
            n <= self.facts@.len(),
        ensures
            match r {
                Some(c) => last_consumed(self.facts@, v@, n as nat) == c as int,
                None => last_consumed(self.facts@, v@, n as nat) == -1,
            },
    {
        let mut last: Option<usize> = None;
        let mut j: usize = 0;
        while j < n
            invariant
                j <= n <= self.facts.len(),
                match last {
                    Some(c) => last_consumed(self.facts@, v@, j as nat) == c as int,
                    None => last_consumed(self.facts@, v@, j as nat) == -1,
                },
            decreases self.facts.len() - j,
        {
            let f = &self.facts[j];
            if f.kind == OwnershipKind::Consumed && str_eq(f.value_id.as_str(), v.as_str()) {
                last = Some(j);
            }
            j = j + 1;
        }
        last
    }

    /// Checks that no fact uses a value after an earlier consumption of
    /// it. The report names the first such use and the latest consumption
    /// before it.
    pub fn check_no_use_after_consume(&self) -> (r: Result<(), String>)
        ensures
            match r {
                Ok(()) => first_consume_violation_from(self.facts(), 0) is None,
                Err(m) => first_consume_violation_from(self.facts(), 0) == Some(m@),
            },
            r is Err <==> any_use_after_consume(self.facts()),
    {
        proof { lemma_use_after_consume_reported(self.facts@); }
        let mut i: usize = 0;
        while i < self.facts.len()
            invariant
                i <= self.facts.len(),
                first_consume_violation_from(self.facts@, 0) == first_consume_violation_from(self.facts@, i as int),
                first_consume_violation_from(self.facts@, 0) is Some <==> any_use_after_consume(self.facts@),
            decreases self.facts.len() - i,
        {
            let f = &self.facts[i];
            match self.last_consumption(&f.value_id, i) {
                Some(c) => {
                    if f.kind != OwnershipKind::Consumed {
                        return Err(render_consume(&f.value_id, c, i));
                    }
                },
                None => {},
            }
            i = i + 1;
        }
        Ok(())
    }

    /// Checks that borrows do not outlive their referents. Facts carry no
    /// owner scopes to compare against, so every log passes.
    pub fn check_borrow_lifetimes(&self) -> (r: Result<(), String>)
        ensures
            r is Ok,
    {
        Ok(())
    }

    /// Runs every check and collects the reports, in the order aliasing,
    /// use-after-consume, borrow lifetimes.
    pub fn verify_all(&self) -> (r: Result<(), Vec<String>>)
        ensures
            match r {
                Ok(()) => all_reports(self.facts()).len() == 0,
                Err(es) => es@.map_values(|e: String| e@) == all_reports(self.facts()) && es@.len() > 0,
            },
    {
        let mut errors: Vec<String> = Vec::new();
        match self.check_no_aliasing() {
            Err(e) => errors.push(e),
            Ok(()) => {},
        }
        match self.check_no_use_after_consume() {
            Err(e) => errors.push(e),
            Ok(()) => {},
        }
        match self.check_borrow_lifetimes() {
            Err(e) => errors.push(e),
            Ok(()) => {},
        }
        assert(errors@.map_values(|e: String| e@) =~= all_reports(self.facts@));
        if errors.len() == 0 {
            Ok(())
        } else {
            Err(errors)
        }
    }

    /// Moves to the next program point.
    pub fn advance_program_point(&mut self)
        requires
            old(self).point() < usize::MAX,
        ensures
            final(self).point() == old(self).point() + 1,
            final(self).facts() == old(self).facts(),
    {
        self.program_point = self.program_point + 1;
    }
}

} // verus!
