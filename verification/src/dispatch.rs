//! Versioned packet-identity dispatch: per protocol version, a numeric id
//! resolves to at most one packet kind, and a packet kind to at most one
//! numeric id. The table is validated once, when it is built; serving with
//! an ambiguous table is refused outright. Packet kinds are numbered, and a
//! version designator is either one explicit version or a wildcard.

use vstd::prelude::*;

verus! {

/// A version designator in a mapping: one explicit protocol version, or the
/// wildcard claiming every version the same kind does not claim explicitly.
#[derive(Debug, Clone, Copy, PartialEq, Eq, Structural)]
pub enum LitIntValue {
    Number(i32),
    Any,
}

/// Two designators can cover the same concrete version: the wildcard
/// overlaps everything, a number overlaps only itself.
pub open spec fn spec_versions_overlap(a: LitIntValue, b: LitIntValue) -> bool {
    a == LitIntValue::Any || b == LitIntValue::Any || a == b
}

/// A version designator with its reported flag: each offending entry is
/// diagnosed once, then the flag suppresses duplicate diagnostics.
#[derive(Debug, Clone, Copy)]
pub struct LitIntBool {
    pub value: LitIntValue,
    pub toggle: bool,
}

impl LitIntBool {
    /// A fresh, unreported designator.
    pub fn new(value: LitIntValue) -> (r: LitIntBool)
        ensures
            r.value == value,
            !r.toggle,
    {
        LitIntBool { value, toggle: false }
    }

    /// Whether this entry was already reported.
    pub fn is_true(&self) -> (r: bool)
        ensures
            r == self.toggle,
    {
        self.toggle
    }

    /// Flips the reported flag.
    pub fn toggle(&mut self)
        ensures
            final(self).toggle == !old(self).toggle,
            final(self).value == old(self).value,
    {
        self.toggle = !self.toggle;
    }

    /// Whether the two designators cover a common concrete version.
    pub fn logical_eq(&self, other: &LitIntBool) -> (r: bool)
        ensures
            r == spec_versions_overlap(self.value, other.value),
    {
        match self.value {
            LitIntValue::Any => true,
            LitIntValue::Number(n) => match other.value {
                LitIntValue::Number(m) => n == m,
                LitIntValue::Any => true,
            },
        }
    }
}

/// One id claim of a packet kind: the numeric id and the version designators
/// it applies to.
#[derive(Debug, Clone)]
pub struct PacketIdMapping {
    pub id: i32,
    pub versions: Vec<LitIntValue>,
}

/// Every id claim of one packet kind.
#[derive(Debug, Clone)]
pub struct PacketMappings {
    pub kind: u32,
    pub mappings: Vec<PacketIdMapping>,
}

/// One flattened claim: `kind` uses numeric id `id` at the versions the
/// designator covers.
pub open spec fn claims_of_one(kind: u32, m: PacketIdMapping) -> Seq<(u32, i32, LitIntValue)> {
    m.versions@.map_values(|v: LitIntValue| (kind, m.id, v))
}

/// The flattened claims of one kind's mapping list, in declaration order.
pub open spec fn claims_of_kind(kind: u32, ms: Seq<PacketIdMapping>) -> Seq<
    (u32, i32, LitIntValue),
>
    decreases ms.len(),
{
    if ms.len() == 0 {
        seq![]
    } else {
        claims_of_kind(kind, ms.drop_last()) + claims_of_one(kind, ms.last())
    }
}

/// All claims of all kinds, flattened in declaration order.
pub open spec fn spec_claims(ms: Seq<PacketMappings>) -> Seq<(u32, i32, LitIntValue)>
    decreases ms.len(),
{
    if ms.len() == 0 {
        seq![]
    } else {
        spec_claims(ms.drop_last()) + claims_of_kind(ms.last().kind, ms.last().mappings@)
    }
}

/// Two claims collide when some version could resolve ambiguously: two
/// distinct kinds claiming one id for overlapping versions, or one kind
/// claiming two distinct ids for overlapping versions.
pub open spec fn claims_conflict(a: (u32, i32, LitIntValue), b: (u32, i32, LitIntValue)) -> bool {
    if a.0 == b.0 {
        a.1 != b.1 && spec_versions_overlap(a.2, b.2)
    } else {
        a.1 == b.1 && spec_versions_overlap(a.2, b.2)
    }
}

/// No two claims collide: the table is unambiguous.
pub open spec fn spec_conflict_free(cs: Seq<(u32, i32, LitIntValue)>) -> bool {
    forall|p: int, q: int|
        0 <= p < cs.len() && 0 <= q < cs.len() && p != q ==> !claims_conflict(cs[p], cs[q])
}

/// One diagnosed ambiguity, identifying both offending claims: the packet
/// kinds, their numeric ids, and the overlapping version designators.
#[derive(Debug, Clone, Copy, PartialEq, Eq, Structural)]
pub struct Conflict {
    pub kind_a: u32,
    pub id_a: i32,
    pub version_a: LitIntValue,
    pub kind_b: u32,
    pub id_b: i32,
    pub version_b: LitIntValue,
}

/// The id claims of one packet kind, flattened: each element pairs a numeric
/// id with one version designator.
#[derive(Debug, Clone)]
pub struct PacketVersions {
    claims: Vec<(i32, LitIntValue)>,
}

/// The kind's claim list holds exactly this id and designator.
pub open spec fn pv_has_exact(cs: Seq<(i32, LitIntValue)>, id: i32, v: LitIntValue) -> bool {
    exists|p: int| 0 <= p < cs.len() && cs[p] == (id, v)
}

/// The kind's claim list has a claim of `id` overlapping designator `v`.
pub open spec fn pv_has_overlap(cs: Seq<(i32, LitIntValue)>, id: i32, v: LitIntValue) -> bool {
    exists|p: int| 0 <= p < cs.len() && cs[p].0 == id && spec_versions_overlap(cs[p].1, v)
}

/// The list holds a claim of a different id overlapping designator `v`:
/// inserting `v` under `id` would give the kind two ids for one version.
pub open spec fn pv_conflicts_other(cs: Seq<(i32, LitIntValue)>, id: i32, v: LitIntValue) -> bool {
    exists|p: int| 0 <= p < cs.len() && cs[p].0 != id && spec_versions_overlap(cs[p].1, v)
}

/// The kind claims some id explicitly at concrete version `version`.
pub open spec fn pv_explicit_at(cs: Seq<(i32, LitIntValue)>, version: i32) -> bool {
    exists|p: int| 0 <= p < cs.len() && cs[p].1 == LitIntValue::Number(version)
}

/// The kind resolves to `id` at concrete `version`: either it claims the
/// version explicitly for `id`, or `id` carries the wildcard and the kind
/// claims nothing explicit at that version.
pub open spec fn pv_resolves(cs: Seq<(i32, LitIntValue)>, id: i32, version: i32) -> bool {
    ||| pv_has_exact(cs, id, LitIntValue::Number(version))
    ||| (pv_has_exact(cs, id, LitIntValue::Any) && !pv_explicit_at(cs, version))
}

impl PacketVersions {
    /// The flattened id claims.
    pub closed spec fn claims(&self) -> Seq<(i32, LitIntValue)> {
        self.claims@
    }

    /// An empty claim list.
    pub fn new() -> (r: PacketVersions)
        ensures
            r.claims() == Seq::<(i32, LitIntValue)>::empty(),
    {
        PacketVersions { claims: Vec::new() }
    }

    /// Whether the list holds exactly `(id, v)`.
    fn has_exact(&self, id: i32, v: LitIntValue) -> (r: bool)
        ensures
            r == pv_has_exact(self.claims(), id, v),
    {
        let mut p: usize = 0;
        while p < self.claims.len()
            invariant
                0 <= p <= self.claims@.len(),
                forall|q: int| 0 <= q < p ==> self.claims@[q] != (id, v),
            decreases self.claims@.len() - p,
        {
            let c = (self.claims[p].0, self.claims[p].1);
            if c.0 == id && c.1 == v {
                return true;
            }
            p += 1;
        }
        false
    }

    /// Whether a different id already claims a version overlapping `v`.
    fn conflicts_other(&self, id: i32, v: LitIntValue) -> (r: bool)
        ensures
            r == pv_conflicts_other(self.claims(), id, v),
    {
        let mut p: usize = 0;
        while p < self.claims.len()
            invariant
                0 <= p <= self.claims@.len(),
                forall|q: int|
                    0 <= q < p ==> !((#[trigger] self.claims@[q]).0 != id && spec_versions_overlap(
                        self.claims@[q].1,
                        v,
                    )),
            decreases self.claims@.len() - p,
        {
            let c = (self.claims[p].0, self.claims[p].1);
            if c.0 != id && LitIntBool::new(c.1).logical_eq(&LitIntBool::new(v)) {
                return true;
            }
            p += 1;
        }
        false
    }

    /// Merges the versions of one id claim into the list, oldest first,
    /// dropping duplicates — except that a version overlapping a version
    /// already held under a different id is a conflict of the kind with
    /// itself: it is excluded from the list and from the result (the
    /// validator reports it). Returns the designators genuinely added.
    pub fn insert(&mut self, id: i32, versions: Vec<LitIntValue>) -> (added: Vec<LitIntValue>)
        ensures
            forall|v: LitIntValue|
                #![trigger pv_has_exact(final(self).claims(), id, v)]
                pv_has_exact(final(self).claims(), id, v) <==> pv_has_exact(
                    old(self).claims(),
                    id,
                    v,
                ) || (versions@.contains(v) && !pv_conflicts_other(old(self).claims(), id, v)),
            forall|i2: i32, v: LitIntValue|
                #![trigger pv_has_exact(final(self).claims(), i2, v)]
                i2 != id ==> (pv_has_exact(final(self).claims(), i2, v) <==> pv_has_exact(
                    old(self).claims(),
                    i2,
                    v,
                )),
            forall|v: LitIntValue|
                #![trigger added@.contains(v)]
                added@.contains(v) <==> versions@.contains(v) && !pv_has_exact(
                    old(self).claims(),
                    id,
                    v,
                ) && !pv_conflicts_other(old(self).claims(), id, v),
    {
        let mut added: Vec<LitIntValue> = Vec::new();
        let mut k: usize = 0;
        while k < versions.len()
            invariant
                0 <= k <= versions@.len(),
                forall|v: LitIntValue|
                    pv_has_exact(self.claims(), id, v) <==> pv_has_exact(old(self).claims(), id, v)
                        || (versions@.take(k as int).contains(v) && !pv_conflicts_other(
                        old(self).claims(),
                        id,
                        v,
                    )),
                forall|i2: i32, v: LitIntValue|
                    i2 != id ==> (pv_has_exact(self.claims(), i2, v) <==> pv_has_exact(
                        old(self).claims(),
                        i2,
                        v,
                    )),
                forall|v: LitIntValue|
                    added@.contains(v) <==> versions@.take(k as int).contains(v) && !pv_has_exact(
                        old(self).claims(),
                        id,
                        v,
                    ) && !pv_conflicts_other(old(self).claims(), id, v),
                forall|v: LitIntValue|
                    pv_conflicts_other(self.claims(), id, v) <==> pv_conflicts_other(
                        old(self).claims(),
                        id,
                        v,
                    ),
            decreases versions@.len() - k,
        {
            let ghost pre = self.claims@;
            let ghost added_pre = added@;
            let v = versions[k];
            let clash = self.conflicts_other(id, v);
            let present = self.has_exact(id, v);
            if !clash && !present {
                self.claims.push((id, v));
                added.push(v);
            }
            proof {
                let take1 = versions@.take(k + 1);
                assert(take1[k as int] == v);
                assert forall|vv: LitIntValue|
                    pv_conflicts_other(self.claims(), id, vv) <==> pv_conflicts_other(
                        pre,
                        id,
                        vv,
                    ) by {
                    if pv_conflicts_other(self.claims(), id, vv) {
                        let w = choose|w: int|
                            0 <= w < self.claims@.len() && (#[trigger] self.claims@[w]).0 != id
                                && spec_versions_overlap(self.claims@[w].1, vv);
                        if w < pre.len() {
                            assert(pre[w] == self.claims@[w]);
                        } else {
                            assert(self.claims@[w].0 == id);
                        }
                    }
                    if pv_conflicts_other(pre, id, vv) {
                        let w = choose|w: int|
                            0 <= w < pre.len() && (#[trigger] pre[w]).0 != id
                                && spec_versions_overlap(pre[w].1, vv);
                        assert(self.claims@[w] == pre[w]);
                    }
                }
                assert forall|vv: LitIntValue|
                    pv_has_exact(self.claims(), id, vv) <==> (pv_has_exact(
                        old(self).claims(),
                        id,
                        vv,
                    ) || (versions@.take(k + 1).contains(vv) && !pv_conflicts_other(
                        old(self).claims(),
                        id,
                        vv,
                    ))) by {
                    if pv_has_exact(self.claims(), id, vv) {
                        let p = choose|p: int|
                            0 <= p < self.claims@.len() && #[trigger] self.claims@[p] == (id, vv);
                        if p < pre.len() {
                            assert(pre[p] == (id, vv));
                            assert(pv_has_exact(pre, id, vv));
                        } else {
                            assert(vv == v);
                        }
                        if pv_has_exact(pre, id, vv) && !pv_has_exact(old(self).claims(), id, vv) {
                            let q = choose|q: int|
                                0 <= q < k && #[trigger] versions@.take(k as int)[q] == vv;
                            assert(take1[q] == vv);
                        }
                    }
                    if pv_has_exact(old(self).claims(), id, vv) {
                        assert(pv_has_exact(pre, id, vv));
                        let p = choose|p: int| 0 <= p < pre.len() && #[trigger] pre[p] == (id, vv);
                        assert(self.claims@[p] == (id, vv));
                    } else if versions@.take(k + 1).contains(vv) && !pv_conflicts_other(
                        old(self).claims(),
                        id,
                        vv,
                    ) {
                        let q = choose|q: int| 0 <= q < take1.len() && #[trigger] take1[q] == vv;
                        if q < k {
                            assert(versions@.take(k as int)[q] == vv);
                            assert(versions@.take(k as int).contains(vv));
                            assert(pv_has_exact(pre, id, vv));
                            let p = choose|p: int|
                                0 <= p < pre.len() && #[trigger] pre[p] == (id, vv);
                            assert(self.claims@[p] == (id, vv));
                        } else {
                            assert(vv == v);
                            if present {
                                let p = choose|p: int|
                                    0 <= p < pre.len() && #[trigger] pre[p] == (id, v);
                                assert(self.claims@[p] == (id, v));
                            } else {
                                assert(!clash);
                                assert(self.claims@[pre.len() as int] == (id, v));
                            }
                        }
                    }
                }
                assert forall|i2: i32, vv: LitIntValue| i2 != id implies (pv_has_exact(
                    self.claims(),
                    i2,
                    vv,
                ) <==> pv_has_exact(old(self).claims(), i2, vv)) by {
                    if pv_has_exact(self.claims(), i2, vv) {
                        let p = choose|p: int|
                            0 <= p < self.claims@.len() && #[trigger] self.claims@[p] == (i2, vv);
                        if p < pre.len() {
                            assert(pre[p] == (i2, vv));
                            assert(pv_has_exact(pre, i2, vv));
                        } else {
                            assert((i2, vv) == (id, v));
                        }
                    }
                    if pv_has_exact(old(self).claims(), i2, vv) {
                        assert(pv_has_exact(pre, i2, vv));
                        let p = choose|p: int| 0 <= p < pre.len() && #[trigger] pre[p] == (i2, vv);
                        assert(self.claims@[p] == (i2, vv));
                    }
                }
                assert forall|vv: LitIntValue|
                    added@.contains(vv) <==> (versions@.take(k + 1).contains(vv)
                        && !pv_has_exact(old(self).claims(), id, vv) && !pv_conflicts_other(
                        old(self).claims(),
                        id,
                        vv,
                    )) by {
                    if added@.contains(vv) {
                        let p = choose|p: int|
                            0 <= p < added@.len() && #[trigger] added@[p] == vv;
                        if p < added_pre.len() {
                            assert(added_pre[p] == vv);
                            assert(added_pre.contains(vv));
                            let q = choose|q: int|
                                0 <= q < k && #[trigger] versions@.take(k as int)[q] == vv;
                            assert(take1[q] == vv);
                        } else {
                            assert(vv == v);
                        }
                    }
                    if versions@.take(k + 1).contains(vv) && !pv_has_exact(
                        old(self).claims(),
                        id,
                        vv,
                    ) && !pv_conflicts_other(old(self).claims(), id, vv) {
                        let q = choose|q: int| 0 <= q < take1.len() && #[trigger] take1[q] == vv;
                        if q < k {
                            assert(versions@.take(k as int)[q] == vv);
                            assert(versions@.take(k as int).contains(vv));
                            assert(added_pre.contains(vv));
                            let p = choose|p: int|
                                0 <= p < added_pre.len() && #[trigger] added_pre[p] == vv;
                            assert(added@[p] == vv);
                        } else {
                            assert(vv == v);
                            if present {
                                assert(pv_has_exact(pre, id, v));
                                let q2 = choose|q2: int|
                                    0 <= q2 < k && #[trigger] versions@.take(k as int)[q2] == v;
                                assert(added_pre.contains(v));
                                let p = choose|p: int|
                                    0 <= p < added_pre.len() && #[trigger] added_pre[p] == vv;
                                assert(added@[p] == vv);
                            } else if clash {
                                assert(pv_conflicts_other(pre, id, v));
                                assert(false);
                            } else {
                                assert(added@[added_pre.len() as int] == v);
                            }
                        }
                    }
                }
            }
            k += 1;
        }
        proof {
            assert(versions@.take(versions@.len() as int) =~= versions@);
        }
        added
    }

    /// Whether the kind has a claim of `id` overlapping designator
    /// `version`: the pairwise test behind the validator's conflict rule.
    pub fn has_id_version(&self, id: i32, version: &LitIntBool) -> (r: bool)
        ensures
            r == pv_has_overlap(self.claims(), id, version.value),
    {
        let mut p: usize = 0;
        while p < self.claims.len()
            invariant
                0 <= p <= self.claims@.len(),
                forall|q: int|
                    0 <= q < p ==> !(self.claims@[q].0 == id && spec_versions_overlap(
                        self.claims@[q].1,
                        version.value,
                    )),
            decreases self.claims@.len() - p,
        {
            let c = (self.claims[p].0, self.claims[p].1);
            if c.0 == id && LitIntBool::new(c.1).logical_eq(version) {
                return true;
            }
            p += 1;
        }
        false
    }

    /// Hands the claim list out, consuming the wrapper.
    pub fn into_mappings(self) -> (r: Vec<(i32, LitIntValue)>)
        ensures
            r@ == self.claims(),
    {
        self.claims
    }
}


impl PacketVersions {
    /// The kind claims some id explicitly at `version`.
    fn explicit_at(&self, version: i32) -> (r: bool)
        ensures
            r == pv_explicit_at(self.claims(), version),
    {
        let mut p: usize = 0;
        while p < self.claims.len()
            invariant
                0 <= p <= self.claims@.len(),
                forall|q: int| 0 <= q < p ==> self.claims@[q].1 != LitIntValue::Number(version),
            decreases self.claims@.len() - p,
        {
            let c = (self.claims[p].0, self.claims[p].1);
            if c.1 == LitIntValue::Number(version) {
                return true;
            }
            p += 1;
        }
        false
    }

    /// The id this kind resolves to at concrete `version`: an explicit claim
    /// wins; otherwise a wildcard claim applies, since the kind claims
    /// nothing explicit there.
    fn resolve_id(&self, version: i32) -> (r: Option<i32>)
        ensures
            r matches Some(i) ==> pv_resolves(self.claims(), i, version),
            r is None ==> forall|i: i32| !pv_resolves(self.claims(), i, version),
    {
        let mut p: usize = 0;
        while p < self.claims.len()
            invariant
                0 <= p <= self.claims@.len(),
                forall|q: int| 0 <= q < p ==> self.claims@[q].1 != LitIntValue::Number(version),
            decreases self.claims@.len() - p,
        {
            let c = (self.claims[p].0, self.claims[p].1);
            if c.1 == LitIntValue::Number(version) {
                assert(pv_has_exact(self.claims(), c.0, LitIntValue::Number(version)));
                return Some(c.0);
            }
            p += 1;
        }
        assert(!pv_explicit_at(self.claims(), version));
        let mut q: usize = 0;
        while q < self.claims.len()
            invariant
                0 <= q <= self.claims@.len(),
                forall|w: int| 0 <= w < q ==> self.claims@[w].1 != LitIntValue::Any,
                !pv_explicit_at(self.claims(), version),
            decreases self.claims@.len() - q,
        {
            let c = (self.claims[q].0, self.claims[q].1);
            if c.1 == LitIntValue::Any {
                assert(pv_has_exact(self.claims(), c.0, LitIntValue::Any));
                return Some(c.0);
            }
            q += 1;
        }
        proof {
            assert forall|i: i32| !pv_resolves(self.claims(), i, version) by {
                if pv_has_exact(self.claims(), i, LitIntValue::Number(version)) {
                    let w = choose|w: int|
                        0 <= w < self.claims@.len() && #[trigger] self.claims@[w] == (
                        i,
                        LitIntValue::Number(version),
                        );
                    assert(false);
                }
                if pv_has_exact(self.claims(), i, LitIntValue::Any) {
                    let w = choose|w: int|
                        0 <= w < self.claims@.len() && #[trigger] self.claims@[w] == (
                        i,
                        LitIntValue::Any,
                        );
                    assert(false);
                }
            }
        }
        None
    }
}

/// The dispatch table: per packet kind, its flattened id claims.
#[derive(Debug, Clone)]
pub struct VersionMappings {
    packet_to_versions: Vec<(u32, PacketVersions)>,
}

/// Kind `kind` claims id `id` at designator `v` somewhere in the table.
pub open spec fn table_has(
    t: Seq<(u32, Seq<(i32, LitIntValue)>)>,
    kind: u32,
    id: i32,
    v: LitIntValue,
) -> bool {
    exists|a: int| 0 <= a < t.len() && t[a].0 == kind && pv_has_exact(t[a].1, id, v)
}

/// The kind's entry already claims a version overlapping `v` under a
/// different id: adding `(id, v)` to `kind` would be the kind conflicting
/// with itself, so the claim is excluded (and diagnosed by the validator).
pub open spec fn table_kind_conflicts(
    t: Seq<(u32, Seq<(i32, LitIntValue)>)>,
    kind: u32,
    id: i32,
    v: LitIntValue,
) -> bool {
    exists|a: int| 0 <= a < t.len() && t[a].0 == kind && pv_conflicts_other(t[a].1, id, v)
}

/// Each packet kind has at most one entry in the table.
pub open spec fn kinds_unique(t: Seq<(u32, Seq<(i32, LitIntValue)>)>) -> bool {
    forall|a: int, b: int| 0 <= a < b < t.len() ==> (#[trigger] t[a]).0 != (#[trigger] t[b]).0
}

impl VersionMappings {
    /// The table's contents: each kind with its flattened claims.
    pub closed spec fn table(&self) -> Seq<(u32, Seq<(i32, LitIntValue)>)> {
        self.packet_to_versions@.map_values(|p: (u32, PacketVersions)| (p.0, p.1.claims()))
    }

    /// An empty table.
    pub fn new() -> (r: VersionMappings)
        ensures
            r.table() == Seq::<(u32, Seq<(i32, LitIntValue)>)>::empty(),
    {
        let r = VersionMappings { packet_to_versions: Vec::new() };
        proof {
            assert(r.table() =~= Seq::<(u32, Seq<(i32, LitIntValue)>)>::empty());
        }
        r
    }

    /// Index of the kind's entry, if the table has one.
    fn find_kind(&self, kind: u32) -> (r: Option<usize>)
        ensures
            r matches Some(a) ==> a < self.packet_to_versions@.len()
                && self.packet_to_versions@[a as int].0 == kind,
            r is None ==> forall|b: int|
                0 <= b < self.packet_to_versions@.len()
                    ==> (#[trigger] self.packet_to_versions@[b]).0 != kind,
    {
        let mut a: usize = 0;
        while a < self.packet_to_versions.len()
            invariant
                0 <= a <= self.packet_to_versions@.len(),
                forall|b: int|
                    0 <= b < a ==> (#[trigger] self.packet_to_versions@[b]).0 != kind,
            decreases self.packet_to_versions@.len() - a,
        {
            if self.packet_to_versions[a].0 == kind {
                return Some(a);
            }
            a += 1;
        }
        None
    }

    /// Records one claim, merging it into its kind's entry; the first claim
    /// of a kind creates the entry. A claim overlapping a version already
    /// held under a different id of the same kind is excluded — the
    /// validator reports that pair.
    fn add_claim(&mut self, kind: u32, id: i32, version: LitIntValue)
        requires
            kinds_unique(old(self).table()),
        ensures
            kinds_unique(final(self).table()),
            forall|k2: u32, i2: i32, v2: LitIntValue|
                table_has(final(self).table(), k2, i2, v2) <==> table_has(
                    old(self).table(),
                    k2,
                    i2,
                    v2,
                ) || (k2 == kind && i2 == id && v2 == version && !table_kind_conflicts(
                    old(self).table(),
                    kind,
                    id,
                    version,
                )),
    {
        let ghost t1 = self.table();
        let mut vs: Vec<LitIntValue> = Vec::new();
        vs.push(version);
        proof {
            assert(vs@ =~= seq![version]);
        }
        match self.find_kind(kind) {
            Some(a) => {
                let mut entry = self.packet_to_versions.remove(a);
                let ghost pvc1 = entry.1.claims();
                let _ = entry.1.insert(id, vs);
                let ghost pvc2 = entry.1.claims();
                self.packet_to_versions.insert(a, entry);
                proof {
                    assert(self.table() =~= t1.update(a as int, (kind, pvc2)));
                    let t2 = self.table();
                    assert(t1[a as int] == (kind, pvc1));
                    assert(t2[a as int] == (kind, pvc2));
                    assert forall|b: int, c: int| 0 <= b < c < t2.len() implies (
                    #[trigger] t2[b]).0 != (#[trigger] t2[c]).0 by {
                        assert(t2[b].0 == t1[b].0 && t2[c].0 == t1[c].0);
                    }
                    // The kind's only entry is at `a`, so the table-level
                    // exclusion test is the entry-level one.
                    assert(table_kind_conflicts(t1, kind, id, version) <==> pv_conflicts_other(
                        pvc1,
                        id,
                        version,
                    )) by {
                        if table_kind_conflicts(t1, kind, id, version) {
                            let b = choose|b: int|
                                0 <= b < t1.len() && (#[trigger] t1[b]).0 == kind
                                    && pv_conflicts_other(t1[b].1, id, version);
                            if b != a {
                                assert(t1[a as int].0 == kind && t1[b].0 == kind);
                                assert(false);
                            }
                        }
                    }
                    assert forall|k2: u32, i2: i32, v2: LitIntValue|
                        table_has(self.table(), k2, i2, v2) <==> (table_has(t1, k2, i2, v2) || (k2
                            == kind && i2 == id && v2 == version && !table_kind_conflicts(
                            t1,
                            kind,
                            id,
                            version,
                        ))) by {
                        if table_has(t2, k2, i2, v2) {
                            let b = choose|b: int|
                                0 <= b < t2.len() && #[trigger] t2[b].0 == k2 && pv_has_exact(
                                    t2[b].1,
                                    i2,
                                    v2,
                                );
                            if b == a {
                                if i2 == id {
                                    assert(pv_has_exact(pvc1, i2, v2) || (seq![version].contains(
                                        v2,
                                    ) && !pv_conflicts_other(pvc1, id, v2)));
                                    if pv_has_exact(pvc1, i2, v2) {
                                        assert(t1[b].0 == k2 && pv_has_exact(t1[b].1, i2, v2));
                                    } else {
                                        assert(seq![version][0] == version);
                                        assert(v2 == version);
                                    }
                                } else {
                                    assert(pv_has_exact(pvc1, i2, v2));
                                    assert(t1[b].0 == k2 && pv_has_exact(t1[b].1, i2, v2));
                                }
                            } else {
                                assert(t1[b] == t2[b]);
                            }
                        }
                        if table_has(t1, k2, i2, v2) {
                            let b = choose|b: int|
                                0 <= b < t1.len() && #[trigger] t1[b].0 == k2 && pv_has_exact(
                                    t1[b].1,
                                    i2,
                                    v2,
                                );
                            if b == a {
                                assert(pv_has_exact(pvc1, i2, v2));
                                if i2 == id {
                                    assert(pv_has_exact(pvc2, i2, v2));
                                } else {
                                    assert(pv_has_exact(pvc2, i2, v2));
                                }
                                assert(t2[b].0 == k2 && pv_has_exact(t2[b].1, i2, v2));
                            } else {
                                assert(t2[b] == t1[b]);
                            }
                        }
                        if k2 == kind && i2 == id && v2 == version && !table_kind_conflicts(
                            t1,
                            kind,
                            id,
                            version,
                        ) {
                            assert(seq![version].contains(version)) by {
                                assert(seq![version][0] == version);
                            }
                            assert(!pv_conflicts_other(pvc1, id, version));
                            assert(pv_has_exact(pvc2, id, version));
                            assert(t2[a as int].0 == kind && pv_has_exact(
                                t2[a as int].1,
                                id,
                                version,
                            ));
                        }
                    }
                }
            },
            None => {
                let mut pv = PacketVersions::new();
                let _ = pv.insert(id, vs);
                let ghost pvc2 = pv.claims();
                self.packet_to_versions.push((kind, pv));
                proof {
                    assert(self.table() =~= t1.push((kind, pvc2)));
                    let t2 = self.table();
                    assert forall|b: int, c: int| 0 <= b < c < t2.len() implies (
                    #[trigger] t2[b]).0 != (#[trigger] t2[c]).0 by {
                        if c < t1.len() {
                            assert(t2[b] == t1[b] && t2[c] == t1[c]);
                        } else {
                            assert(t2[b] == t1[b] && t2[c].0 == kind);
                        }
                    }
                    // No entry of this kind exists, so nothing can exclude
                    // the new claim.
                    assert(!table_kind_conflicts(t1, kind, id, version)) by {
                        if table_kind_conflicts(t1, kind, id, version) {
                            let b = choose|b: int|
                                0 <= b < t1.len() && (#[trigger] t1[b]).0 == kind
                                    && pv_conflicts_other(t1[b].1, id, version);
                            assert(false);
                        }
                    }
                    assert(!pv_conflicts_other(Seq::<(i32, LitIntValue)>::empty(), id, version))
                        by {
                        if pv_conflicts_other(Seq::<(i32, LitIntValue)>::empty(), id, version) {
                            let w = choose|w: int|
                                0 <= w < 0 && (#[trigger] Seq::<(
                                    i32,
                                    LitIntValue,
                                )>::empty()[w]).0 != id;
                            assert(false);
                        }
                    }
                    assert forall|k2: u32, i2: i32, v2: LitIntValue|
                        table_has(self.table(), k2, i2, v2) <==> (table_has(t1, k2, i2, v2) || (k2
                            == kind && i2 == id && v2 == version && !table_kind_conflicts(
                            t1,
                            kind,
                            id,
                            version,
                        ))) by {
                        if table_has(t2, k2, i2, v2) {
                            let b = choose|b: int|
                                0 <= b < t2.len() && #[trigger] t2[b].0 == k2 && pv_has_exact(
                                    t2[b].1,
                                    i2,
                                    v2,
                                );
                            if b < t1.len() {
                                assert(t1[b] == t2[b]);
                            } else {
                                assert(t2[b] == (kind, pvc2));
                                assert(pv_has_exact(pvc2, i2, v2));
                                if i2 == id {
                                    assert(seq![version].contains(v2));
                                    assert(seq![version][0] == version);
                                    assert(v2 == version);
                                } else {
                                    assert(pv_has_exact(
                                        Seq::<(i32, LitIntValue)>::empty(),
                                        i2,
                                        v2,
                                    ));
                                    let w = choose|w: int|
                                        0 <= w < 0 && #[trigger] Seq::<(
                                            i32,
                                            LitIntValue,
                                        )>::empty()[w] == (i2, v2);
                                    assert(false);
                                }
                            }
                        }
                        if table_has(t1, k2, i2, v2) {
                            let b = choose|b: int|
                                0 <= b < t1.len() && #[trigger] t1[b].0 == k2 && pv_has_exact(
                                    t1[b].1,
                                    i2,
                                    v2,
                                );
                            assert(t2[b] == t1[b]);
                        }
                        if k2 == kind && i2 == id && v2 == version {
                            assert(seq![version].contains(version)) by {
                                assert(seq![version][0] == version);
                            }
                            assert(pv_has_exact(pvc2, id, version));
                            assert(t2[t1.len() as int].0 == kind && pv_has_exact(
                                t2[t1.len() as int].1,
                                id,
                                version,
                            ));
                        }
                    }
                }
            },
        }
    }

    /// Resolves an inbound `(version, numeric id)` to the packet kind that
    /// claims it, or nothing for an unrecognized id — not an error; callers
    /// that tolerate unknown packets simply skip the frame.
    pub fn lookup_kind(&self, version: i32, id: i32) -> (r: Option<u32>)
        ensures
            r matches Some(k) ==> exists|a: int|
                0 <= a < self.table().len() && (#[trigger] self.table()[a]).0 == k && pv_resolves(
                    self.table()[a].1,
                    id,
                    version,
                ),
            r is None ==> forall|a: int|
                0 <= a < self.table().len() ==> !pv_resolves(
                    (#[trigger] self.table()[a]).1,
                    id,
                    version,
                ),
    {
        let mut a: usize = 0;
        while a < self.packet_to_versions.len()
            invariant
                0 <= a <= self.table().len(),
                self.table().len() == self.packet_to_versions@.len(),
                forall|b: int|
                    0 <= b < a ==> !pv_resolves((#[trigger] self.table()[b]).1, id, version),
            decreases self.packet_to_versions@.len() - a,
        {
            let pv = &self.packet_to_versions[a].1;
            let explicit = pv.has_exact(id, LitIntValue::Number(version));
            let wildcard = pv.has_exact(id, LitIntValue::Any) && !pv.explicit_at(version);
            if explicit || wildcard {
                let k = self.packet_to_versions[a].0;
                assert(self.table()[a as int].0 == k && pv_resolves(
                    self.table()[a as int].1,
                    id,
                    version,
                ));
                return Some(k);
            }
            a += 1;
        }
        None
    }

    /// Resolves an outbound `(version, packet kind)` to the numeric id the
    /// kind carries at that version. On a validated table this cannot fail
    /// for a kind that claims the version; a `None` for such a kind signals
    /// a table-construction bug, not a recoverable condition.
    pub fn lookup_id(&self, version: i32, kind: u32) -> (r: Option<i32>)
        ensures
            r matches Some(i) ==> exists|a: int|
                0 <= a < self.table().len() && (#[trigger] self.table()[a]).0 == kind
                    && pv_resolves(self.table()[a].1, i, version),
            r is None ==> forall|a: int, i: i32|
                0 <= a < self.table().len() && self.table()[a].0 == kind ==> !(
                #[trigger] pv_resolves(self.table()[a].1, i, version)),
    {
        let mut a: usize = 0;
        while a < self.packet_to_versions.len()
            invariant
                0 <= a <= self.table().len(),
                self.table().len() == self.packet_to_versions@.len(),
                forall|b: int, i: i32|
                    0 <= b < a && self.table()[b].0 == kind ==> !(#[trigger] pv_resolves(
                        self.table()[b].1,
                        i,
                        version,
                    )),
            decreases self.packet_to_versions@.len() - a,
        {
            if self.packet_to_versions[a].0 == kind {
                match self.packet_to_versions[a].1.resolve_id(version) {
                    Some(i) => {
                        assert(self.table()[a as int].0 == kind && pv_resolves(
                            self.table()[a as int].1,
                            i,
                            version,
                        ));
                        return Some(i);
                    },
                    None => {},
                }
            }
            a += 1;
        }
        None
    }

    /// Gathers every claim, flags every ambiguity, and builds the table.
    /// Construction is the correctness gate: the diagnostics are empty
    /// exactly when the claims are conflict-free, and each conflicting pair
    /// is reported exactly once. The table holds exactly the claims given.
    pub fn validate_mappings(mappings: Vec<PacketMappings>) -> (r: (
        VersionMappings,
        Vec<Conflict>,
    ))
        ensures
            r.1@ == spec_conflicts(spec_claims(mappings@)),
            r.1@.len() == 0 <==> spec_conflict_free(spec_claims(mappings@)),
            forall|k: u32, i: i32, v: LitIntValue|
                #![trigger table_has(r.0.table(), k, i, v)]
                table_has(r.0.table(), k, i, v) ==> spec_claims(mappings@).contains((k, i, v)),
            spec_conflict_free(spec_claims(mappings@)) ==> forall|k: u32, i: i32, v: LitIntValue|
                #![trigger table_has(r.0.table(), k, i, v)]
                table_has(r.0.table(), k, i, v) <==> spec_claims(mappings@).contains((k, i, v)),
    {
        let claims = flatten_claims(&mappings);
        let ghost cs = claims@;
        let n = claims.len();

        let mut conflicts: Vec<Conflict> = Vec::new();
        let mut i: usize = 0;
        while i < n
            invariant
                n == cs.len(),
                claims@ == cs,
                0 <= i <= n,
                conflicts@ == scan_conflicts(cs, i as int),
                conflicts@.len() == 0 <==> no_conflict_upto(cs, i as int, i as int + 1),
                conflicts@.len() > 0 ==> !spec_conflict_free(cs),
            decreases n - i,
        {
            let mut j: usize = i + 1;
            proof {
                assert(row_conflicts(cs, i as int, i as int + 1) =~= Seq::<Conflict>::empty());
                assert(conflicts@ =~= scan_conflicts(cs, i as int) + row_conflicts(
                    cs,
                    i as int,
                    i as int + 1,
                ));
            }
            while j < n
                invariant
                    n == cs.len(),
                    claims@ == cs,
                    0 <= i < n,
                    i + 1 <= j <= n,
                    conflicts@ == scan_conflicts(cs, i as int) + row_conflicts(
                        cs,
                        i as int,
                        j as int,
                    ),
                    conflicts@.len() == 0 <==> no_conflict_upto(cs, i as int, j as int),
                    conflicts@.len() > 0 ==> !spec_conflict_free(cs),
                decreases n - j,
            {
                let a = (claims[i].0, claims[i].1, claims[i].2);
                let b = (claims[j].0, claims[j].1, claims[j].2);
                if conflict_exec(a, b) {
                    conflicts.push(
                        Conflict {
                            kind_a: a.0,
                            id_a: a.1,
                            version_a: a.2,
                            kind_b: b.0,
                            id_b: b.1,
                            version_b: b.2,
                        },
                    );
                    proof {
                        assert(claims_conflict(cs[i as int], cs[j as int]));
                        assert(!spec_conflict_free(cs));
                        assert(conflicts@ =~= scan_conflicts(cs, i as int) + row_conflicts(
                            cs,
                            i as int,
                            j as int,
                        ).push(conflict_of(cs[i as int], cs[j as int])));
                        assert(row_conflicts(cs, i as int, j as int + 1) =~= row_conflicts(
                            cs,
                            i as int,
                            j as int,
                        ).push(conflict_of(cs[i as int], cs[j as int])));
                        assert(conflicts@ =~= scan_conflicts(cs, i as int) + row_conflicts(
                            cs,
                            i as int,
                            j as int + 1,
                        ));
                    }
                } else {
                    proof {
                        assert(row_conflicts(cs, i as int, j as int + 1) =~= row_conflicts(
                            cs,
                            i as int,
                            j as int,
                        ));
                    }
                }
                j += 1;
            }
            proof {
                assert(scan_conflicts(cs, i as int + 1) =~= scan_conflicts(cs, i as int)
                    + row_conflicts(cs, i as int, n as int));
            }
            i += 1;
        }
        proof {
            if conflicts@.len() == 0 {
                assert(no_conflict_upto(cs, n as int, n as int + 1));
                assert forall|p: int, q: int|
                    0 <= p < cs.len() && 0 <= q < cs.len() && p != q implies !claims_conflict(
                    cs[p],
                    cs[q],
                ) by {
                    if p < q {
                        assert(!claims_conflict(cs[p], cs[q]));
                    } else {
                        assert(!claims_conflict(cs[q], cs[p]));
                    }
                }
            }
        }

        let mut table = VersionMappings::new();
        let mut c: usize = 0;
        while c < n
            invariant
                n == cs.len(),
                claims@ == cs,
                0 <= c <= n,
                kinds_unique(table.table()),
                forall|k: u32, i2: i32, v: LitIntValue|
                    #![trigger table_has(table.table(), k, i2, v)]
                    table_has(table.table(), k, i2, v) ==> cs.take(c as int).contains((k, i2, v)),
                spec_conflict_free(cs) ==> forall|k: u32, i2: i32, v: LitIntValue|
                    #![trigger table_has(table.table(), k, i2, v)]
                    table_has(table.table(), k, i2, v) <==> cs.take(c as int).contains(
                        (k, i2, v),
                    ),
            decreases n - c,
        {
            let ghost t_pre = table.table();
            let cl = (claims[c].0, claims[c].1, claims[c].2);
            proof {
                // On conflict-free claims the exclusion never fires: an
                // overlapping other-id claim of the same kind would be a
                // conflicting pair.
                if spec_conflict_free(cs) && table_kind_conflicts(t_pre, cl.0, cl.1, cl.2) {
                    let a = choose|a: int|
                        0 <= a < t_pre.len() && (#[trigger] t_pre[a]).0 == cl.0
                            && pv_conflicts_other(t_pre[a].1, cl.1, cl.2);
                    let w = choose|w: int|
                        0 <= w < t_pre[a].1.len() && (#[trigger] t_pre[a].1[w]).0 != cl.1
                            && spec_versions_overlap(t_pre[a].1[w].1, cl.2);
                    assert(pv_has_exact(t_pre[a].1, t_pre[a].1[w].0, t_pre[a].1[w].1));
                    assert(table_has(t_pre, cl.0, t_pre[a].1[w].0, t_pre[a].1[w].1));
                    let q = choose|q: int|
                        0 <= q < c && #[trigger] cs.take(c as int)[q] == (
                        cl.0,
                        t_pre[a].1[w].0,
                        t_pre[a].1[w].1,
                        );
                    assert(cs[q] == (cl.0, t_pre[a].1[w].0, t_pre[a].1[w].1));
                    assert(cs[c as int] == cl);
                    assert(claims_conflict(cs[q], cs[c as int]));
                    assert(false);
                }
            }
            table.add_claim(cl.0, cl.1, cl.2);
            proof {
                assert(cs.take(c + 1)[c as int] == cs[c as int]);
                assert forall|k: u32, i2: i32, v: LitIntValue|
                    #![trigger table_has(table.table(), k, i2, v)]
                    table_has(table.table(), k, i2, v) implies cs.take(c + 1).contains(
                    (k, i2, v),
                ) by {
                    if table_has(t_pre, k, i2, v) {
                        let q = choose|q: int|
                            0 <= q < c && #[trigger] cs.take(c as int)[q] == (k, i2, v);
                        assert(cs.take(c + 1)[q] == (k, i2, v));
                    } else {
                        assert((k, i2, v) == cs[c as int]);
                    }
                }
                if spec_conflict_free(cs) {
                    assert forall|k: u32, i2: i32, v: LitIntValue|
                        cs.take(c + 1).contains((k, i2, v)) implies #[trigger] table_has(
                        table.table(),
                        k,
                        i2,
                        v,
                    ) by {
                        let q = choose|q: int|
                            0 <= q < cs.take(c + 1).len() && #[trigger] cs.take(c + 1)[q] == (
                            k,
                            i2,
                            v,
                            );
                        if q < c {
                            assert(cs.take(c as int)[q] == (k, i2, v));
                            assert(cs.take(c as int).contains((k, i2, v)));
                        } else {
                            assert((k, i2, v) == cs[c as int]);
                        }
                    }
                }
            }
            c += 1;
        }
        proof {
            assert(cs.take(n as int) =~= cs);
        }
        (table, conflicts)
    }
}

/// The diagnostic for an ordered pair of conflicting claims.
pub open spec fn conflict_of(a: (u32, i32, LitIntValue), b: (u32, i32, LitIntValue)) -> Conflict {
    Conflict {
        kind_a: a.0,
        id_a: a.1,
        version_a: a.2,
        kind_b: b.0,
        id_b: b.1,
        version_b: b.2,
    }
}

/// Diagnostics of row `p` against columns `p+1 .. q`: one record per
/// conflicting pair, in scan order.
pub open spec fn row_conflicts(cs: Seq<(u32, i32, LitIntValue)>, p: int, q: int) -> Seq<Conflict>
    decreases q - p,
{
    if q <= p + 1 {
        seq![]
    } else {
        row_conflicts(cs, p, q - 1) + (if claims_conflict(cs[p], cs[q - 1]) {
            seq![conflict_of(cs[p], cs[q - 1])]
        } else {
            seq![]
        })
    }
}

/// Diagnostics of every full row before `i`, in scan order.
pub open spec fn scan_conflicts(cs: Seq<(u32, i32, LitIntValue)>, i: int) -> Seq<Conflict>
    decreases i,
{
    if i <= 0 {
        seq![]
    } else {
        scan_conflicts(cs, i - 1) + row_conflicts(cs, i - 1, cs.len() as int)
    }
}

/// Every diagnostic of the claim list: exactly one record per conflicting
/// pair `p < q`, in scan order.
pub open spec fn spec_conflicts(cs: Seq<(u32, i32, LitIntValue)>) -> Seq<Conflict> {
    scan_conflicts(cs, cs.len() as int)
}

/// All ordered pairs `(p, q)` with `p < q` that the scan has already
/// cleared: every pair before row `i`, and in row `i` every column before
/// `j`.
pub open spec fn no_conflict_upto(cs: Seq<(u32, i32, LitIntValue)>, i: int, j: int) -> bool {
    forall|p: int, q: int|
        0 <= p < q < cs.len() && (p < i || (p == i && q < j)) ==> !claims_conflict(cs[p], cs[q])
}

/// Whether two claims collide; mirrors `claims_conflict`.
fn conflict_exec(a: (u32, i32, LitIntValue), b: (u32, i32, LitIntValue)) -> (r: bool)
    ensures
        r == claims_conflict(a, b),
{
    let overlap = LitIntBool::new(a.2).logical_eq(&LitIntBool::new(b.2));
    if a.0 == b.0 {
        a.1 != b.1 && overlap
    } else {
        a.1 == b.1 && overlap
    }
}

/// Flattens every kind's claims into one list, in declaration order.
fn flatten_claims(mappings: &Vec<PacketMappings>) -> (r: Vec<(u32, i32, LitIntValue)>)
    ensures
        r@ == spec_claims(mappings@),
{
    let mut claims: Vec<(u32, i32, LitIntValue)> = Vec::new();
    let mut mi: usize = 0;
    while mi < mappings.len()
        invariant
            0 <= mi <= mappings@.len(),
            claims@ == spec_claims(mappings@.take(mi as int)),
        decreases mappings@.len() - mi,
    {
        let ghost outer_pre = claims@;
        let kind = mappings[mi].kind;
        let mut j: usize = 0;
        while j < mappings[mi].mappings.len()
            invariant
                0 <= mi < mappings@.len(),
                0 <= j <= mappings@[mi as int].mappings@.len(),
                kind == mappings@[mi as int].kind,
                claims@ == outer_pre + claims_of_kind(
                    kind,
                    mappings@[mi as int].mappings@.take(j as int),
                ),
            decreases mappings@[mi as int].mappings@.len() - j,
        {
            let ghost mid_pre = claims@;
            let id = mappings[mi].mappings[j].id;
            let mut u: usize = 0;
            while u < mappings[mi].mappings[j].versions.len()
                invariant
                    0 <= mi < mappings@.len(),
                    0 <= j < mappings@[mi as int].mappings@.len(),
                    0 <= u <= mappings@[mi as int].mappings@[j as int].versions@.len(),
                    kind == mappings@[mi as int].kind,
                    id == mappings@[mi as int].mappings@[j as int].id,
                    claims@ == mid_pre + mappings@[mi as int].mappings@[j as int].versions@.take(
                        u as int,
                    ).map_values(|v: LitIntValue| (kind, id, v)),
                decreases mappings@[mi as int].mappings@[j as int].versions@.len() - u,
            {
                let v = mappings[mi].mappings[j].versions[u];
                claims.push((kind, id, v));
                proof {
                    let vs = mappings@[mi as int].mappings@[j as int].versions@;
                    assert(vs.take(u + 1).map_values(|v2: LitIntValue| (kind, id, v2)) =~= vs.take(
                        u as int,
                    ).map_values(|v2: LitIntValue| (kind, id, v2)).push((kind, id, v)));
                }
                u += 1;
            }
            proof {
                let ms = mappings@[mi as int].mappings@;
                let vs = ms[j as int].versions@;
                assert(vs.take(vs.len() as int) =~= vs);
                assert(claims_of_one(kind, ms[j as int]) == vs.map_values(
                    |v2: LitIntValue| (kind, id, v2),
                ));
                assert(ms.take(j + 1).drop_last() =~= ms.take(j as int));
                assert(ms.take(j + 1).last() == ms[j as int]);
                assert(claims_of_kind(kind, ms.take(j + 1)) == claims_of_kind(
                    kind,
                    ms.take(j as int),
                ) + claims_of_one(kind, ms[j as int]));
                assert(claims@ =~= outer_pre + claims_of_kind(kind, ms.take(j + 1)));
            }
            j += 1;
        }
        proof {
            let ms = mappings@[mi as int].mappings@;
            assert(ms.take(ms.len() as int) =~= ms);
            assert(mappings@.take(mi + 1).drop_last() =~= mappings@.take(mi as int));
            assert(mappings@.take(mi + 1).last() == mappings@[mi as int]);
            assert(claims@ =~= spec_claims(mappings@.take(mi + 1)));
        }
        mi += 1;
    }
    proof {
        assert(mappings@.take(mappings@.len() as int) =~= mappings@);
    }
    claims
}

} // verus!
