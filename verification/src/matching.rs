//! Device-identification and matching engine.
//!
//! Decides which candidate device-tree blob out of a mapping catalog applies
//! to the running machine.  Two identification sources are tried in strict
//! priority order: ranked matching against the ambient device tree's
//! `compatible` list, then first-match filtering against the DMI profile.
//! The first source to produce a result wins; there is no merge.

use vstd::prelude::*;

use crate::bytes::bytes_eq;
use crate::dmi::spec_name_key;
use crate::dmi::name_key;
use crate::dmi::DmiProfile;

verus! {

/// One `dmi-match` constraint: a field name and the set of acceptable
/// values (an OR-set; the profile value has to equal at least one).
#[derive(Debug, Clone, PartialEq, Eq)]
pub struct DmiMatchField {
    pub name: String,
    pub values: Vec<Vec<u8>>,
}

/// One candidate board entry of the mapping catalog.
///
/// A candidate carries either (or both) of a `compatible` string list and a
/// `dmi-match` constraint set, and always names the device-tree blob to load
/// if it wins.
#[derive(Debug, Clone, PartialEq, Eq)]
pub struct CandidateDevice {
    /// Node name, informational only.
    pub name: String,
    /// Ordered `compatible` strings, most specific first.
    pub compatible: Option<Vec<String>>,
    /// `dmi-match` constraints; `None` when the candidate has no such child.
    pub dmi_match: Option<Vec<DmiMatchField>>,
    /// Relative path of the device-tree blob this candidate selects.
    pub dtb: String,
}

/// The mapping catalog: candidate entries in document order.
/// Document order is significant for the DMI fallback.
#[derive(Debug, Clone, PartialEq, Eq)]
pub struct MappingCatalog {
    pub candidates: Vec<CandidateDevice>,
}

/// What the engine decides, as a mathematical value.
pub enum MatchOutcome {
    NoMatch,
    Compatible { dtb: Seq<char>, rank: int },
    Dmi { dtb: Seq<char> },
}

/// What the engine decides: no match (a defined, expected result), or the
/// winning blob path together with the rank that won (for compatible-list
/// matching only).
#[derive(Debug, Clone, PartialEq, Eq)]
pub enum MatchResult {
    NoMatch,
    Compatible { dtb_path: String, rank: usize },
    Dmi { dtb_path: String },
}

impl View for MatchResult {
    type V = MatchOutcome;

    open spec fn view(&self) -> MatchOutcome {
        match self {
            MatchResult::NoMatch => MatchOutcome::NoMatch,
            MatchResult::Compatible { dtb_path, rank } => MatchOutcome::Compatible {
                dtb: dtb_path@,
                rank: *rank as int,
            },
            MatchResult::Dmi { dtb_path } => MatchOutcome::Dmi { dtb: dtb_path@ },
        }
    }
}

/// Position of the first string of `l` equal to `x`.
pub open spec fn first_index_of(l: Seq<String>, x: Seq<char>) -> Option<int>
    decreases l.len(),
{
    if l.len() == 0 {
        None
    } else if l[0]@ == x {
        Some(0int)
    } else {
        match first_index_of(l.drop_first(), x) {
            Some(i) => Some(i + 1),
            None => None,
        }
    }
}

/// The rank a compatible list earns against the ambient list: the ambient
/// position of the first list entry that occurs in the ambient list at all.
/// Scanning stops at that entry; later entries cannot improve the rank.
pub open spec fn first_found_rank(comp: Seq<String>, ambient: Seq<String>) -> Option<int>
    decreases comp.len(),
{
    if comp.len() == 0 {
        None
    } else {
        match first_index_of(ambient, comp[0]@) {
            Some(r) => Some(r),
            None => first_found_rank(comp.drop_first(), ambient),
        }
    }
}

/// A candidate's rank against the ambient compatible list, if any.
pub open spec fn candidate_rank(c: CandidateDevice, ambient: Seq<String>) -> Option<int> {
    match c.compatible {
        Some(comp) => first_found_rank(comp@, ambient),
        None => None,
    }
}

/// Winner among the first `n` candidates: the pair of candidate index and
/// rank with the numerically smallest rank; an earlier candidate wins ties.
pub open spec fn best_rank_upto(cands: Seq<CandidateDevice>, ambient: Seq<String>, n: int) -> Option<
    (int, int),
>
    decreases n,
{
    if n <= 0 {
        None
    } else {
        let prev = best_rank_upto(cands, ambient, n - 1);
        match candidate_rank(cands[n - 1], ambient) {
            Some(r) => match prev {
                Some(p) => if r < p.1 {
                    Some((n - 1, r))
                } else {
                    Some(p)
                },
                None => Some((n - 1, r)),
            },
            None => prev,
        }
    }
}

/// Compatible-string ranked matching over the whole catalog.
pub open spec fn phase_a(cands: Seq<CandidateDevice>, ambient: Seq<String>) -> Option<(int, int)> {
    best_rank_upto(cands, ambient, cands.len() as int)
}

/// One `dmi-match` field is satisfied when its name is not a recognized
/// identifier (ignored, an automatic pass), or when the profile's value for
/// the recognized field equals at least one acceptable value.
pub open spec fn field_matches(f: DmiMatchField, profile: DmiProfile) -> bool {
    match spec_name_key(f.name@) {
        None => true,
        Some(k) => exists|i: int|
            0 <= i < f.values@.len() && f.values@[i]@ == profile.spec_field(k),
    }
}

/// A candidate matches the profile when it carries a `dmi-match` constraint
/// set and every field of it is satisfied.
pub open spec fn candidate_dmi_matches(c: CandidateDevice, profile: DmiProfile) -> bool {
    match c.dmi_match {
        Some(fields) => forall|i: int|
            0 <= i < fields@.len() ==> field_matches(#[trigger] fields@[i], profile),
        None => false,
    }
}

/// DMI profile matching: the first candidate in document order whose
/// `dmi-match` constraints are all satisfied.  No ranking in this phase.
pub open spec fn phase_b(cands: Seq<CandidateDevice>, profile: DmiProfile) -> Option<int>
    decreases cands.len(),
{
    if cands.len() == 0 {
        None
    } else if candidate_dmi_matches(cands[0], profile) {
        Some(0int)
    } else {
        match phase_b(cands.drop_first(), profile) {
            Some(i) => Some(i + 1),
            None => None,
        }
    }
}

/// The whole engine: ranked compatible matching when an ambient list is
/// present, then DMI profile matching when a profile is present, else no
/// match.
pub open spec fn match_spec(
    cands: Seq<CandidateDevice>,
    ambient: Option<Seq<String>>,
    profile: Option<DmiProfile>,
) -> MatchOutcome {
    let pa = match ambient {
        Some(l) => phase_a(cands, l),
        None => None,
    };
    match pa {
        Some(p) => MatchOutcome::Compatible { dtb: cands[p.0].dtb@, rank: p.1 },
        None => match profile {
            Some(pr) => match phase_b(cands, pr) {
                Some(i) => MatchOutcome::Dmi { dtb: cands[i].dtb@ },
                None => MatchOutcome::NoMatch,
            },
            None => MatchOutcome::NoMatch,
        },
    }
}

/// Running best compatible-phase match, as the scan proceeds.
#[derive(Debug, Clone, PartialEq, Eq)]
pub struct MatchedDTB {
    /// Rank of the best candidate seen so far; `usize::MAX` while none.
    pub rank: usize,
    /// Blob path of the best candidate seen so far.
    pub dtb_path: String,
}

impl MatchedDTB {
    /// A fresh tracker: worst possible rank, no path.
    pub fn new() -> (m: Self)
        ensures
            m.rank == usize::MAX,
            m.dtb_path@ == Seq::<char>::empty(),
    {
        Self { rank: usize::MAX, dtb_path: String::new() }
    }
}

proof fn lemma_first_index_of_found(l: Seq<String>, x: Seq<char>, i: int)
    requires
        0 <= i < l.len(),
        l[i]@ == x,
        forall|j: int| 0 <= j < i ==> l[j]@ != x,
    ensures
        first_index_of(l, x) == Some(i),
    decreases i,
{
    if i == 0 {
    } else {
        assert(l[0]@ != x);
        assert(forall|j: int| 0 <= j < i - 1 ==> l.drop_first()[j] == l[j + 1]);
        lemma_first_index_of_found(l.drop_first(), x, i - 1);
    }
}

proof fn lemma_first_index_of_none(l: Seq<String>, x: Seq<char>)
    requires
        forall|j: int| 0 <= j < l.len() ==> l[j]@ != x,
    ensures
        first_index_of(l, x) == None::<int>,
    decreases l.len(),
{
    if l.len() > 0 {
        assert(forall|j: int| 0 <= j < l.len() - 1 ==> l.drop_first()[j] == l[j + 1]);
        lemma_first_index_of_none(l.drop_first(), x);
    }
}

proof fn lemma_first_index_of_bounds(l: Seq<String>, x: Seq<char>)
    ensures
        match first_index_of(l, x) {
            Some(i) => 0 <= i < l.len() && l[i]@ == x,
            None => true,
        },
    decreases l.len(),
{
    if l.len() > 0 && l[0]@ != x {
        lemma_first_index_of_bounds(l.drop_first(), x);
    }
}

proof fn lemma_first_found_rank_found(comp: Seq<String>, ambient: Seq<String>, i: int, r: int)
    requires
        0 <= i < comp.len(),
        first_index_of(ambient, comp[i]@) == Some(r),
        forall|j: int| 0 <= j < i ==> first_index_of(ambient, #[trigger] comp[j]@) == None::<int>,
    ensures
        first_found_rank(comp, ambient) == Some(r),
    decreases i,
{
    if i == 0 {
    } else {
        assert(first_index_of(ambient, comp[0]@) == None::<int>);
        assert(forall|j: int| 0 <= j < i - 1 ==> comp.drop_first()[j] == comp[j + 1]);
        lemma_first_found_rank_found(comp.drop_first(), ambient, i - 1, r);
    }
}

proof fn lemma_first_found_rank_none(comp: Seq<String>, ambient: Seq<String>)
    requires
        forall|j: int| 0 <= j < comp.len() ==> first_index_of(ambient, #[trigger] comp[j]@)
            == None::<int>,
    ensures
        first_found_rank(comp, ambient) == None::<int>,
    decreases comp.len(),
{
    if comp.len() > 0 {
        assert(first_index_of(ambient, comp[0]@) == None::<int>);
        assert(forall|j: int| 0 <= j < comp.len() - 1 ==> comp.drop_first()[j] == comp[j + 1]);
        lemma_first_found_rank_none(comp.drop_first(), ambient);
    }
}

/// A rank, when one exists, is a position in the ambient list.
pub proof fn lemma_candidate_rank_bounds(c: CandidateDevice, ambient: Seq<String>)
    ensures
        match candidate_rank(c, ambient) {
            Some(r) => 0 <= r < ambient.len(),
            None => true,
        },
{
    match c.compatible {
        Some(comp) => {
            lemma_first_found_rank_bounds(comp@, ambient);
        },
        None => {},
    }
}

proof fn lemma_first_found_rank_bounds(comp: Seq<String>, ambient: Seq<String>)
    ensures
        match first_found_rank(comp, ambient) {
            Some(r) => 0 <= r < ambient.len(),
            None => true,
        },
    decreases comp.len(),
{
    if comp.len() > 0 {
        lemma_first_index_of_bounds(ambient, comp[0]@);
        lemma_first_found_rank_bounds(comp.drop_first(), ambient);
    }
}

/// What the phase-A winner means: it carries a real rank, no candidate has a
/// smaller one, and no earlier candidate has one as small.  When there is no
/// winner, no candidate has a rank at all.
pub proof fn lemma_best_rank_props(cands: Seq<CandidateDevice>, ambient: Seq<String>, n: int)
    requires
        0 <= n <= cands.len(),
    ensures
        match best_rank_upto(cands, ambient, n) {
            Some(p) => {
                &&& 0 <= p.0 < n
                &&& candidate_rank(cands[p.0], ambient) == Some(p.1)
                &&& forall|i: int|
                    0 <= i < n && #[trigger] candidate_rank(cands[i], ambient) is Some ==> p.1
                        <= candidate_rank(cands[i], ambient).unwrap()
                &&& forall|i: int|
                    0 <= i < p.0 && #[trigger] candidate_rank(cands[i], ambient) is Some ==> p.1
                        < candidate_rank(cands[i], ambient).unwrap()
            },
            None => forall|i: int|
                0 <= i < n ==> #[trigger] candidate_rank(cands[i], ambient) is None,
        },
    decreases n,
{
    if n > 0 {
        lemma_best_rank_props(cands, ambient, n - 1);
    }
}

/// Once the running winner has rank zero, later candidates cannot change it.
proof fn lemma_best_rank_stable_zero(cands: Seq<CandidateDevice>, ambient: Seq<String>, m: int, n: int)
    requires
        0 <= m <= n <= cands.len(),
        best_rank_upto(cands, ambient, m) matches Some(p) && p.1 == 0,
    ensures
        best_rank_upto(cands, ambient, n) == best_rank_upto(cands, ambient, m),
    decreases n - m,
{
    if n > m {
        lemma_best_rank_stable_zero(cands, ambient, m, n - 1);
        match candidate_rank(cands[n - 1], ambient) {
            Some(r) => {
                lemma_candidate_rank_bounds(cands[n - 1], ambient);
            },
            None => {},
        }
    }
}

proof fn lemma_phase_b_found(cands: Seq<CandidateDevice>, profile: DmiProfile, i: int)
    requires
        0 <= i < cands.len(),
        candidate_dmi_matches(cands[i], profile),
        forall|j: int| 0 <= j < i ==> !candidate_dmi_matches(#[trigger] cands[j], profile),
    ensures
        phase_b(cands, profile) == Some(i),
    decreases i,
{
    if i == 0 {
    } else {
        assert(!candidate_dmi_matches(cands[0], profile));
        assert(forall|j: int| 0 <= j < i - 1 ==> cands.drop_first()[j] == cands[j + 1]);
        lemma_phase_b_found(cands.drop_first(), profile, i - 1);
    }
}

proof fn lemma_phase_b_none(cands: Seq<CandidateDevice>, profile: DmiProfile)
    requires
        forall|j: int| 0 <= j < cands.len() ==> !candidate_dmi_matches(#[trigger] cands[j], profile),
    ensures
        phase_b(cands, profile) == None::<int>,
    decreases cands.len(),
{
    if cands.len() > 0 {
        assert(!candidate_dmi_matches(cands[0], profile));
        assert(forall|j: int| 0 <= j < cands.len() - 1 ==> cands.drop_first()[j] == cands[j + 1]);
        lemma_phase_b_none(cands.drop_first(), profile);
    }
}

/// Position of the first entry of `l` equal to `x`, by scanning.
fn index_in_list(l: &Vec<String>, x: &String) -> (r: Option<usize>)
    ensures
        match r {
            Some(i) => i < l@.len() && first_index_of(l@, x@) == Some(i as int),
            None => first_index_of(l@, x@) == None::<int>,
        },
{
    let n = l.len();
    let mut i: usize = 0;
    while i < n
        invariant
            n == l@.len(),
            i <= n,
            forall|j: int| 0 <= j < i ==> l@[j]@ != x@,
        decreases n - i,
    {
        if l[i].eq(x) {
            proof {
                lemma_first_index_of_found(l@, x@, i as int);
            }
            return Some(i);
        }
        i = i + 1;
    }
    proof {
        lemma_first_index_of_none(l@, x@);
    }
    None
}

/// A candidate's rank against the ambient list: the ambient position of the
/// first of its compatible strings that occurs in the ambient list.
#[verifier::loop_isolation(false)]
pub fn rank_of(c: &CandidateDevice, ambient: &Vec<String>) -> (r: Option<usize>)
    ensures
        match r {
            Some(rk) => rk < ambient@.len() && candidate_rank(*c, ambient@) == Some(rk as int),
            None => candidate_rank(*c, ambient@) == None::<int>,
        },
{
    match c.compatible.as_ref() {
        None => None,
        Some(comp) => {
            let n = comp.len();
            let mut j: usize = 0;
            while j < n
                invariant
                    n == comp@.len(),
                    j <= n,
                    forall|j2: int|
                        0 <= j2 < j ==> first_index_of(ambient@, #[trigger] comp@[j2]@)
                            == None::<int>,
                decreases n - j,
            {
                match index_in_list(ambient, &comp[j]) {
                    Some(rk) => {
                        proof {
                            lemma_first_found_rank_found(comp@, ambient@, j as int, rk as int);
                        }
                        return Some(rk);
                    },
                    None => {},
                }
                j = j + 1;
            }
            proof {
                lemma_first_found_rank_none(comp@, ambient@);
            }
            None
        },
    }
}

/// Whether one `dmi-match` field is satisfied by the profile.
fn field_matches_exec(f: &DmiMatchField, profile: &DmiProfile) -> (b: bool)
    ensures
        b == field_matches(*f, *profile),
{
    match name_key(&f.name) {
        None => true,
        Some(k) => {
            let expected = profile.field(k);
            let n = f.values.len();
            let mut i: usize = 0;
            while i < n
                invariant
                    n == f.values@.len(),
                    i <= n,
                    expected@ == profile.spec_field(k),
                    spec_name_key(f.name@) == Some(k),
                    forall|j: int| 0 <= j < i ==> f.values@[j]@ != profile.spec_field(k),
                decreases n - i,
            {
                if bytes_eq(f.values[i].as_slice(), expected.as_slice()) {
                    return true;
                }
                i = i + 1;
            }
            false
        },
    }
}

/// Whether a candidate's `dmi-match` constraints are all satisfied.
#[verifier::loop_isolation(false)]
pub fn dmi_matches(c: &CandidateDevice, profile: &DmiProfile) -> (b: bool)
    ensures
        b == candidate_dmi_matches(*c, *profile),
{
    match c.dmi_match.as_ref() {
        None => false,
        Some(fields) => {
            let n = fields.len();
            let mut i: usize = 0;
            while i < n
                invariant
                    n == fields@.len(),
                    i <= n,
                    forall|j: int| 0 <= j < i ==> field_matches(#[trigger] fields@[j], *profile),
                decreases n - i,
            {
                if !field_matches_exec(&fields[i], profile) {
                    return false;
                }
                i = i + 1;
            }
            true
        },
    }
}

/// The matching engine.
///
/// `ambient` is the ambient device tree's root `compatible` list, when an
/// ambient device tree is present; `profile` is the DMI identification
/// profile, when SMBIOS data is present.  Phase A (ranked compatible
/// matching) is tried first and short-circuits on a rank-zero hit; phase B
/// (first satisfying `dmi-match` candidate) runs only when phase A yields
/// nothing.  A catalog with no usable candidate yields `NoMatch`, which is
/// an expected outcome, not an error.
#[verifier::loop_isolation(false)]
pub fn match_device(
    catalog: &MappingCatalog,
    ambient: Option<&Vec<String>>,
    profile: Option<&DmiProfile>,
) -> (r: MatchResult)
    ensures
        r@ == match_spec(
            catalog.candidates@,
            match ambient {
                Some(l) => Some(l@),
                None => None::<Seq<String>>,
            },
            match profile {
                Some(p) => Some(*p),
                None => None::<DmiProfile>,
            },
        ),
{
    let cands = &catalog.candidates;
    let n = cands.len();

    if let Some(ambient_list) = ambient {
        let mut best: Option<(usize, usize)> = None;
        let mut done: bool = false;
        let mut i: usize = 0;
        while i < n && !done
            invariant
                n == cands@.len(),
                i <= n,
                (match best {
                    Some(p) => best_rank_upto(cands@, ambient_list@, i as int) == Some(
                        (p.0 as int, p.1 as int),
                    ) && p.0 < n,
                    None => best_rank_upto(cands@, ambient_list@, i as int) == None::<(int, int)>,
                }),
                done ==> best_rank_upto(cands@, ambient_list@, i as int) == best_rank_upto(
                    cands@,
                    ambient_list@,
                    n as int,
                ),
            decreases n - i,
        {
            match rank_of(&cands[i], ambient_list) {
                Some(r) => {
                    let better = match best {
                        Some(p) => r < p.1,
                        None => true,
                    };
                    if better {
                        best = Some((i, r));
                    }
                    i = i + 1;
                    if r == 0 {
                        proof {
                            lemma_best_rank_stable_zero(cands@, ambient_list@, i as int, n as int);
                        }
                        done = true;
                    }
                },
                None => {
                    i = i + 1;
                },
            }
        }
        match best {
            Some(p) => {
                return MatchResult::Compatible { dtb_path: cands[p.0].dtb.clone(), rank: p.1 };
            },
            None => {},
        }
    }

    if let Some(prof) = profile {
        let mut i: usize = 0;
        while i < n
            invariant
                n == cands@.len(),
                i <= n,
                forall|j: int| 0 <= j < i ==> !candidate_dmi_matches(#[trigger] cands@[j], *prof),
            decreases n - i,
        {
            if dmi_matches(&cands[i], prof) {
                proof {
                    lemma_phase_b_found(cands@, *prof, i as int);
                }
                return MatchResult::Dmi { dtb_path: cands[i].dtb.clone() };
            }
            i = i + 1;
        }
        proof {
            lemma_phase_b_none(cands@, *prof);
        }
    }

    MatchResult::NoMatch
}

/// A catalog with zero candidates yields `NoMatch` under every ambient list
/// and every profile.
pub proof fn lemma_empty_catalog_no_match(
    ambient: Option<Seq<String>>,
    profile: Option<DmiProfile>,
)
    ensures
        match_spec(Seq::<CandidateDevice>::empty(), ambient, profile) == MatchOutcome::NoMatch,
{
}

/// A candidate whose compatible list reaches the most specific ambient
/// string (the ambient list's first entry) before any other ambient entry
/// earns rank zero.
pub proof fn lemma_most_specific_hit_ranks_zero(c: CandidateDevice, ambient: Seq<String>, j: int)
    requires
        ambient.len() > 0,
        c.compatible matches Some(comp) && 0 <= j < comp@.len() && comp@[j]@ == ambient[0]@
            && forall|j2: int|
            0 <= j2 < j ==> first_index_of(ambient, #[trigger] comp@[j2]@) == None::<int>,
    ensures
        candidate_rank(c, ambient) == Some(0int),
{
    match c.compatible {
        Some(comp) => {
            lemma_first_index_of_found(ambient, comp@[j]@, 0);
            lemma_first_found_rank_found(comp@, ambient, j, 0);
        },
        None => {},
    }
}

/// A candidate that earns rank zero decides the match: the engine reports a
/// compatible match of rank zero, won by the first candidate that earns it,
/// whatever the other candidates carry.
pub proof fn lemma_rank_zero_wins(
    cands: Seq<CandidateDevice>,
    ambient: Seq<String>,
    profile: Option<DmiProfile>,
    i: int,
)
    requires
        0 <= i < cands.len(),
        candidate_rank(cands[i], ambient) == Some(0int),
    ensures
        match_spec(cands, Some(ambient), profile) matches MatchOutcome::Compatible {
            dtb: d,
            rank: r,
        } && r == 0 && (exists|w: int|
            {
                &&& 0 <= w <= i
                &&& candidate_rank(cands[w], ambient) == Some(0int)
                &&& d == cands[w].dtb@
                &&& forall|j: int| 0 <= j < w ==> candidate_rank(#[trigger] cands[j], ambient)
                    != Some(0int)
            }),
{
    lemma_best_rank_props(cands, ambient, cands.len() as int);
    match best_rank_upto(cands, ambient, cands.len() as int) {
        Some(p) => {
            lemma_candidate_rank_bounds(cands[p.0], ambient);
            assert(p.1 <= 0);
            assert(p.1 == 0);
            if p.0 > i {
                assert(candidate_rank(cands[i], ambient) is Some);
                assert(false);
            }
            assert(forall|j: int|
                0 <= j < p.0 ==> candidate_rank(#[trigger] cands[j], ambient) != Some(0int));
            assert({
                &&& 0 <= p.0 <= i
                &&& candidate_rank(cands[p.0], ambient) == Some(0int)
                &&& cands[p.0].dtb@ == cands[p.0].dtb@
                &&& forall|j: int| 0 <= j < p.0 ==> candidate_rank(#[trigger] cands[j], ambient)
                    != Some(0int)
            });
        },
        None => {
            assert(candidate_rank(cands[i], ambient) is Some);
            assert(false);
        },
    }
}

/// Rank is monotonic: when one candidate's rank is strictly smaller than
/// another's, the reported winning rank never exceeds the smaller of the
/// two, so the weaker candidate never outranks the stronger one.
pub proof fn lemma_rank_monotonic(
    cands: Seq<CandidateDevice>,
    ambient: Seq<String>,
    profile: Option<DmiProfile>,
    i: int,
    j: int,
    ri: int,
    rj: int,
)
    requires
        0 <= i < cands.len(),
        0 <= j < cands.len(),
        candidate_rank(cands[i], ambient) == Some(ri),
        candidate_rank(cands[j], ambient) == Some(rj),
        ri < rj,
    ensures
        match_spec(cands, Some(ambient), profile) matches MatchOutcome::Compatible {
            dtb: d,
            rank: r,
        } && r <= ri && r < rj,
{
    lemma_best_rank_props(cands, ambient, cands.len() as int);
    match best_rank_upto(cands, ambient, cands.len() as int) {
        Some(p) => {
            assert(candidate_rank(cands[i], ambient) is Some);
            assert(p.1 <= ri);
        },
        None => {
            assert(candidate_rank(cands[i], ambient) is Some);
            assert(false);
        },
    }
}

} // verus!
