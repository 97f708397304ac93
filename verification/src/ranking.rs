//! The order in which the targets of a catalog are listed: `beta`, `nightly`, compilers that
//! are named otherwise, then the numbered versions with the newest first.

use vstd::prelude::*;
use vstd::std_specs::convert::FromSpecImpl;
use crate::number::{parse_chars, parse_unsigned};
use crate::targets::{target_views, GodboltTarget, TargetView};
use crate::text::{str_eq, to_chars};

verus! {

/// The rank of a version label.
#[derive(Debug, Clone, Copy)]
pub enum SemverRanking<'a> {
    Beta,
    Nightly,
    /// A label that is neither `beta`, `nightly` nor three numbers.
    Compiler(&'a str),
    /// Major, minor and patch number of a label of the form `X.Y.Z`.
    Semver((u16, u16, u16)),
}

/// What a `SemverRanking` holds, as plain values.
pub enum RankingView {
    Beta,
    Nightly,
    Compiler(Seq<char>),
    Semver((u16, u16, u16)),
}

impl<'a> View for SemverRanking<'a> {
    type V = RankingView;

    open spec fn view(&self) -> RankingView {
        match self {
            SemverRanking::Beta => RankingView::Beta,
            SemverRanking::Nightly => RankingView::Nightly,
            SemverRanking::Compiler(name) => RankingView::Compiler(name@),
            SemverRanking::Semver(version) => RankingView::Semver(*version),
        }
    }
}

/// The three parts of a label that has at least two dots: what stands before the first dot,
/// between the first and the second, and behind the second.
pub open spec fn dot_split(s: Seq<char>) -> Option<(Seq<char>, Seq<char>, Seq<char>)> {
    match s.index_of_first('.') {
        Some(i) => {
            let rest = s.skip(i + 1);
            match rest.index_of_first('.') {
                Some(j) => Some((s.take(i), rest.take(j), rest.skip(j + 1))),
                None => None,
            }
        },
        None => None,
    }
}

/// The number that a part of a label writes, if it is a numeral that fits in 16 bits.
pub open spec fn part_number(part: Seq<char>) -> Option<u16> {
    match parse_unsigned(part, u16::MAX as nat) {
        Some(n) => Some(n as u16),
        None => None,
    }
}

/// Major, minor and patch number of a label of the form `X.Y.Z`, each a numeral that fits in
/// 16 bits.
pub open spec fn version_triple(s: Seq<char>) -> Option<(u16, u16, u16)> {
    match dot_split(s) {
        Some((major, minor, patch)) => match (
            part_number(major),
            part_number(minor),
            part_number(patch),
        ) {
            (Some(x), Some(y), Some(z)) => Some((x, y, z)),
            _ => None,
        },
        None => None,
    }
}

/// The rank of a version label.
pub open spec fn ranking_of(semver: Seq<char>) -> RankingView {
    if semver == "beta"@ {
        RankingView::Beta
    } else if semver == "nightly"@ {
        RankingView::Nightly
    } else {
        match version_triple(semver) {
            Some(version) => RankingView::Semver(version),
            None => RankingView::Compiler(semver),
        }
    }
}

/// The place of a rank's kind in the listing.
pub open spec fn kind_of(rank: RankingView) -> nat {
    match rank {
        RankingView::Beta => 0,
        RankingView::Nightly => 1,
        RankingView::Compiler(_) => 2,
        RankingView::Semver(_) => 3,
    }
}

/// `a` is not listed behind `b` among names: the order of a dictionary, by code point.
pub open spec fn name_le(a: Seq<char>, b: Seq<char>) -> bool
    decreases a.len(),
{
    if a.len() == 0 {
        true
    } else if b.len() == 0 {
        false
    } else if a[0] != b[0] {
        a[0] < b[0]
    } else {
        name_le(a.skip(1), b.skip(1))
    }
}

/// Version `a` is not older than version `b`.
pub open spec fn version_ge(a: (u16, u16, u16), b: (u16, u16, u16)) -> bool {
    if a.0 != b.0 {
        a.0 > b.0
    } else if a.1 != b.1 {
        a.1 > b.1
    } else {
        a.2 >= b.2
    }
}

/// Rank `a` is not listed behind rank `b`.
pub open spec fn ranking_le(a: RankingView, b: RankingView) -> bool {
    if kind_of(a) != kind_of(b) {
        kind_of(a) < kind_of(b)
    } else {
        match (a, b) {
            (RankingView::Compiler(x), RankingView::Compiler(y)) => name_le(x, y),
            (RankingView::Semver(x), RankingView::Semver(y)) => version_ge(x, y),
            _ => true,
        }
    }
}

/// The targets are in the order of the listing.
pub open spec fn is_ranked(targets: Seq<TargetView>) -> bool {
    forall|i: int, j: int|
        0 <= i <= j < targets.len() ==> ranking_le(
            ranking_of(#[trigger] targets[i].semver),
            ranking_of(#[trigger] targets[j].semver),
        )
}

/// Of two names, one is not listed behind the other.
pub proof fn lemma_name_le_total(a: Seq<char>, b: Seq<char>)
    ensures
        name_le(a, b) || name_le(b, a),
    decreases a.len(),
{
    if a.len() > 0 && b.len() > 0 && a[0] == b[0] {
        lemma_name_le_total(a.skip(1), b.skip(1));
    }
}

/// The order of names is transitive.
pub proof fn lemma_name_le_transitive(a: Seq<char>, b: Seq<char>, c: Seq<char>)
    requires
        name_le(a, b),
        name_le(b, c),
    ensures
        name_le(a, c),
    decreases a.len(),
{
    if a.len() > 0 && b.len() > 0 && c.len() > 0 && a[0] == b[0] && b[0] == c[0] {
        lemma_name_le_transitive(a.skip(1), b.skip(1), c.skip(1));
    }
}

/// Of two ranks, one is not listed behind the other.
pub proof fn lemma_ranking_le_total(a: RankingView, b: RankingView)
    ensures
        ranking_le(a, b) || ranking_le(b, a),
{
    match (a, b) {
        (RankingView::Compiler(x), RankingView::Compiler(y)) => lemma_name_le_total(x, y),
        _ => {},
    }
}

/// The order of ranks is transitive.
pub proof fn lemma_ranking_le_transitive(a: RankingView, b: RankingView, c: RankingView)
    requires
        ranking_le(a, b),
        ranking_le(b, c),
    ensures
        ranking_le(a, c),
{
    match (a, b, c) {
        (
            RankingView::Compiler(x),
            RankingView::Compiler(y),
            RankingView::Compiler(z),
        ) => lemma_name_le_transitive(x, y, z),
        _ => {},
    }
}

/// `beta` is listed first, `nightly` next, then every other name, and the numbered versions
/// last, a newer one before an older one.
pub proof fn lemma_listing_order(name: Seq<char>, newer: (u16, u16, u16), older: (u16, u16, u16))
    requires
        version_ge(newer, older),
    ensures
        ranking_le(RankingView::Beta, RankingView::Nightly),
        ranking_le(RankingView::Nightly, RankingView::Compiler(name)),
        ranking_le(RankingView::Compiler(name), RankingView::Semver(newer)),
        ranking_le(RankingView::Semver(newer), RankingView::Semver(older)),
        !ranking_le(RankingView::Nightly, RankingView::Beta),
        !ranking_le(RankingView::Semver(older), RankingView::Compiler(name)),
{
}

/// The position of the first dot in `chars[from..]`, counted from `from`.
fn first_dot(chars: &Vec<char>, from: usize) -> (r: Option<usize>)
    requires
        from <= chars.len(),
    ensures
        match r {
            Some(i) => from + i < chars.len() && chars@.skip(from as int).index_of_first('.')
                == Some(i as int),
            None => chars@.skip(from as int).index_of_first('.') is None,
        },
{
    let ghost rest = chars@.skip(from as int);
    let mut i: usize = from;
    while i < chars.len()
        invariant
            from <= i <= chars.len(),
            rest == chars@.skip(from as int),
            forall|j: int| 0 <= j < i - from ==> rest[j] != '.',
        decreases chars.len() - i,
    {
        assert(rest[i - from] == chars@[i as int]);
        if chars[i] == '.' {
            proof {
                rest.index_of_first_ensures('.');
            }
            return Some(i - from);
        }
        i += 1;
    }
    proof {
        rest.index_of_first_ensures('.');
        if rest.contains('.') {
            let k = choose|k: int| 0 <= k < rest.len() && rest[k] == '.';
            assert(false);
        }
    }
    None
}

/// The number that `chars[from..to]` writes, if it is a numeral that fits in 16 bits.
fn part(chars: &Vec<char>, from: usize, to: usize) -> (r: Option<u16>)
    requires
        from <= to <= chars.len(),
    ensures
        r == part_number(chars@.subrange(from as int, to as int)),
{
    match parse_chars(chars, from, to, 65535) {
        Some(n) => Some(n as u16),
        None => None,
    }
}

/// Major, minor and patch number of a label of the form `X.Y.Z`.
pub fn parse_version(semver: &str) -> (r: Option<(u16, u16, u16)>)
    ensures
        r == version_triple(semver@),
{
    let chars = to_chars(semver);
    let ghost s = chars@;
    assert(s.skip(0) =~= s);
    let i = match first_dot(&chars, 0) {
        Some(i) => i,
        None => {
            return None;
        },
    };
    let ghost rest = s.skip(i + 1);
    let j = match first_dot(&chars, i + 1) {
        Some(j) => j,
        None => {
            return None;
        },
    };
    proof {
        assert(s.take(i as int) =~= s.subrange(0, i as int));
        assert(rest.take(j as int) =~= s.subrange(i + 1, i + 1 + j));
        assert(rest.skip(j + 1) =~= s.subrange(i + 1 + j + 1, s.len() as int));
    }
    let major = part(&chars, 0, i);
    let minor = part(&chars, i + 1, i + 1 + j);
    let patch = part(&chars, i + 1 + j + 1, chars.len());
    match (major, minor, patch) {
        (Some(x), Some(y), Some(z)) => Some((x, y, z)),
        _ => None,
    }
}

impl<'a> FromSpecImpl<&'a str> for SemverRanking<'a> {
    open spec fn obeys_from_spec() -> bool {
        true
    }

    open spec fn from_spec(semver: &'a str) -> Self {
        if semver@ == "beta"@ {
            SemverRanking::Beta
        } else if semver@ == "nightly"@ {
            SemverRanking::Nightly
        } else {
            match version_triple(semver@) {
                Some(version) => SemverRanking::Semver(version),
                None => SemverRanking::Compiler(semver),
            }
        }
    }
}

impl<'a> From<&'a str> for SemverRanking<'a> {
    /// The rank of a version label.
    fn from(semver: &'a str) -> (r: Self)
        ensures
            r@ == ranking_of(semver@),
    {
        if str_eq(semver, "beta") {
            SemverRanking::Beta
        } else if str_eq(semver, "nightly") {
            SemverRanking::Nightly
        } else {
            match parse_version(semver) {
                Some(version) => SemverRanking::Semver(version),
                None => SemverRanking::Compiler(semver),
            }
        }
    }
}

/// Whether name `a` is not listed behind name `b`.
fn name_le_exec(a: &str, b: &str) -> (r: bool)
    ensures
        r == name_le(a@, b@),
{
    let x = to_chars(a);
    let y = to_chars(b);
    let mut i: usize = 0;
    assert(x@.skip(0) =~= x@ && y@.skip(0) =~= y@);
    loop
        invariant
            i <= x.len(),
            i <= y.len(),
            x@ == a@,
            y@ == b@,
            name_le(x@, y@) == name_le(x@.skip(i as int), y@.skip(i as int)),
        decreases x.len() - i,
    {
        if i == x.len() {
            return true;
        }
        if i == y.len() {
            return false;
        }
        let ghost xs = x@.skip(i as int);
        let ghost ys = y@.skip(i as int);
        assert(xs[0] == x@[i as int] && ys[0] == y@[i as int]);
        if x[i] != y[i] {
            return x[i] < y[i];
        }
        assert(xs.skip(1) =~= x@.skip(i + 1) && ys.skip(1) =~= y@.skip(i + 1));
        i += 1;
    }
}

impl<'a> SemverRanking<'a> {
    /// Whether this rank is not listed behind `other`.
    pub fn listed_before_or_with(&self, other: &SemverRanking<'a>) -> (r: bool)
        ensures
            r == ranking_le(self@, other@),
    {
        match (self, other) {
            (SemverRanking::Beta, _) => true,
            (SemverRanking::Nightly, SemverRanking::Beta) => false,
            (SemverRanking::Nightly, _) => true,
            (SemverRanking::Compiler(x), SemverRanking::Compiler(y)) => name_le_exec(x, y),
            (SemverRanking::Compiler(_), SemverRanking::Semver(_)) => true,
            (SemverRanking::Compiler(_), _) => false,
            (SemverRanking::Semver(x), SemverRanking::Semver(y)) => {
                if x.0 != y.0 {
                    x.0 > y.0
                } else if x.1 != y.1 {
                    x.1 > y.1
                } else {
                    x.2 >= y.2
                }
            },
            (SemverRanking::Semver(_), _) => false,
        }
    }
}

/// Whether a target with the label `a` is not listed behind one with the label `b`.
pub fn label_le(a: &str, b: &str) -> (r: bool)
    ensures
        r == ranking_le(ranking_of(a@), ranking_of(b@)),
{
    let x = SemverRanking::from(a);
    let y = SemverRanking::from(b);
    x.listed_before_or_with(&y)
}

/// A copy of a target.
fn copy_of(target: &GodboltTarget) -> (r: GodboltTarget)
    ensures
        r@ == target@,
{
    GodboltTarget {
        id: target.id.clone(),
        name: target.name.clone(),
        semver: target.semver.clone(),
        instruction_set: target.instruction_set.clone(),
    }
}

/// The targets in the order of the listing: the same targets, each as often as before, none
/// listed behind one that ranks after it.
pub fn ranked_targets(targets: &Vec<GodboltTarget>) -> (r: Vec<GodboltTarget>)
    ensures
        target_views(r@).to_multiset() == target_views(targets@).to_multiset(),
        is_ranked(target_views(r@)),
        r@.len() == targets@.len(),
{
    let mut ranked: Vec<GodboltTarget> = Vec::new();
    let mut i: usize = 0;
    assert(target_views(ranked@) =~= target_views(targets@.take(0)));
    while i < targets.len()
        invariant
            i <= targets.len(),
            ranked@.len() == i,
            target_views(ranked@).to_multiset() == target_views(targets@.take(i as int)).to_multiset(),
            is_ranked(target_views(ranked@)),
        decreases targets.len() - i,
    {
        let next = copy_of(&targets[i]);
        let ghost rank = ranking_of(next.semver@);
        let mut at: usize = 0;
        while at < ranked.len() && label_le(ranked[at].semver.as_str(), next.semver.as_str())
            invariant
                at <= ranked.len(),
                rank == ranking_of(next.semver@),
                forall|k: int|
                    0 <= k < at ==> ranking_le(ranking_of(#[trigger] ranked@[k].semver@), rank),
            decreases ranked.len() - at,
        {
            at += 1;
        }
        let ghost before = ranked@;
        let ghost x = next@;
        ranked.insert(at, next);
        proof {
            let old_views = target_views(before);
            let new_views = target_views(ranked@);
            assert(new_views =~= old_views.insert(at as int, x));
            vstd::seq_lib::to_multiset_insert(old_views, at as int, x);
            let head = target_views(targets@.take(i as int));
            assert(target_views(targets@.take(i + 1)) =~= head.push(x));
            vstd::seq_lib::to_multiset_build(head, x);
            assert forall|a: int, b: int| 0 <= a <= b < new_views.len() implies ranking_le(
                ranking_of(#[trigger] new_views[a].semver),
                ranking_of(#[trigger] new_views[b].semver),
            ) by {
                let ra = ranking_of(new_views[a].semver);
                let rb = ranking_of(new_views[b].semver);
                if a == b {
                    lemma_ranking_le_total(ra, rb);
                } else if b < at {
                    assert(new_views[a] == old_views[a] && new_views[b] == old_views[b]);
                } else if b == at {
                    assert(new_views[a] == old_views[a]);
                    assert(old_views[a].semver == before[a].semver@);
                } else if a < at {
                    assert(new_views[a] == old_views[a] && new_views[b] == old_views[b - 1]);
                } else if a == at {
                    // the scan stopped at `at`: what stood there ranks strictly behind `next`
                    assert(new_views[b] == old_views[b - 1]);
                    let stop = ranking_of(old_views[at as int].semver);
                    assert(old_views[at as int].semver == before[at as int].semver@);
                    lemma_ranking_le_total(stop, rank);
                    assert(ranking_le(stop, rb));
                    lemma_ranking_le_transitive(rank, stop, rb);
                } else {
                    assert(new_views[a] == old_views[a - 1] && new_views[b] == old_views[b - 1]);
                }
            }
        }
        i += 1;
    }
    assert(targets@.take(i as int) =~= targets@);
    ranked
}

/// The entry that lists a target: its label, and its name with the instruction set it runs
/// on.
pub open spec fn listing_entry(target: TargetView) -> (Seq<char>, Seq<char>) {
    (target.semver, target.name + " (runs on "@ + target.instruction_set + ")"@)
}

/// The entry that lists a target.
pub fn target_entry(target: &GodboltTarget) -> (r: (String, String))
    ensures
        (r.0@, r.1@) == listing_entry(target@),
{
    let mut text = String::new();
    text.append(target.name.as_str());
    text.append(" (runs on ");
    text.append(target.instruction_set.as_str());
    text.append(")");
    (target.semver.clone(), text)
}

} // verus!
