//! The container registry: demuxer and muxer factories keyed by format
//! name, the file-extension table, and the content probes that back
//! input auto-detection.
//!
//! Demuxer and muxer factories are type parameters that the registry
//! stores and hands back for the caller to invoke; probes implement
//! `Fn(&ProbeData) -> ProbeScore` and the registry runs them on the input's first
//! bytes.

use crate::error::Error;
use crate::picture::AttachedPicture;
use crate::stream::StreamInfo;
use crate::registry::table::{
    find_named, lookup, names_of, names_unique, put_named, registered, table_of, Named,
};
use crate::text::{
    chars_of, lower_chars, lowered, string_of_chars, to_unicode_lowercase, unicode_lowercase,
};
use vstd::prelude::*;
use vstd::string::*;

verus! {

// ───────────────────────── probes ─────────────────────────

/// Confidence score returned by a probe. `0` means no match; higher
/// means more certain. Conventional values:
///
/// * `100` – unambiguous magic bytes at a known offset
/// * `75`  – signature match corroborated by file extension
/// * `50`  – signature match without extension corroboration
/// * `25`  – extension match only (no content signature available)
pub type ProbeScore = u8;

/// Maximum probe score.
pub const MAX_PROBE_SCORE: ProbeScore = 100;

/// Default score returned when only the file extension matches.
pub const PROBE_SCORE_EXTENSION: ProbeScore = 25;

/// Resolution priority attached to a registration that names none.
/// Lower numbers are preferred.
pub const DEFAULT_PRIORITY: i32 = 100;

/// What a probe looks at.
///
/// `buf` holds the first few KB of the input — enough to recognise the
/// magic bytes of any container we know about. `ext` carries the file
/// extension as a hint (lowercase, no leading dot); some containers
/// need it to break ties with otherwise weak signatures.
pub struct ProbeData<'a> {
    /// First few KB of the input, for magic-byte matching.
    pub buf: &'a [u8],
    /// File-extension hint (lowercase, no leading dot), when known.
    pub ext: Option<&'a str>,
}

/// Whether every probe of `table` accepts every input.
pub open spec fn probes_callable<P: Fn(&ProbeData) -> ProbeScore>(
    table: Seq<(Seq<char>, (P, i32))>,
) -> bool {
    forall|i: int, d: ProbeData|
        #![trigger call_requires(table[i].1.0, (&d,))]
        0 <= i < table.len() ==> call_requires(table[i].1.0, (&d,))
}

/// Whether `scores` are what the probes of `table` may return for the
/// bytes `buf` with the extension hint `ext`: the `i`-th score is a
/// result of the `i`-th probe called on those bytes and that hint.
pub open spec fn probe_results<P: Fn(&ProbeData) -> ProbeScore>(
    table: Seq<(Seq<char>, (P, i32))>,
    buf: Seq<u8>,
    ext: Option<Seq<char>>,
    scores: Seq<u8>,
) -> bool {
    &&& scores.len() == table.len()
    &&& forall|i: int| 0 <= i < table.len() ==> probe_gives(table[i].1.0, buf, ext, #[trigger] scores[i])
}

/// Whether `score` is a result of `probe` called on the bytes `buf` with
/// the extension hint `ext`.
pub open spec fn probe_gives<P: Fn(&ProbeData) -> ProbeScore>(
    probe: P,
    buf: Seq<u8>,
    ext: Option<Seq<char>>,
    score: u8,
) -> bool {
    exists|d: ProbeData|
        #![trigger call_ensures(probe, (&d,), score)]
        d.buf@ == buf && hint_view(d.ext) == ext && call_ensures(probe, (&d,), score)
}

/// The extension hint the probes are shown: the given hint with ASCII
/// letters lower-cased.
pub open spec fn probe_hint(hint: Option<Seq<char>>) -> Option<Seq<char>> {
    match hint {
        Some(e) => Some(lowered(e)),
        None => None,
    }
}

// ───────────────────────── the registry ─────────────────────────

/// Registry of container formats: demuxer factories (`D`) and muxer
/// factories (`M`) keyed by format name, plus the extension table and
/// the content probes (`P`) that back input auto-detection.
pub struct ContainerRegistry<P, D, M> {
    demuxers: Vec<Named<D>>,
    muxers: Vec<Named<M>>,
    /// Every extension claim, in registration order; a claim's position
    /// is its sequence number.
    extensions: Vec<ExtensionClaim>,
    /// Probes in registration order; names are unique, and
    /// re-registering a name replaces its probe in place.
    probes: Vec<Named<(P, i32)>>,
}

impl<P, D, M> Default for ContainerRegistry<P, D, M> {
    /// An empty registry.
    fn default() -> (r: Self)
        ensures
            r.wf(),
            r.demuxer_table() == Seq::<(Seq<char>, D)>::empty(),
            r.muxer_table() == Seq::<(Seq<char>, M)>::empty(),
            r.probe_table() == Seq::<(Seq<char>, (P, i32))>::empty(),
            r.extension_claims() == Seq::<(Seq<char>, Seq<char>, i32)>::empty(),
    {
        Self::new()
    }
}

/// One claim of an extension by a container.
struct ExtensionClaim {
    /// The extension, lower-cased.
    ext: String,
    container: String,
    priority: i32,
}

impl<P, D, M> ContainerRegistry<P, D, M> {
    /// Demuxer factories by name, in registration order.
    pub closed spec fn demuxer_table(self) -> Seq<(Seq<char>, D)> {
        table_of(self.demuxers@)
    }

    /// Muxer factories by name, in registration order.
    pub closed spec fn muxer_table(self) -> Seq<(Seq<char>, M)> {
        table_of(self.muxers@)
    }

    /// Probes by container name, with their priorities, in registration
    /// order: a probe's position is its registration order.
    pub closed spec fn probe_table(self) -> Seq<(Seq<char>, (P, i32))> {
        table_of(self.probes@)
    }

    /// Every extension claim as (lower-cased extension, container,
    /// priority), in registration order: a claim's position is its
    /// sequence number.
    pub closed spec fn extension_claims(self) -> Seq<(Seq<char>, Seq<char>, i32)> {
        self.extensions@.map_values(|c: ExtensionClaim| (c.ext@, c.container@, c.priority))
    }

    /// Names are unique in each of the three named tables.
    pub open spec fn wf(self) -> bool {
        &&& names_unique(self.demuxer_table())
        &&& names_unique(self.muxer_table())
        &&& names_unique(self.probe_table())
    }

    /// An empty registry.
    pub fn new() -> (r: Self)
        ensures
            r.wf(),
            r.demuxer_table() == Seq::<(Seq<char>, D)>::empty(),
            r.muxer_table() == Seq::<(Seq<char>, M)>::empty(),
            r.probe_table() == Seq::<(Seq<char>, (P, i32))>::empty(),
            r.extension_claims() == Seq::<(Seq<char>, Seq<char>, i32)>::empty(),
    {
        let r = ContainerRegistry {
            demuxers: Vec::new(),
            muxers: Vec::new(),
            extensions: Vec::new(),
            probes: Vec::new(),
        };
        assert(r.demuxer_table() =~= Seq::<(Seq<char>, D)>::empty());
        assert(r.muxer_table() =~= Seq::<(Seq<char>, M)>::empty());
        assert(r.probe_table() =~= Seq::<(Seq<char>, (P, i32))>::empty());
        assert(r.extension_claims() =~= Seq::<(Seq<char>, Seq<char>, i32)>::empty());
        r
    }

    /// Register a demuxer factory under a container format name,
    /// replacing any factory already registered under it.
    pub fn register_demuxer(&mut self, name: &str, open: D)
        requires
            old(self).wf(),
        ensures
            final(self).wf(),
            final(self).demuxer_table() == registered(old(self).demuxer_table(), name@, open),
            final(self).muxer_table() == old(self).muxer_table(),
            final(self).probe_table() == old(self).probe_table(),
            final(self).extension_claims() == old(self).extension_claims(),
    {
        put_named(&mut self.demuxers, name.to_owned(), open);
    }

    /// Register a muxer factory under a container format name, replacing
    /// any factory already registered under it.
    pub fn register_muxer(&mut self, name: &str, open: M)
        requires
            old(self).wf(),
        ensures
            final(self).wf(),
            final(self).muxer_table() == registered(old(self).muxer_table(), name@, open),
            final(self).demuxer_table() == old(self).demuxer_table(),
            final(self).probe_table() == old(self).probe_table(),
            final(self).extension_claims() == old(self).extension_claims(),
    {
        put_named(&mut self.muxers, name.to_owned(), open);
    }

    /// The demuxer factory registered under `name`; the caller opens the
    /// input with it. `Error::FormatNotFound(name)` when there is none.
    pub fn open_demuxer(&self, name: &str) -> (r: Result<&D, Error>)
        requires
            self.wf(),
        ensures
            match r {
                Ok(f) => lookup(self.demuxer_table(), name@) == Some(*f),
                Err(e) => lookup(self.demuxer_table(), name@) is None && (e matches Error::FormatNotFound(m) && m@ == name@),
            },
    {
        let key = name.to_owned();
        match find_named(&self.demuxers, &key) {
            Some(i) => Ok(&self.demuxers[i].item),
            None => Err(Error::FormatNotFound(key)),
        }
    }

    /// The muxer factory registered under `name`; the caller creates the
    /// output with it. `Error::FormatNotFound(name)` when there is none.
    pub fn open_muxer(&self, name: &str) -> (r: Result<&M, Error>)
        requires
            self.wf(),
        ensures
            match r {
                Ok(f) => lookup(self.muxer_table(), name@) == Some(*f),
                Err(e) => lookup(self.muxer_table(), name@) is None && (e matches Error::FormatNotFound(m) && m@ == name@),
            },
    {
        let key = name.to_owned();
        match find_named(&self.muxers, &key) {
            Some(i) => Ok(&self.muxers[i].item),
            None => Err(Error::FormatNotFound(key)),
        }
    }

    /// The registered demuxer format names, in registration order.
    pub fn demuxer_names(&self) -> (r: Vec<&str>)
        ensures
            r@.len() == self.demuxer_table().len(),
            forall|i: int| 0 <= i < r@.len() ==> #[trigger] r@[i]@ == self.demuxer_table()[i].0,
    {
        names_of(&self.demuxers)
    }

    /// The registered muxer format names, in registration order.
    pub fn muxer_names(&self) -> (r: Vec<&str>)
        ensures
            r@.len() == self.muxer_table().len(),
            forall|i: int| 0 <= i < r@.len() ==> #[trigger] r@[i]@ == self.muxer_table()[i].0,
    {
        names_of(&self.muxers)
    }

    /// Attach a content probe to a container name at the default
    /// priority. Re-registering a name replaces its probe and resets
    /// its priority; the name keeps the registration-order slot of its
    /// first registration.
    pub fn register_probe(&mut self, container_name: &str, probe: P)
        requires
            old(self).wf(),
        ensures
            final(self).wf(),
            final(self).probe_table() == registered(
                old(self).probe_table(),
                container_name@,
                (probe, DEFAULT_PRIORITY),
            ),
            final(self).demuxer_table() == old(self).demuxer_table(),
            final(self).muxer_table() == old(self).muxer_table(),
            final(self).extension_claims() == old(self).extension_claims(),
    {
        self.register_probe_with_priority(container_name, probe, DEFAULT_PRIORITY);
    }

    /// [`register_probe`](Self::register_probe) with an explicit
    /// resolution priority. Lower numbers are preferred: when two probes
    /// return the same non-zero score, the smaller priority wins; equal
    /// priorities fall through to registration order. Priority never
    /// out-ranks score.
    pub fn register_probe_with_priority(&mut self, container_name: &str, probe: P, priority: i32)
        requires
            old(self).wf(),
        ensures
            final(self).wf(),
            final(self).probe_table() == registered(
                old(self).probe_table(),
                container_name@,
                (probe, priority),
            ),
            final(self).demuxer_table() == old(self).demuxer_table(),
            final(self).muxer_table() == old(self).muxer_table(),
            final(self).extension_claims() == old(self).extension_claims(),
    {
        put_named(&mut self.probes, container_name.to_owned(), (probe, priority));
    }

    /// The priority attached to `container_name`'s probe, or `None` when
    /// no probe is registered under that name.
    pub fn probe_priority(&self, container_name: &str) -> (r: Option<i32>)
        requires
            self.wf(),
        ensures
            r == match lookup(self.probe_table(), container_name@) {
                Some(entry) => Some(entry.1),
                None => None::<i32>,
            },
    {
        let key = container_name.to_owned();
        match find_named(&self.probes, &key) {
            Some(i) => Some(self.probes[i].item.1),
            None => None,
        }
    }
}

// ───────────────────────── extension claims ─────────────────────────

/// One ranked entry from
/// [`ContainerRegistry::extension_candidates`].
///
/// Every claim of an extension is equally (weakly) justified, so the
/// rule is `priority` ascending (lower is preferred), then the most
/// recent registration first. The first element is what
/// [`ContainerRegistry::container_for_extension`] returns.
#[non_exhaustive]
#[derive(Clone, Copy, Debug, PartialEq, Eq)]
pub struct ExtensionCandidate<'a> {
    /// Container name this claim maps the extension to.
    pub container: &'a str,
    /// Resolution priority attached at registration (lower is
    /// preferred).
    pub priority: i32,
    /// 0-based sequence number of this claim among all extension
    /// registrations in the registry (later claims have larger
    /// numbers).
    pub order: usize,
}

/// Whether claim `a` is preferred to claim `b`: the lower priority
/// number, then the more recent registration.
pub open spec fn claim_preferred(claims: Seq<(Seq<char>, Seq<char>, i32)>, a: int, b: int) -> bool {
    claims[a].2 < claims[b].2 || (claims[a].2 == claims[b].2 && a > b)
}

/// Whether some claim is on the (lower-cased) extension `key`.
pub open spec fn has_claim(claims: Seq<(Seq<char>, Seq<char>, i32)>, key: Seq<char>) -> bool {
    exists|o: int| 0 <= o < claims.len() && #[trigger] claims[o].0 == key
}

/// Whether claim `o` is on `key` and preferred to every other claim on
/// `key`.
pub open spec fn is_winning_claim(
    claims: Seq<(Seq<char>, Seq<char>, i32)>,
    key: Seq<char>,
    o: int,
) -> bool {
    &&& 0 <= o < claims.len()
    &&& claims[o].0 == key
    &&& forall|o2: int|
        0 <= o2 < claims.len() && #[trigger] claims[o2].0 == key && o2 != o ==> claim_preferred(
            claims,
            o,
            o2,
        )
}

/// The order of [`ExtensionCandidate`]s: priority ascending, then
/// sequence number descending.
pub open spec fn extension_before(a: ExtensionCandidate, b: ExtensionCandidate) -> bool {
    a.priority < b.priority || (a.priority == b.priority && a.order > b.order)
}

/// Whether `out` is the ranked list of every claim on `key`: each entry
/// describes a claim on `key`, the entries are in the extension order,
/// and every claim on `key` is there.
pub open spec fn extension_ranking(
    claims: Seq<(Seq<char>, Seq<char>, i32)>,
    key: Seq<char>,
    out: Seq<ExtensionCandidate>,
) -> bool {
    &&& forall|k: int|
        0 <= k < out.len() ==> {
            let o = (#[trigger] out[k]).order as int;
            &&& o < claims.len()
            &&& claims[o].0 == key
            &&& out[k].container@ == claims[o].1
            &&& out[k].priority == claims[o].2
        }
    &&& forall|i: int, j: int|
        0 <= i < j < out.len() ==> extension_before(#[trigger] out[i], #[trigger] out[j])
    &&& forall|o: int|
        0 <= o < claims.len() && #[trigger] claims[o].0 == key ==> exists|k: int|
            0 <= k < out.len() && (#[trigger] out[k]).order == o
}

/// The head of the ranked claims on an extension is the winning claim:
/// the first of [`ContainerRegistry::extension_candidates`] is what
/// [`ContainerRegistry::container_for_extension`] returns.
pub proof fn law_extension_head_wins(
    claims: Seq<(Seq<char>, Seq<char>, i32)>,
    key: Seq<char>,
    out: Seq<ExtensionCandidate>,
)
    requires
        extension_ranking(claims, key, out),
        has_claim(claims, key),
    ensures
        out.len() > 0,
        is_winning_claim(claims, key, out[0].order as int),
{
    let o = choose|o: int| 0 <= o < claims.len() && #[trigger] claims[o].0 == key;
    let k = choose|k: int| 0 <= k < out.len() && (#[trigger] out[k]).order == o;
    assert(out[k].order == o);
    let w = out[0].order as int;
    assert(out[0].order == w);
    assert forall|o2: int|
        0 <= o2 < claims.len() && #[trigger] claims[o2].0 == key && o2 != w implies claim_preferred(
        claims,
        w,
        o2,
    ) by {
        let k2 = choose|k2: int| 0 <= k2 < out.len() && (#[trigger] out[k2]).order == o2;
        assert(out[k2].order == o2);
        assert(k2 != 0);
        assert(extension_before(out[0], out[k2]));
    }
}

/// A later claim never hides an earlier one that it does not beat: when
/// claim `w` wins `key` and a new claim with a larger priority number
/// is registered, on `key` or on any other extension, `w` still wins.
pub proof fn law_weaker_claim_keeps_winner(
    claims: Seq<(Seq<char>, Seq<char>, i32)>,
    key: Seq<char>,
    w: int,
    claim: (Seq<char>, Seq<char>, i32),
)
    requires
        is_winning_claim(claims, key, w),
        claims[w].2 < claim.2,
    ensures
        is_winning_claim(claims.push(claim), key, w),
{
    let c2 = claims.push(claim);
    assert(c2[w] == claims[w]);
    assert forall|o2: int|
        0 <= o2 < c2.len() && #[trigger] c2[o2].0 == key && o2 != w implies claim_preferred(
        c2,
        w,
        o2,
    ) by {
        if o2 < claims.len() {
            assert(c2[o2] == claims[o2]);
            assert(claims[o2].0 == key);
            assert(claim_preferred(claims, w, o2));
        }
    }
}

/// Registering a claim on `key` whose priority number is not above
/// every other claim's on `key` makes it the winner: the most recent
/// registration wins at equal priority, and a lower number wins
/// outright.
pub proof fn law_new_claim_wins(
    claims: Seq<(Seq<char>, Seq<char>, i32)>,
    key: Seq<char>,
    claim: (Seq<char>, Seq<char>, i32),
)
    requires
        claim.0 == key,
        forall|o: int| 0 <= o < claims.len() && #[trigger] claims[o].0 == key ==> claim.2 <= claims[o].2,
    ensures
        is_winning_claim(claims.push(claim), key, claims.len() as int),
{
    let c2 = claims.push(claim);
    let n = claims.len() as int;
    assert(c2[n] == claim);
    assert forall|o2: int|
        0 <= o2 < c2.len() && #[trigger] c2[o2].0 == key && o2 != n implies claim_preferred(
        c2,
        n,
        o2,
    ) by {
        assert(c2[o2] == claims[o2]);
        assert(claims[o2].0 == key);
    }
}

/// Only the winning claim wins.
pub proof fn law_winning_claim_is_unique(
    claims: Seq<(Seq<char>, Seq<char>, i32)>,
    key: Seq<char>,
    a: int,
    b: int,
)
    requires
        is_winning_claim(claims, key, a),
        is_winning_claim(claims, key, b),
    ensures
        a == b,
{
    if a != b {
        assert(claims[b].0 == key);
        assert(claims[a].0 == key);
        assert(claim_preferred(claims, a, b));
        assert(claim_preferred(claims, b, a));
    }
}

/// A ranked extension candidate by value: container name, priority,
/// sequence number.
pub open spec fn candidate_entry(c: ExtensionCandidate) -> (Seq<char>, i32, usize) {
    (c.container@, c.priority, c.order)
}

/// The ranked candidates by value.
pub open spec fn candidate_entries(out: Seq<ExtensionCandidate>) -> Seq<(Seq<char>, i32, usize)> {
    out.map_values(|c: ExtensionCandidate| candidate_entry(c))
}

/// The extension order on candidates by value.
pub open spec fn entry_before(a: (Seq<char>, i32, usize), b: (Seq<char>, i32, usize)) -> bool {
    a.1 < b.1 || (a.1 == b.1 && a.2 > b.2)
}

spec fn strictly_ranked(s: Seq<(Seq<char>, i32, usize)>) -> bool {
    forall|i: int, j: int| 0 <= i < j < s.len() ==> entry_before(#[trigger] s[i], #[trigger] s[j])
}

/// Whether `x` describes a claim on `key`: its sequence number names a
/// claim on `key`, whose container and priority it carries.
pub open spec fn describes_claim(
    claims: Seq<(Seq<char>, Seq<char>, i32)>,
    key: Seq<char>,
    x: (Seq<char>, i32, usize),
) -> bool {
    &&& x.2 < claims.len()
    &&& claims[x.2 as int].0 == key
    &&& x.0 == claims[x.2 as int].1
    &&& x.1 == claims[x.2 as int].2
}

/// Two strictly ranked sequences with the same members are equal.
proof fn lemma_ranked_unique(a: Seq<(Seq<char>, i32, usize)>, b: Seq<(Seq<char>, i32, usize)>)
    requires
        strictly_ranked(a),
        strictly_ranked(b),
        forall|x: (Seq<char>, i32, usize)| a.contains(x) <==> b.contains(x),
    ensures
        a == b,
    decreases a.len(),
{
    if a.len() == 0 {
        if b.len() > 0 {
            assert(b.contains(b[0]));
        }
        assert(a =~= b);
    } else {
        assert(a.contains(a[0]));
        let k = choose|k: int| 0 <= k < b.len() && b[k] == a[0];
        assert(b.contains(b[0]));
        let j = choose|j: int| 0 <= j < a.len() && a[j] == b[0];
        if k != 0 {
            assert(entry_before(b[0], b[k]));
            if j != 0 {
                assert(entry_before(a[0], a[j]));
            }
        }
        assert(a[0] == b[0]);
        let a2 = a.drop_first();
        let b2 = b.drop_first();
        assert forall|x: (Seq<char>, i32, usize)| a2.contains(x) <==> b2.contains(x) by {
            if a2.contains(x) {
                let i = choose|i: int| 0 <= i < a2.len() && a2[i] == x;
                assert(a[i + 1] == x);
                assert(entry_before(a[0], a[i + 1]));
                assert(a.contains(x));
                let m = choose|m: int| 0 <= m < b.len() && b[m] == x;
                assert(m != 0);
                assert(b2[m - 1] == x);
            }
            if b2.contains(x) {
                let i = choose|i: int| 0 <= i < b2.len() && b2[i] == x;
                assert(b[i + 1] == x);
                assert(entry_before(b[0], b[i + 1]));
                assert(b.contains(x));
                let m = choose|m: int| 0 <= m < a.len() && a[m] == x;
                assert(m != 0);
                assert(a2[m - 1] == x);
            }
        }
        assert(strictly_ranked(a2)) by {
            assert forall|i: int, j: int| 0 <= i < j < a2.len() implies entry_before(
                #[trigger] a2[i],
                #[trigger] a2[j],
            ) by {
                assert(a2[i] == a[i + 1] && a2[j] == a[j + 1]);
            }
        }
        assert(strictly_ranked(b2)) by {
            assert forall|i: int, j: int| 0 <= i < j < b2.len() implies entry_before(
                #[trigger] b2[i],
                #[trigger] b2[j],
            ) by {
                assert(b2[i] == b[i + 1] && b2[j] == b[j + 1]);
            }
        }
        lemma_ranked_unique(a2, b2);
        assert(a =~= b) by {
            assert forall|i: int| 0 <= i < a.len() implies a[i] == b[i] by {
                if i > 0 {
                    assert(a[i] == a2[i - 1]);
                    assert(b[i] == b2[i - 1]);
                }
            }
        }
    }
}

/// A ranking lists, by value, exactly the claims on `key`, strictly
/// ordered.
proof fn lemma_ranking_members(
    claims: Seq<(Seq<char>, Seq<char>, i32)>,
    key: Seq<char>,
    out: Seq<ExtensionCandidate>,
)
    requires
        extension_ranking(claims, key, out),
    ensures
        strictly_ranked(candidate_entries(out)),
        forall|x: (Seq<char>, i32, usize)|
            candidate_entries(out).contains(x) <==> describes_claim(claims, key, x),
{
    let e = candidate_entries(out);
    assert forall|i: int, j: int| 0 <= i < j < e.len() implies entry_before(
        #[trigger] e[i],
        #[trigger] e[j],
    ) by {
        assert(extension_before(out[i], out[j]));
    }
    assert forall|x: (Seq<char>, i32, usize)| e.contains(x) <==> describes_claim(claims, key, x) by {
        if e.contains(x) {
            let k = choose|k: int| 0 <= k < e.len() && e[k] == x;
            assert(e[k] == candidate_entry(out[k]));
        }
        if describes_claim(claims, key, x) {
            let o = x.2 as int;
            assert(claims[o].0 == key);
            let k = choose|k: int| 0 <= k < out.len() && (#[trigger] out[k]).order == o;
            assert(e[k] == candidate_entry(out[k]));
            assert(e[k] == x);
        }
    }
}

/// A ranking lists each claim once.
pub proof fn law_extension_ranking_lists_each_once(
    claims: Seq<(Seq<char>, Seq<char>, i32)>,
    key: Seq<char>,
    out: Seq<ExtensionCandidate>,
)
    requires
        extension_ranking(claims, key, out),
    ensures
        forall|i: int, j: int| 0 <= i < j < out.len() ==> (#[trigger] out[i]).order != (#[trigger] out[j]).order,
{
    assert forall|i: int, j: int| 0 <= i < j < out.len() implies (#[trigger] out[i]).order != (
    #[trigger] out[j]).order by {
        assert(extension_before(out[i], out[j]));
    }
}

/// Registering an extension claim changes the ranked candidates of its
/// own extension only, and there by exactly one entry: the new claim,
/// with its container, its priority and the next sequence number.
/// Every other extension's candidates stay as they were.
pub proof fn law_extension_claim_registration(
    claims: Seq<(Seq<char>, Seq<char>, i32)>,
    claim: (Seq<char>, Seq<char>, i32),
    key: Seq<char>,
    out: Seq<ExtensionCandidate>,
    out2: Seq<ExtensionCandidate>,
)
    requires
        extension_ranking(claims, key, out),
        extension_ranking(claims.push(claim), key, out2),
    ensures
        claim.0 != key ==> candidate_entries(out2) == candidate_entries(out),
        claim.0 == key ==> exists|k: int|
            0 <= k < out2.len() && out2[k].order == claims.len() && out2[k].container@ == claim.1
                && out2[k].priority == claim.2 && candidate_entries(out2).remove(k)
                == candidate_entries(out),
{
    let c2 = claims.push(claim);
    let n = claims.len() as int;
    lemma_ranking_members(claims, key, out);
    lemma_ranking_members(c2, key, out2);
    let e = candidate_entries(out);
    let e2 = candidate_entries(out2);
    if claim.0 != key {
        assert forall|x: (Seq<char>, i32, usize)| e2.contains(x) <==> e.contains(x) by {
            if x.2 < c2.len() && x.2 != n {
                assert(c2[x.2 as int] == claims[x.2 as int]);
            }
            assert(describes_claim(c2, key, x) <==> describes_claim(claims, key, x));
        }
        lemma_ranked_unique(e2, e);
    } else {
        assert(c2[n].0 == key);
        let k = choose|k: int| 0 <= k < out2.len() && (#[trigger] out2[k]).order == n;
        assert(out2[k].order == n);
        assert(e2[k] == candidate_entry(out2[k]));
        assert(e2.contains(e2[k]));
        assert(describes_claim(c2, key, e2[k]));
        let r = e2.remove(k);
        assert(strictly_ranked(r)) by {
            assert forall|i: int, j: int| 0 <= i < j < r.len() implies entry_before(
                #[trigger] r[i],
                #[trigger] r[j],
            ) by {
                let i2 = if i < k {
                    i
                } else {
                    i + 1
                };
                let j2 = if j < k {
                    j
                } else {
                    j + 1
                };
                assert(r[i] == e2[i2] && r[j] == e2[j2]);
                assert(entry_before(e2[i2], e2[j2]));
            }
        }
        assert forall|x: (Seq<char>, i32, usize)| r.contains(x) <==> e.contains(x) by {
            if r.contains(x) {
                let m = choose|m: int| 0 <= m < r.len() && r[m] == x;
                let m2 = if m < k {
                    m
                } else {
                    m + 1
                };
                assert(r[m] == e2[m2]);
                assert(e2.contains(x));
                assert(describes_claim(c2, key, x));
                if x.2 == n {
                    assert(x == e2[k]);
                    if m2 < k {
                        assert(entry_before(e2[m2], e2[k]));
                    } else {
                        assert(entry_before(e2[k], e2[m2]));
                    }
                }
                assert(c2[x.2 as int] == claims[x.2 as int]);
                assert(describes_claim(claims, key, x));
            }
            if e.contains(x) {
                assert(describes_claim(claims, key, x));
                assert(c2[x.2 as int] == claims[x.2 as int]);
                assert(describes_claim(c2, key, x));
                assert(e2.contains(x));
                let m = choose|m: int| 0 <= m < e2.len() && e2[m] == x;
                assert(m != k);
                if m < k {
                    assert(r[m] == x);
                } else {
                    assert(r[m - 1] == x);
                }
            }
        }
        lemma_ranked_unique(r, e);
    }
}

impl<P, D, M> ContainerRegistry<P, D, M> {
    /// Map a file extension (case-insensitive) to a container name at
    /// the default priority. When several containers claim the same
    /// extension at equal priority the most recent registration wins.
    pub fn register_extension(&mut self, ext: &str, container_name: &str)
        requires
            old(self).wf(),
        ensures
            final(self).wf(),
            final(self).extension_claims() == old(self).extension_claims().push(
                (unicode_lowercase(ext@), container_name@, DEFAULT_PRIORITY),
            ),
            final(self).demuxer_table() == old(self).demuxer_table(),
            final(self).muxer_table() == old(self).muxer_table(),
            final(self).probe_table() == old(self).probe_table(),
    {
        self.register_extension_with_priority(ext, container_name, DEFAULT_PRIORITY);
    }

    /// [`register_extension`](Self::register_extension) with an explicit
    /// resolution priority. Lower numbers are preferred: a claim with a
    /// smaller priority beats every claim with a larger one regardless
    /// of registration order; equal priorities fall through to
    /// most-recent-wins. Every claim is retained.
    pub fn register_extension_with_priority(
        &mut self,
        ext: &str,
        container_name: &str,
        priority: i32,
    )
        requires
            old(self).wf(),
        ensures
            final(self).wf(),
            final(self).extension_claims() == old(self).extension_claims().push(
                (unicode_lowercase(ext@), container_name@, priority),
            ),
            final(self).demuxer_table() == old(self).demuxer_table(),
            final(self).muxer_table() == old(self).muxer_table(),
            final(self).probe_table() == old(self).probe_table(),
    {
        let claim = ExtensionClaim {
            ext: to_unicode_lowercase(ext),
            container: container_name.to_owned(),
            priority,
        };
        let ghost before = self.extensions@;
        self.extensions.push(claim);
        assert(self.extension_claims() =~= before.map_values(
            |c: ExtensionClaim| (c.ext@, c.container@, c.priority),
        ).push((unicode_lowercase(ext@), container_name@, priority)));
    }

    /// Every claim on the lower-cased extension `key`, ranked.
    fn ranked_claims(&self, key: &String) -> (out: Vec<ExtensionCandidate<'_>>)
        ensures
            extension_ranking(self.extension_claims(), key@, out@),
    {
        let ghost claims = self.extension_claims();
        let mut out: Vec<ExtensionCandidate<'_>> = Vec::new();
        let mut i: usize = 0;
        while i < self.extensions.len()
            invariant
                claims == self.extension_claims(),
                i <= claims.len(),
                forall|k: int|
                    0 <= k < out@.len() ==> {
                        let o = (#[trigger] out@[k]).order as int;
                        &&& o < i
                        &&& claims[o].0 == key@
                        &&& out@[k].container@ == claims[o].1
                        &&& out@[k].priority == claims[o].2
                    },
                forall|a: int, b: int|
                    0 <= a < b < out@.len() ==> extension_before(
                        #[trigger] out@[a],
                        #[trigger] out@[b],
                    ),
                forall|o: int|
                    0 <= o < i && #[trigger] claims[o].0 == key@ ==> exists|k: int|
                        0 <= k < out@.len() && (#[trigger] out@[k]).order == o,
            decreases claims.len() - i,
        {
            let c = &self.extensions[i];
            if c.ext == *key {
                let cand = ExtensionCandidate {
                    container: c.container.as_str(),
                    priority: c.priority,
                    order: i,
                };
                let mut p: usize = 0;
                while p < out.len() && out[p].priority < c.priority
                    invariant
                        p <= out@.len(),
                        forall|q: int| 0 <= q < p ==> (#[trigger] out@[q]).priority < c.priority,
                    decreases out@.len() - p,
                {
                    p += 1;
                }
                let ghost s = out@;
                assert forall|q: int| p <= q < s.len() implies extension_before(
                    cand,
                    #[trigger] s[q],
                ) by {
                    assert(s[q].order < i);
                    if q > p {
                        assert(extension_before(s[p as int], s[q]));
                    }
                }
                out.insert(p, cand);
                assert forall|a: int, b: int|
                    0 <= a < b < out@.len() implies extension_before(
                    #[trigger] out@[a],
                    #[trigger] out@[b],
                ) by {
                    if b < p {
                        assert(out@[a] == s[a]);
                        assert(out@[b] == s[b]);
                    } else if a < p && b == p {
                        assert(out@[a] == s[a]);
                        assert(s[a].order < i);
                    } else if a < p && b > p {
                        assert(out@[a] == s[a]);
                        assert(out@[b] == s[b - 1]);
                    } else if a == p {
                        assert(out@[b] == s[b - 1]);
                    } else {
                        assert(out@[a] == s[a - 1]);
                        assert(out@[b] == s[b - 1]);
                    }
                }
                assert forall|o: int|
                    0 <= o < i + 1 && #[trigger] claims[o].0 == key@ implies exists|k: int|
                    0 <= k < out@.len() && (#[trigger] out@[k]).order == o by {
                    if o == i {
                        assert(out@[p as int].order == o);
                    } else {
                        let k = choose|k: int| 0 <= k < s.len() && (#[trigger] s[k]).order == o;
                        if k < p {
                            assert(out@[k].order == o);
                        } else {
                            assert(out@[k + 1].order == o);
                        }
                    }
                }
            }
            i += 1;
        }
        out
    }

    /// Every container that claimed `ext` (case-insensitive, no leading
    /// dot), ranked by the extension rule: priority ascending, then most
    /// recent registration first. Empty when the extension is
    /// unclaimed.
    pub fn extension_candidates(&self, ext: &str) -> (out: Vec<ExtensionCandidate<'_>>)
        ensures
            extension_ranking(self.extension_claims(), unicode_lowercase(ext@), out@),
    {
        let key = to_unicode_lowercase(ext);
        self.ranked_claims(&key)
    }

    /// The container name for a file extension (no leading dot): among
    /// several claims the lowest priority number wins, then the most
    /// recent registration.
    pub fn container_for_extension(&self, ext: &str) -> (r: Option<&str>)
        ensures
            match r {
                None => !has_claim(self.extension_claims(), unicode_lowercase(ext@)),
                Some(name) => exists|o: int|
                    is_winning_claim(self.extension_claims(), unicode_lowercase(ext@), o)
                        && name@ == self.extension_claims()[o].1,
            },
    {
        let key = to_unicode_lowercase(ext);
        let ghost claims = self.extension_claims();
        let mut best: Option<usize> = None;
        let mut i: usize = 0;
        while i < self.extensions.len()
            invariant
                claims == self.extension_claims(),
                i <= claims.len(),
                match best {
                    None => forall|o: int| 0 <= o < i ==> #[trigger] claims[o].0 != key@,
                    Some(b) => {
                        &&& b < i
                        &&& claims[b as int].0 == key@
                        &&& forall|o2: int|
                            0 <= o2 < i && #[trigger] claims[o2].0 == key@ && o2 != b
                                ==> claim_preferred(claims, b as int, o2)
                    },
                },
            decreases claims.len() - i,
        {
            let c = &self.extensions[i];
            if c.ext == key {
                match best {
                    Some(b) => {
                        if c.priority <= self.extensions[b].priority {
                            best = Some(i);
                        }
                    },
                    None => {
                        best = Some(i);
                    },
                }
            }
            i += 1;
        }
        match best {
            Some(b) => {
                assert(is_winning_claim(claims, key@, b as int));
                Some(self.extensions[b].container.as_str())
            },
            None => None,
        }
    }
}

// ───────────────────────── probe ranking ─────────────────────────

/// One ranked entry from [`ContainerRegistry::probe_candidates`].
///
/// Candidates are ordered by the resolution rule — `score` descending,
/// then `priority` ascending (lower is preferred), then `order`
/// ascending (earlier registration wins) — so the first element is the
/// container that input detection picks.
#[non_exhaustive]
#[derive(Clone, Copy, Debug, PartialEq, Eq)]
pub struct ProbeCandidate<'a> {
    /// Container name the probe was registered under.
    pub name: &'a str,
    /// Score the probe returned for this input (never `0`).
    pub score: ProbeScore,
    /// Resolution priority attached at registration (lower is
    /// preferred).
    pub priority: i32,
    /// 0-based position of this container's first probe registration.
    pub order: usize,
}

/// Whether probe `a` out-ranks probe `b` given their `scores`: the
/// higher score, then the lower priority number, then the earlier
/// registration.
pub open spec fn probe_outranks<P>(
    table: Seq<(Seq<char>, (P, i32))>,
    scores: Seq<u8>,
    a: int,
    b: int,
) -> bool {
    ||| scores[a] > scores[b]
    ||| scores[a] == scores[b] && table[a].1.1 < table[b].1.1
    ||| scores[a] == scores[b] && table[a].1.1 == table[b].1.1 && a < b
}

/// Whether some probe scored above zero.
pub open spec fn some_probe_matched(scores: Seq<u8>) -> bool {
    exists|o: int| 0 <= o < scores.len() && #[trigger] scores[o] != 0
}

/// Whether probe `o` scored above zero and out-ranks every other probe
/// that did.
pub open spec fn probe_wins<P>(table: Seq<(Seq<char>, (P, i32))>, scores: Seq<u8>, o: int) -> bool {
    &&& 0 <= o < table.len()
    &&& o < scores.len()
    &&& scores[o] != 0
    &&& forall|o2: int|
        0 <= o2 < table.len() && o2 < scores.len() && #[trigger] scores[o2] != 0 && o2 != o
            ==> probe_outranks(table, scores, o, o2)
}

/// The order of [`ProbeCandidate`]s: score descending, then priority
/// ascending, then order ascending.
pub open spec fn probe_before(a: ProbeCandidate, b: ProbeCandidate) -> bool {
    ||| a.score > b.score
    ||| a.score == b.score && a.priority < b.priority
    ||| a.score == b.score && a.priority == b.priority && a.order < b.order
}

/// Whether `out` is the ranked list of every probe that scored above
/// zero: each entry describes such a probe, the entries are in the
/// probe order, and every such probe is there.
pub open spec fn probe_ranking<P>(
    table: Seq<(Seq<char>, (P, i32))>,
    scores: Seq<u8>,
    out: Seq<ProbeCandidate>,
) -> bool {
    &&& forall|k: int|
        0 <= k < out.len() ==> {
            let o = (#[trigger] out[k]).order as int;
            &&& o < table.len()
            &&& o < scores.len()
            &&& scores[o] != 0
            &&& out[k].score == scores[o]
            &&& out[k].name@ == table[o].0
            &&& out[k].priority == table[o].1.1
        }
    &&& forall|i: int, j: int| 0 <= i < j < out.len() ==> probe_before(#[trigger] out[i], #[trigger] out[j])
    &&& forall|o: int|
        0 <= o < table.len() && o < scores.len() && #[trigger] scores[o] != 0 ==> exists|k: int|
            0 <= k < out.len() && (#[trigger] out[k]).order == o
}

/// The head of the ranked probe list is the winning probe, and when no
/// probe scored the list is empty: the first of
/// [`ContainerRegistry::probe_candidates`] is what detection picks.
pub proof fn law_probe_head_wins<P>(
    table: Seq<(Seq<char>, (P, i32))>,
    scores: Seq<u8>,
    out: Seq<ProbeCandidate>,
)
    requires
        probe_ranking(table, scores, out),
        scores.len() == table.len(),
    ensures
        some_probe_matched(scores) <==> out.len() > 0,
        out.len() > 0 ==> probe_wins(table, scores, out[0].order as int),
{
    if some_probe_matched(scores) {
        let o = choose|o: int| 0 <= o < scores.len() && #[trigger] scores[o] != 0;
        let k = choose|k: int| 0 <= k < out.len() && (#[trigger] out[k]).order == o;
        assert(out[k].order == o);
    }
    if out.len() > 0 {
        let w = out[0].order as int;
        assert(out[0].order == w);
        assert(scores[w] != 0);
        assert forall|o2: int|
            0 <= o2 < table.len() && o2 < scores.len() && #[trigger] scores[o2] != 0 && o2
                != w implies probe_outranks(table, scores, w, o2) by {
            let k2 = choose|k2: int| 0 <= k2 < out.len() && (#[trigger] out[k2]).order == o2;
            assert(out[k2].order == o2);
            assert(k2 != 0);
            assert(probe_before(out[0], out[k2]));
        }
    }
}

/// Priority never out-ranks score: the winning probe has the top score.
pub proof fn law_probe_winner_has_top_score<P>(
    table: Seq<(Seq<char>, (P, i32))>,
    scores: Seq<u8>,
    o: int,
)
    requires
        probe_wins(table, scores, o),
        scores.len() == table.len(),
    ensures
        forall|o2: int| 0 <= o2 < scores.len() ==> #[trigger] scores[o2] <= scores[o],
{
    assert forall|o2: int| 0 <= o2 < scores.len() implies #[trigger] scores[o2] <= scores[o] by {
        if scores[o2] != 0 && o2 != o {
            assert(probe_outranks(table, scores, o, o2));
        }
    }
}

/// Only the winning probe wins.
pub proof fn law_probe_winner_is_unique<P>(
    table: Seq<(Seq<char>, (P, i32))>,
    scores: Seq<u8>,
    a: int,
    b: int,
)
    requires
        probe_wins(table, scores, a),
        probe_wins(table, scores, b),
    ensures
        a == b,
{
    if a != b {
        assert(scores[b] != 0);
        assert(scores[a] != 0);
        assert(probe_outranks(table, scores, a, b));
        assert(probe_outranks(table, scores, b, a));
    }
}

/// A probe ranking lists each probe once.
pub proof fn law_probe_ranking_lists_each_once<P>(
    table: Seq<(Seq<char>, (P, i32))>,
    scores: Seq<u8>,
    out: Seq<ProbeCandidate>,
)
    requires
        probe_ranking(table, scores, out),
    ensures
        forall|i: int, j: int| 0 <= i < j < out.len() ==> (#[trigger] out[i]).order != (#[trigger] out[j]).order,
{
    assert forall|i: int, j: int| 0 <= i < j < out.len() implies (#[trigger] out[i]).order != (
    #[trigger] out[j]).order by {
        assert(probe_before(out[i], out[j]));
        if out[i].order == out[j].order {
            let o = out[i].order as int;
            assert(out[i].score == scores[o] && out[j].score == scores[o]);
            assert(out[i].priority == table[o].1.1 && out[j].priority == table[o].1.1);
        }
    }
}

/// What input detection answers for given probe `scores` and extension
/// hint: the winning probe's container when some probe matched, else
/// the winning claim on the hint, else `FormatNotFound`.
pub open spec fn detection_result<P>(
    table: Seq<(Seq<char>, (P, i32))>,
    claims: Seq<(Seq<char>, Seq<char>, i32)>,
    scores: Seq<u8>,
    hint: Option<Seq<char>>,
    r: Result<String, Error>,
) -> bool {
    if some_probe_matched(scores) {
        r matches Ok(name) && exists|o: int| probe_wins(table, scores, o) && name@ == table[o].0
    } else if hint matches Some(ext) && has_claim(claims, unicode_lowercase(ext)) {
        r matches Ok(name) && exists|o: int|
            is_winning_claim(claims, unicode_lowercase(hint->0), o) && name@ == claims[o].1
    } else {
        r matches Err(Error::FormatNotFound(m)) && m@ == NO_FORMAT_MATCH@
    }
}

/// The message of the error that detection returns when nothing
/// recognises the input.
pub const NO_FORMAT_MATCH: &'static str = "no registered demuxer recognises this input";

/// `hint` by its characters.
pub open spec fn hint_view(hint: Option<&str>) -> Option<Seq<char>> {
    match hint {
        Some(e) => Some(e@),
        None => None,
    }
}

impl<P, D, M> ContainerRegistry<P, D, M> {
    /// Rank the probes by the `scores` they gave an input (`scores[i]`
    /// is what the `i`-th registered probe returned): the non-zero
    /// results by score descending, then priority ascending, then
    /// registration order ascending.
    pub fn rank_probe_scores(&self, scores: &[u8]) -> (out: Vec<ProbeCandidate<'_>>)
        requires
            scores@.len() == self.probe_table().len(),
        ensures
            probe_ranking(self.probe_table(), scores@, out@),
    {
        let ghost table = self.probe_table();
        let mut out: Vec<ProbeCandidate<'_>> = Vec::new();
        let mut i: usize = 0;
        while i < self.probes.len()
            invariant
                table == self.probe_table(),
                scores@.len() == table.len(),
                i <= table.len(),
                forall|k: int|
                    0 <= k < out@.len() ==> {
                        let o = (#[trigger] out@[k]).order as int;
                        &&& o < i
                        &&& scores@[o] != 0
                        &&& out@[k].score == scores@[o]
                        &&& out@[k].name@ == table[o].0
                        &&& out@[k].priority == table[o].1.1
                    },
                forall|a: int, b: int|
                    0 <= a < b < out@.len() ==> probe_before(#[trigger] out@[a], #[trigger] out@[b]),
                forall|o: int|
                    0 <= o < i && #[trigger] scores@[o] != 0 ==> exists|k: int|
                        0 <= k < out@.len() && (#[trigger] out@[k]).order == o,
            decreases table.len() - i,
        {
            let score = scores[i];
            if score != 0 {
                let e = &self.probes[i];
                let priority = e.item.1;
                let cand = ProbeCandidate { name: e.name.as_str(), score, priority, order: i };
                let mut p: usize = 0;
                while p < out.len() && !(score > out[p].score || (score == out[p].score && priority
                    < out[p].priority))
                    invariant
                        p <= out@.len(),
                        forall|q: int|
                            0 <= q < p ==> !(score > (#[trigger] out@[q]).score || (score
                                == out@[q].score && priority < out@[q].priority)),
                    decreases out@.len() - p,
                {
                    p += 1;
                }
                let ghost s = out@;
                assert forall|q: int| p <= q < s.len() implies probe_before(cand, #[trigger] s[q]) by {
                    assert(s[q].order < i);
                    if q > p {
                        assert(probe_before(s[p as int], s[q]));
                    }
                }
                out.insert(p, cand);
                assert forall|a: int, b: int| 0 <= a < b < out@.len() implies probe_before(
                    #[trigger] out@[a],
                    #[trigger] out@[b],
                ) by {
                    if b < p {
                        assert(out@[a] == s[a]);
                        assert(out@[b] == s[b]);
                    } else if a < p && b == p {
                        assert(out@[a] == s[a]);
                        assert(s[a].order < i);
                    } else if a < p && b > p {
                        assert(out@[a] == s[a]);
                        assert(out@[b] == s[b - 1]);
                    } else if a == p {
                        assert(out@[b] == s[b - 1]);
                    } else {
                        assert(out@[a] == s[a - 1]);
                        assert(out@[b] == s[b - 1]);
                    }
                }
                assert forall|o: int|
                    0 <= o < i + 1 && #[trigger] scores@[o] != 0 implies exists|k: int|
                    0 <= k < out@.len() && (#[trigger] out@[k]).order == o by {
                    if o == i {
                        assert(out@[p as int].order == o);
                    } else {
                        let k = choose|k: int| 0 <= k < s.len() && (#[trigger] s[k]).order == o;
                        if k < p {
                            assert(out@[k].order == o);
                        } else {
                            assert(out@[k + 1].order == o);
                        }
                    }
                }
            }
            i += 1;
        }
        out
    }

    /// What input detection answers for the probe `scores` an input got
    /// (`scores[i]` from the `i`-th registered probe) and the extension
    /// hint: the top-ranked probe's container; failing that the
    /// extension table's answer for the hint; failing that
    /// `Error::FormatNotFound`.
    pub fn resolve_probe_scores(&self, scores: &[u8], ext_hint: Option<&str>) -> (r: Result<
        String,
        Error,
    >)
        requires
            scores@.len() == self.probe_table().len(),
        ensures
            detection_result(
                self.probe_table(),
                self.extension_claims(),
                scores@,
                hint_view(ext_hint),
                r,
            ),
    {
        let ranked = self.rank_probe_scores(scores);
        proof {
            law_probe_head_wins(self.probe_table(), scores@, ranked@);
        }
        if ranked.len() > 0 {
            return Ok(ranked[0].name.to_owned());
        }
        if let Some(ext) = ext_hint {
            if let Some(name) = self.container_for_extension(ext) {
                return Ok(name.to_owned());
            }
        }
        Err(Error::FormatNotFound(NO_FORMAT_MATCH.to_owned()))
    }
}

impl<P: Fn(&ProbeData) -> ProbeScore, D, M> ContainerRegistry<P, D, M> {
    /// What every registered probe scores `data`, in registration order.
    pub fn probe_scores(&self, data: &ProbeData) -> (scores: Vec<u8>)
        requires
            probes_callable(self.probe_table()),
        ensures
            probe_results(self.probe_table(), data.buf@, hint_view(data.ext), scores@),
    {
        let ghost table = self.probe_table();
        let mut scores: Vec<u8> = Vec::new();
        let mut i: usize = 0;
        while i < self.probes.len()
            invariant
                table == self.probe_table(),
                table == table_of(self.probes@),
                probes_callable(table),
                i <= self.probes@.len(),
                scores@.len() == i,
                forall|k: int|
                    0 <= k < i ==> probe_gives(
                        table[k].1.0,
                        data.buf@,
                        hint_view(data.ext),
                        #[trigger] scores@[k],
                    ),
            decreases self.probes@.len() - i,
        {
            let ghost before = scores@;
            let ghost j = i as int;
            assert(table[j].1.0 == self.probes@[j].item.0);
            assert(call_requires(table[j].1.0, (data,)));
            let s = (self.probes[i].item.0)(data);
            scores.push(s);
            i += 1;
            proof {
                assert(call_ensures(table[j].1.0, (data,), scores@[j]));
                assert forall|k: int| 0 <= k < i implies probe_gives(
                    table[k].1.0,
                    data.buf@,
                    hint_view(data.ext),
                    #[trigger] scores@[k],
                ) by {
                    if k < j {
                        assert(scores@[k] == before[k]);
                    } else {
                        let d = *data;
                        assert(call_ensures(table[k].1.0, (&d,), scores@[k]));
                    }
                }
            }
        }
        scores
    }

    /// Score every registered probe against `data` and return the
    /// non-zero results ranked by the resolution rule (see
    /// [`rank_probe_scores`](Self::rank_probe_scores)).
    pub fn probe_candidates(&self, data: &ProbeData) -> (out: Vec<ProbeCandidate<'_>>)
        requires
            probes_callable(self.probe_table()),
        ensures
            exists|scores: Seq<u8>|
                probe_results(self.probe_table(), data.buf@, hint_view(data.ext), scores)
                    && probe_ranking(self.probe_table(), scores, out@),
    {
        let scores = self.probe_scores(data);
        self.rank_probe_scores(&scores)
    }

    /// Detect the container format of an input from its first bytes
    /// `buf`: every probe scores `buf` with the ASCII-lower-cased
    /// extension hint, and the result is resolved as
    /// [`resolve_probe_scores`](Self::resolve_probe_scores) says.
    pub fn probe_buffer(&self, buf: &[u8], ext_hint: Option<&str>) -> (r: Result<String, Error>)
        requires
            probes_callable(self.probe_table()),
        ensures
            exists|scores: Seq<u8>|
                probe_results(self.probe_table(), buf@, probe_hint(hint_view(ext_hint)), scores)
                    && detection_result(
                    self.probe_table(),
                    self.extension_claims(),
                    scores,
                    hint_view(ext_hint),
                    r,
                ),
    {
        let ext_lower: Option<String> = match ext_hint {
            Some(e) => Some(string_of_chars(&lower_chars(&chars_of(e)))),
            None => None,
        };
        let data = ProbeData {
            buf,
            ext: match &ext_lower {
                Some(e) => Some(e.as_str()),
                None => None,
            },
        };
        assert(hint_view(data.ext) == probe_hint(hint_view(ext_hint)));
        let scores = self.probe_scores(&data);
        self.resolve_probe_scores(&scores, ext_hint)
    }
}

// ───────────────────────── container traits ─────────────────────────

/// Reads a container and emits packets per stream.
pub trait Demuxer: Send {
    /// Name of the container format (e.g., `"wav"`).
    fn format_name(&self) -> &str;

    /// Streams in this container. Stable across the lifetime of the
    /// demuxer.
    fn streams(&self) -> &[StreamInfo];

    /// Hint that only the listed stream indices will be consumed. The
    /// default is a no-op.
    fn set_active_streams(&mut self, _indices: &[u32]) {
    }

    /// Seek to the nearest keyframe at or before `pts` (in the given
    /// stream's time base). Returns the timestamp seeked to, or
    /// `Error::Unsupported` if this demuxer can't seek (the default).
    fn seek_to(&mut self, _stream_index: u32, _pts: i64) -> (r: Result<i64, Error>)
        default_ensures
            r matches Err(Error::Unsupported(m)) && m@ == "this demuxer does not support seeking"@,
    {
        Err(Error::unsupported("this demuxer does not support seeking"))
    }

    /// Container-level metadata as ordered (key, value) pairs; empty by
    /// default.
    fn metadata(&self) -> (r: &[(String, String)])
        default_ensures
            r@.len() == 0,
    {
        &[]
    }

    /// Container-level duration in microseconds, if known; `None` by
    /// default.
    fn duration_micros(&self) -> (r: Option<i64>)
        default_ensures
            r is None,
    {
        None
    }

    /// Attached pictures (cover art, artist photos, ...) embedded in
    /// the container; empty by default.
    fn attached_pictures(&self) -> (r: &[AttachedPicture])
        default_ensures
            r@.len() == 0,
    {
        &[]
    }
}

/// Writes packets into a container.
pub trait Muxer: Send {
    /// Registered name of the container format being written.
    fn format_name(&self) -> &str;

    /// Write the container header. Must be called after stream
    /// configuration and before the first packet.
    fn write_header(&mut self) -> Result<(), Error>;

    /// Finalize the file (write index, patch in total sizes, etc.).
    fn write_trailer(&mut self) -> Result<(), Error>;
}

} // verus!
