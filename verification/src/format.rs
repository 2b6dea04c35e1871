//! Media-type and sample/pixel format enumerations.
//!
//! Audio channel ordering follows SMPTE 2036-2 / ITU-R BS.775
//! conventions for surround layouts; per-channel positions are named
//! with the WAVEFORMATEXTENSIBLE / FFmpeg "front-left, front-right, …"
//! vocabulary.

use crate::text::{
    append_decimal, ascii_lower, chars_of, decimal_chars, digit_value, lemma_decimal_chars,
    lemma_decimal_parses_back, lemma_plain_word_is_its_own_key, lower_chars, lowered,
    parse_u16_chars, parse_u16_from, seq_equals_str, starts_with_str, trim_chars, trimmed,
};
use vstd::prelude::*;
use vstd::string::*;

verus! {

#[derive(Clone, Copy, Debug, PartialEq, Eq, Hash, Structural)]
pub enum MediaType {
    Audio,
    Video,
    Subtitle,
    Data,
    Unknown,
}

/// A single speaker position within a multi-channel audio layout.
///
/// `Side*` and `Back*` are kept distinct (mirroring 7.1's L/R + Ls/Rs +
/// Lb/Rb separation).
#[derive(Clone, Copy, Debug, PartialEq, Eq, Hash, Structural)]
#[non_exhaustive]
pub enum ChannelPosition {
    /// Front-left (L).
    FrontLeft,
    /// Front-right (R).
    FrontRight,
    /// Front-centre (C).
    FrontCenter,
    /// Low-frequency effects (LFE).
    LowFrequency,
    /// Back-left (Lb / Lr).
    BackLeft,
    /// Back-right (Rb / Rr).
    BackRight,
    /// Front left-of-centre (Lc).
    FrontLeftOfCenter,
    /// Front right-of-centre (Rc).
    FrontRightOfCenter,
    /// Back-centre (Cs).
    BackCenter,
    /// Side-left (Ls).
    SideLeft,
    /// Side-right (Rs).
    SideRight,
    /// Top front-left.
    TopFrontLeft,
    /// Top front-right.
    TopFrontRight,
    /// Top back-left.
    TopBackLeft,
    /// Top back-right.
    TopBackRight,
}

/// Audio channel layout — names a fixed ordered tuple of speaker
/// positions, OR carries a discrete fallback count when the layout is
/// unknown / non-standard.
///
/// For 5.1 the canonical order is `L, R, C, LFE, Ls, Rs`; 7.1 extends
/// that with `Lb, Rb`. `DiscreteN(n)` is the catch-all for "we know
/// there are `n` channels but no recognised layout"; it is the only
/// variant whose `position()` returns `None`.
#[derive(Clone, Copy, Debug, PartialEq, Eq, Hash, Structural)]
#[non_exhaustive]
pub enum ChannelLayout {
    /// Mono (1ch): C.
    Mono,
    /// Stereo (2ch): L, R.
    Stereo,
    /// 2.1 (3ch): L, R, LFE.
    Stereo21,
    /// 3.0 surround (3ch): L, R, C.
    Surround30,
    /// Quadraphonic (4ch): L, R, Ls, Rs.
    Quad,
    /// 4.0 surround per BS.775 (4ch): L, R, C, Cs.
    Surround40,
    /// 4.1 surround (5ch): L, R, C, Cs, LFE.
    Surround41,
    /// 5.0 surround (5ch): L, R, C, Ls, Rs.
    Surround50,
    /// 5.1 surround (6ch): L, R, C, LFE, Ls, Rs.
    Surround51,
    /// 6.0 surround (6ch): L, R, C, Cs, Ls, Rs.
    Surround60,
    /// 6.1 surround (7ch): L, R, C, LFE, Cs, Ls, Rs.
    Surround61,
    /// 7.0 surround (7ch): L, R, C, Ls, Rs, Lb, Rb.
    Surround70,
    /// 7.1 surround (8ch): L, R, C, LFE, Ls, Rs, Lb, Rb.
    Surround71,
    /// AC-3 / AC-4 Lo/Ro stereo downmix (2ch).
    LoRo,
    /// AC-3 / AC-4 Lt/Rt matrix-encoded stereo downmix (2ch).
    LtRt,
    /// Discrete fallback: `n` channels with no recognised layout.
    DiscreteN(u16),
}

/// Number of channels a layout carries.
pub open spec fn layout_count(l: ChannelLayout) -> u16 {
    match l {
        ChannelLayout::Mono => 1,
        ChannelLayout::Stereo | ChannelLayout::LoRo | ChannelLayout::LtRt => 2,
        ChannelLayout::Stereo21 | ChannelLayout::Surround30 => 3,
        ChannelLayout::Quad | ChannelLayout::Surround40 => 4,
        ChannelLayout::Surround41 | ChannelLayout::Surround50 => 5,
        ChannelLayout::Surround51 | ChannelLayout::Surround60 => 6,
        ChannelLayout::Surround61 | ChannelLayout::Surround70 => 7,
        ChannelLayout::Surround71 => 8,
        ChannelLayout::DiscreteN(n) => n,
    }
}

/// Speaker positions of a layout in canonical order (empty for
/// `DiscreteN`).
pub open spec fn layout_positions(l: ChannelLayout) -> Seq<ChannelPosition> {
    match l {
        ChannelLayout::Mono => seq![ChannelPosition::FrontCenter],
        ChannelLayout::Stereo | ChannelLayout::LoRo | ChannelLayout::LtRt => seq![
            ChannelPosition::FrontLeft,
            ChannelPosition::FrontRight,
        ],
        ChannelLayout::Stereo21 => seq![
            ChannelPosition::FrontLeft,
            ChannelPosition::FrontRight,
            ChannelPosition::LowFrequency,
        ],
        ChannelLayout::Surround30 => seq![
            ChannelPosition::FrontLeft,
            ChannelPosition::FrontRight,
            ChannelPosition::FrontCenter,
        ],
        ChannelLayout::Quad => seq![
            ChannelPosition::FrontLeft,
            ChannelPosition::FrontRight,
            ChannelPosition::SideLeft,
            ChannelPosition::SideRight,
        ],
        ChannelLayout::Surround40 => seq![
            ChannelPosition::FrontLeft,
            ChannelPosition::FrontRight,
            ChannelPosition::FrontCenter,
            ChannelPosition::BackCenter,
        ],
        ChannelLayout::Surround41 => seq![
            ChannelPosition::FrontLeft,
            ChannelPosition::FrontRight,
            ChannelPosition::FrontCenter,
            ChannelPosition::BackCenter,
            ChannelPosition::LowFrequency,
        ],
        ChannelLayout::Surround50 => seq![
            ChannelPosition::FrontLeft,
            ChannelPosition::FrontRight,
            ChannelPosition::FrontCenter,
            ChannelPosition::SideLeft,
            ChannelPosition::SideRight,
        ],
        ChannelLayout::Surround51 => seq![
            ChannelPosition::FrontLeft,
            ChannelPosition::FrontRight,
            ChannelPosition::FrontCenter,
            ChannelPosition::LowFrequency,
            ChannelPosition::SideLeft,
            ChannelPosition::SideRight,
        ],
        ChannelLayout::Surround60 => seq![
            ChannelPosition::FrontLeft,
            ChannelPosition::FrontRight,
            ChannelPosition::FrontCenter,
            ChannelPosition::BackCenter,
            ChannelPosition::SideLeft,
            ChannelPosition::SideRight,
        ],
        ChannelLayout::Surround61 => seq![
            ChannelPosition::FrontLeft,
            ChannelPosition::FrontRight,
            ChannelPosition::FrontCenter,
            ChannelPosition::LowFrequency,
            ChannelPosition::BackCenter,
            ChannelPosition::SideLeft,
            ChannelPosition::SideRight,
        ],
        ChannelLayout::Surround70 => seq![
            ChannelPosition::FrontLeft,
            ChannelPosition::FrontRight,
            ChannelPosition::FrontCenter,
            ChannelPosition::SideLeft,
            ChannelPosition::SideRight,
            ChannelPosition::BackLeft,
            ChannelPosition::BackRight,
        ],
        ChannelLayout::Surround71 => seq![
            ChannelPosition::FrontLeft,
            ChannelPosition::FrontRight,
            ChannelPosition::FrontCenter,
            ChannelPosition::LowFrequency,
            ChannelPosition::SideLeft,
            ChannelPosition::SideRight,
            ChannelPosition::BackLeft,
            ChannelPosition::BackRight,
        ],
        ChannelLayout::DiscreteN(_) => seq![],
    }
}

/// The layout carries an LFE channel.
pub open spec fn layout_has_lfe(l: ChannelLayout) -> bool {
    layout_positions(l).contains(ChannelPosition::LowFrequency)
}

/// The layout `from_count(n)` infers for a bare channel count.
pub open spec fn layout_for_count(n: u16) -> ChannelLayout {
    if n == 1 {
        ChannelLayout::Mono
    } else if n == 2 {
        ChannelLayout::Stereo
    } else if n == 3 {
        ChannelLayout::Surround30
    } else if n == 4 {
        ChannelLayout::Quad
    } else if n == 5 {
        ChannelLayout::Surround50
    } else if n == 6 {
        ChannelLayout::Surround51
    } else if n == 7 {
        ChannelLayout::Surround61
    } else if n == 8 {
        ChannelLayout::Surround71
    } else {
        ChannelLayout::DiscreteN(n)
    }
}

impl ChannelLayout {
    /// Number of channels in this layout.
    pub fn channel_count(&self) -> (n: u16)
        ensures
            n == layout_count(*self),
    {
        match self {
            ChannelLayout::Mono => 1,
            ChannelLayout::Stereo | ChannelLayout::LoRo | ChannelLayout::LtRt => 2,
            ChannelLayout::Stereo21 | ChannelLayout::Surround30 => 3,
            ChannelLayout::Quad | ChannelLayout::Surround40 => 4,
            ChannelLayout::Surround41 | ChannelLayout::Surround50 => 5,
            ChannelLayout::Surround51 | ChannelLayout::Surround60 => 6,
            ChannelLayout::Surround61 | ChannelLayout::Surround70 => 7,
            ChannelLayout::Surround71 => 8,
            ChannelLayout::DiscreteN(n) => *n,
        }
    }

    /// Speaker positions in canonical order. Returns an empty slice for
    /// `DiscreteN` since the layout is unknown.
    pub fn positions(&self) -> (p: &'static [ChannelPosition])
        ensures
            p@ == layout_positions(*self),
    {
        match self {
            ChannelLayout::Mono => {
                let s: &'static [ChannelPosition] = &[ChannelPosition::FrontCenter];
                s
            },
            ChannelLayout::Stereo | ChannelLayout::LoRo | ChannelLayout::LtRt => {
                let s: &'static [ChannelPosition] = &[
                    ChannelPosition::FrontLeft,
                    ChannelPosition::FrontRight,
                ];
                s
            },
            ChannelLayout::Stereo21 => {
                let s: &'static [ChannelPosition] = &[
                    ChannelPosition::FrontLeft,
                    ChannelPosition::FrontRight,
                    ChannelPosition::LowFrequency,
                ];
                s
            },
            ChannelLayout::Surround30 => {
                let s: &'static [ChannelPosition] = &[
                    ChannelPosition::FrontLeft,
                    ChannelPosition::FrontRight,
                    ChannelPosition::FrontCenter,
                ];
                s
            },
            ChannelLayout::Quad => {
                let s: &'static [ChannelPosition] = &[
                    ChannelPosition::FrontLeft,
                    ChannelPosition::FrontRight,
                    ChannelPosition::SideLeft,
                    ChannelPosition::SideRight,
                ];
                s
            },
            ChannelLayout::Surround40 => {
                let s: &'static [ChannelPosition] = &[
                    ChannelPosition::FrontLeft,
                    ChannelPosition::FrontRight,
                    ChannelPosition::FrontCenter,
                    ChannelPosition::BackCenter,
                ];
                s
            },
            ChannelLayout::Surround41 => {
                let s: &'static [ChannelPosition] = &[
                    ChannelPosition::FrontLeft,
                    ChannelPosition::FrontRight,
                    ChannelPosition::FrontCenter,
                    ChannelPosition::BackCenter,
                    ChannelPosition::LowFrequency,
                ];
                s
            },
            ChannelLayout::Surround50 => {
                let s: &'static [ChannelPosition] = &[
                    ChannelPosition::FrontLeft,
                    ChannelPosition::FrontRight,
                    ChannelPosition::FrontCenter,
                    ChannelPosition::SideLeft,
                    ChannelPosition::SideRight,
                ];
                s
            },
            ChannelLayout::Surround51 => {
                let s: &'static [ChannelPosition] = &[
                    ChannelPosition::FrontLeft,
                    ChannelPosition::FrontRight,
                    ChannelPosition::FrontCenter,
                    ChannelPosition::LowFrequency,
                    ChannelPosition::SideLeft,
                    ChannelPosition::SideRight,
                ];
                s
            },
            ChannelLayout::Surround60 => {
                let s: &'static [ChannelPosition] = &[
                    ChannelPosition::FrontLeft,
                    ChannelPosition::FrontRight,
                    ChannelPosition::FrontCenter,
                    ChannelPosition::BackCenter,
                    ChannelPosition::SideLeft,
                    ChannelPosition::SideRight,
                ];
                s
            },
            ChannelLayout::Surround61 => {
                let s: &'static [ChannelPosition] = &[
                    ChannelPosition::FrontLeft,
                    ChannelPosition::FrontRight,
                    ChannelPosition::FrontCenter,
                    ChannelPosition::LowFrequency,
                    ChannelPosition::BackCenter,
                    ChannelPosition::SideLeft,
                    ChannelPosition::SideRight,
                ];
                s
            },
            ChannelLayout::Surround70 => {
                let s: &'static [ChannelPosition] = &[
                    ChannelPosition::FrontLeft,
                    ChannelPosition::FrontRight,
                    ChannelPosition::FrontCenter,
                    ChannelPosition::SideLeft,
                    ChannelPosition::SideRight,
                    ChannelPosition::BackLeft,
                    ChannelPosition::BackRight,
                ];
                s
            },
            ChannelLayout::Surround71 => {
                let s: &'static [ChannelPosition] = &[
                    ChannelPosition::FrontLeft,
                    ChannelPosition::FrontRight,
                    ChannelPosition::FrontCenter,
                    ChannelPosition::LowFrequency,
                    ChannelPosition::SideLeft,
                    ChannelPosition::SideRight,
                    ChannelPosition::BackLeft,
                    ChannelPosition::BackRight,
                ];
                s
            },
            ChannelLayout::DiscreteN(_) => {
                let s: &'static [ChannelPosition] = &[];
                s
            },
        }
    }

    /// Owned position list: the positions of [`Self::positions`] as a
    /// `Vec` (empty for `DiscreteN`).
    pub fn positions_owned(&self) -> (v: Vec<ChannelPosition>)
        ensures
            v@ == layout_positions(*self),
    {
        let p = self.positions();
        let mut v: Vec<ChannelPosition> = Vec::new();
        let mut i: usize = 0;
        while i < p.len()
            invariant
                p@ == layout_positions(*self),
                i <= p@.len(),
                v@ == p@.subrange(0, i as int),
            decreases p@.len() - i,
        {
            v.push(p[i]);
            i += 1;
        }
        assert(v@ =~= p@);
        v
    }

    /// Speaker position at slot `idx` in canonical order, or `None` for
    /// out-of-range slots and for `DiscreteN`.
    pub fn position(&self, idx: usize) -> (p: Option<ChannelPosition>)
        ensures
            p == (if idx < layout_positions(*self).len() {
                Some(layout_positions(*self)[idx as int])
            } else {
                None
            }),
    {
        let ps = self.positions();
        if idx < ps.len() {
            Some(ps[idx])
        } else {
            None
        }
    }

    /// True when this layout carries a low-frequency-effects (LFE) channel.
    pub fn has_lfe(&self) -> (b: bool)
        ensures
            b == layout_has_lfe(*self),
    {
        let ps = self.positions();
        let mut i: usize = 0;
        while i < ps.len()
            invariant
                ps@ == layout_positions(*self),
                i <= ps@.len(),
                forall|j: int| 0 <= j < i ==> ps@[j] != ChannelPosition::LowFrequency,
            decreases ps@.len() - i,
        {
            if ps[i] == ChannelPosition::LowFrequency {
                assert(ps@[i as int] == ChannelPosition::LowFrequency);
                return true;
            }
            i += 1;
        }
        false
    }

    /// True when this layout carries surround information (more than
    /// two channels OR an LFE). `LoRo` / `LtRt` are 2-channel downmixes
    /// and return false.
    pub fn is_surround(&self) -> (b: bool)
        ensures
            b == (layout_count(*self) > 2 || layout_has_lfe(*self)),
    {
        self.channel_count() > 2 || self.has_lfe()
    }

    /// Infer a layout from a bare channel count: the most common
    /// layout for 1..=8 channels, `DiscreteN` otherwise.
    ///
    /// | count | layout       |
    /// |-------|--------------|
    /// | 1     | `Mono`       |
    /// | 2     | `Stereo`     |
    /// | 3     | `Surround30` |
    /// | 4     | `Quad`       |
    /// | 5     | `Surround50` |
    /// | 6     | `Surround51` |
    /// | 7     | `Surround61` |
    /// | 8     | `Surround71` |
    /// | other | `DiscreteN`  |
    pub fn from_count(n: u16) -> (l: ChannelLayout)
        ensures
            l == layout_for_count(n),
    {
        match n {
            1 => ChannelLayout::Mono,
            2 => ChannelLayout::Stereo,
            3 => ChannelLayout::Surround30,
            4 => ChannelLayout::Quad,
            5 => ChannelLayout::Surround50,
            6 => ChannelLayout::Surround51,
            7 => ChannelLayout::Surround61,
            8 => ChannelLayout::Surround71,
            other => ChannelLayout::DiscreteN(other),
        }
    }
}

/// The right-hand partner of a left position (`None` for a position
/// that is not a left one).
pub open spec fn right_partner(p: ChannelPosition) -> Option<ChannelPosition> {
    match p {
        ChannelPosition::FrontLeft => Some(ChannelPosition::FrontRight),
        ChannelPosition::BackLeft => Some(ChannelPosition::BackRight),
        ChannelPosition::FrontLeftOfCenter => Some(ChannelPosition::FrontRightOfCenter),
        ChannelPosition::SideLeft => Some(ChannelPosition::SideRight),
        ChannelPosition::TopFrontLeft => Some(ChannelPosition::TopFrontRight),
        ChannelPosition::TopBackLeft => Some(ChannelPosition::TopBackRight),
        _ => None,
    }
}

/// In every named layout each left position stands immediately before
/// its right partner, and each right position immediately after its
/// left partner.
pub proof fn law_left_right_pairs_are_adjacent(l: ChannelLayout, i: int)
    requires
        0 <= i < layout_positions(l).len(),
    ensures
        right_partner(layout_positions(l)[i]) matches Some(r) ==> i + 1 < layout_positions(l).len()
            && layout_positions(l)[i + 1] == r,
        forall|q: ChannelPosition|
            right_partner(q) == Some(layout_positions(l)[i]) ==> i >= 1 && layout_positions(l)[i - 1]
                == q,
{
}

/// The smaller layouts are built up from stereo as their names say:
/// stereo (and its Lo/Ro, Lt/Rt downmixes) is `L, R`; mono is the
/// centre alone; 2.1 adds the LFE, 3.0 the centre, quad the side pair;
/// 4.0 is 3.0 plus the back centre and 4.1 adds the LFE after it; 6.0 is
/// 5.0 with the back centre before the side pair, and 6.1 is 5.1 with
/// the back centre before the side pair.
pub proof fn law_small_layouts_build_on_stereo()
    ensures
        layout_positions(ChannelLayout::Stereo) == seq![
            ChannelPosition::FrontLeft,
            ChannelPosition::FrontRight,
        ],
        layout_positions(ChannelLayout::LoRo) == layout_positions(ChannelLayout::Stereo),
        layout_positions(ChannelLayout::LtRt) == layout_positions(ChannelLayout::Stereo),
        layout_positions(ChannelLayout::Mono) == seq![ChannelPosition::FrontCenter],
        layout_positions(ChannelLayout::Stereo21) == layout_positions(ChannelLayout::Stereo).push(
            ChannelPosition::LowFrequency,
        ),
        layout_positions(ChannelLayout::Surround30) == layout_positions(ChannelLayout::Stereo).push(
            ChannelPosition::FrontCenter,
        ),
        layout_positions(ChannelLayout::Quad) == layout_positions(ChannelLayout::Stereo) + seq![
            ChannelPosition::SideLeft,
            ChannelPosition::SideRight,
        ],
        layout_positions(ChannelLayout::Surround40) == layout_positions(
            ChannelLayout::Surround30,
        ).push(ChannelPosition::BackCenter),
        layout_positions(ChannelLayout::Surround41) == layout_positions(
            ChannelLayout::Surround40,
        ).push(ChannelPosition::LowFrequency),
        layout_positions(ChannelLayout::Surround60) == layout_positions(
            ChannelLayout::Surround50,
        ).insert(3, ChannelPosition::BackCenter),
        layout_positions(ChannelLayout::Surround61) == layout_positions(
            ChannelLayout::Surround51,
        ).insert(4, ChannelPosition::BackCenter),
{
    assert(layout_positions(ChannelLayout::Stereo21) =~= layout_positions(ChannelLayout::Stereo).push(
        ChannelPosition::LowFrequency,
    ));
    assert(layout_positions(ChannelLayout::Surround30) =~= layout_positions(
        ChannelLayout::Stereo,
    ).push(ChannelPosition::FrontCenter));
    assert(layout_positions(ChannelLayout::Quad) =~= layout_positions(ChannelLayout::Stereo) + seq![
        ChannelPosition::SideLeft,
        ChannelPosition::SideRight,
    ]);
    assert(layout_positions(ChannelLayout::Surround40) =~= layout_positions(
        ChannelLayout::Surround30,
    ).push(ChannelPosition::BackCenter));
    assert(layout_positions(ChannelLayout::Surround41) =~= layout_positions(
        ChannelLayout::Surround40,
    ).push(ChannelPosition::LowFrequency));
    assert(layout_positions(ChannelLayout::Surround60) =~= layout_positions(
        ChannelLayout::Surround50,
    ).insert(3, ChannelPosition::BackCenter));
    assert(layout_positions(ChannelLayout::Surround61) =~= layout_positions(
        ChannelLayout::Surround51,
    ).insert(4, ChannelPosition::BackCenter));
}

/// The surround layouts extend one another as the layout names say:
/// 7.1 is 5.1 followed by the back pair `Lb, Rb`, 7.0 is 5.0 followed
/// by the same pair, 5.1 is 5.0 with the LFE after the centre, and 5.0
/// is 3.0 followed by the side pair `Ls, Rs`.
pub proof fn law_surround_layouts_extend()
    ensures
        layout_positions(ChannelLayout::Surround71) == layout_positions(ChannelLayout::Surround51)
            + seq![ChannelPosition::BackLeft, ChannelPosition::BackRight],
        layout_positions(ChannelLayout::Surround70) == layout_positions(ChannelLayout::Surround50)
            + seq![ChannelPosition::BackLeft, ChannelPosition::BackRight],
        layout_positions(ChannelLayout::Surround51) == layout_positions(
            ChannelLayout::Surround50,
        ).insert(3, ChannelPosition::LowFrequency),
        layout_positions(ChannelLayout::Surround50) == layout_positions(ChannelLayout::Surround30)
            + seq![ChannelPosition::SideLeft, ChannelPosition::SideRight],
{
    assert(layout_positions(ChannelLayout::Surround71) =~= layout_positions(ChannelLayout::Surround51)
        + seq![ChannelPosition::BackLeft, ChannelPosition::BackRight]);
    assert(layout_positions(ChannelLayout::Surround70) =~= layout_positions(ChannelLayout::Surround50)
        + seq![ChannelPosition::BackLeft, ChannelPosition::BackRight]);
    assert(layout_positions(ChannelLayout::Surround51) =~= layout_positions(
        ChannelLayout::Surround50,
    ).insert(3, ChannelPosition::LowFrequency));
    assert(layout_positions(ChannelLayout::Surround50) =~= layout_positions(ChannelLayout::Surround30)
        + seq![ChannelPosition::SideLeft, ChannelPosition::SideRight]);
}

/// A named layout carries exactly as many channels as it lists
/// positions.
pub proof fn law_named_layout_count_matches_positions(l: ChannelLayout)
    requires
        !(l is DiscreteN),
    ensures
        layout_count(l) == layout_positions(l).len(),
{
}

/// Inferring a layout from a count and reading its count back gives
/// the count again; counts 1..=8 infer a named layout.
pub proof fn law_from_count_round_trip(n: u16)
    ensures
        layout_count(layout_for_count(n)) == n,
        1 <= n <= 8 ==> !(layout_for_count(n) is DiscreteN),
{
}


/// The name `to_string` gives a layout: `mono`, `stereo`, `2.1`, …,
/// `loro`, `ltrt`, and `discrete<n>`.
pub open spec fn layout_name(l: ChannelLayout) -> Seq<char> {
    match l {
        ChannelLayout::Mono => "mono"@,
        ChannelLayout::Stereo => "stereo"@,
        ChannelLayout::Stereo21 => "2.1"@,
        ChannelLayout::Surround30 => "3.0"@,
        ChannelLayout::Quad => "quad"@,
        ChannelLayout::Surround40 => "4.0"@,
        ChannelLayout::Surround41 => "4.1"@,
        ChannelLayout::Surround50 => "5.0"@,
        ChannelLayout::Surround51 => "5.1"@,
        ChannelLayout::Surround60 => "6.0"@,
        ChannelLayout::Surround61 => "6.1"@,
        ChannelLayout::Surround70 => "7.0"@,
        ChannelLayout::Surround71 => "7.1"@,
        ChannelLayout::LoRo => "loro"@,
        ChannelLayout::LtRt => "ltrt"@,
        ChannelLayout::DiscreteN(n) => "discrete"@ + decimal_chars(n as nat),
    }
}

/// The layout a normalised (trimmed, lower-case) name denotes.
pub open spec fn layout_for_key(key: Seq<char>) -> Option<ChannelLayout> {
    if key == "mono"@ || key == "1.0"@ {
        Some(ChannelLayout::Mono)
    } else if key == "stereo"@ || key == "2.0"@ {
        Some(ChannelLayout::Stereo)
    } else if key == "2.1"@ {
        Some(ChannelLayout::Stereo21)
    } else if key == "3.0"@ || key == "surround3"@ || key == "surround30"@ {
        Some(ChannelLayout::Surround30)
    } else if key == "quad"@ {
        Some(ChannelLayout::Quad)
    } else if key == "4.0"@ || key == "surround4"@ || key == "surround40"@ {
        Some(ChannelLayout::Surround40)
    } else if key == "4.1"@ || key == "surround41"@ {
        Some(ChannelLayout::Surround41)
    } else if key == "5.0"@ || key == "surround5"@ || key == "surround50"@ {
        Some(ChannelLayout::Surround50)
    } else if key == "5.1"@ || key == "surround51"@ {
        Some(ChannelLayout::Surround51)
    } else if key == "6.0"@ || key == "surround6"@ || key == "surround60"@ {
        Some(ChannelLayout::Surround60)
    } else if key == "6.1"@ || key == "surround61"@ {
        Some(ChannelLayout::Surround61)
    } else if key == "7.0"@ || key == "surround7"@ || key == "surround70"@ {
        Some(ChannelLayout::Surround70)
    } else if key == "7.1"@ || key == "surround71"@ {
        Some(ChannelLayout::Surround71)
    } else if key == "loro"@ || key == "lo/ro"@ {
        Some(ChannelLayout::LoRo)
    } else if key == "ltrt"@ || key == "lt/rt"@ {
        Some(ChannelLayout::LtRt)
    } else if key.len() >= "discrete"@.len() && key.subrange(0, "discrete"@.len() as int) == "discrete"@ {
        match parse_u16_chars(key.subrange("discrete"@.len() as int, key.len() as int)) {
            Some(n) => Some(ChannelLayout::DiscreteN(n)),
            None => None,
        }
    } else {
        None
    }
}

/// What `from_str` accepts: the name trimmed of whitespace and folded
/// to ASCII lower case, then looked up among the names and aliases.
pub open spec fn parse_layout(s: Seq<char>) -> Option<ChannelLayout> {
    layout_for_key(lowered(trimmed(s)))
}

/// Error returned by [`ChannelLayout::from_str`] when the input doesn't
/// match any recognised layout name; carries the input verbatim.
#[derive(Debug, Clone)]
pub struct ParseChannelLayoutError(pub String);

impl ChannelLayout {
    /// The layout's short name (`"5.1"`, `"stereo"`, `"discrete13"`, …).
    pub fn to_string(&self) -> (s: String)
        ensures
            s@ == layout_name(*self),
    {
        match self {
            ChannelLayout::Mono => String::from_str("mono"),
            ChannelLayout::Stereo => String::from_str("stereo"),
            ChannelLayout::Stereo21 => String::from_str("2.1"),
            ChannelLayout::Surround30 => String::from_str("3.0"),
            ChannelLayout::Quad => String::from_str("quad"),
            ChannelLayout::Surround40 => String::from_str("4.0"),
            ChannelLayout::Surround41 => String::from_str("4.1"),
            ChannelLayout::Surround50 => String::from_str("5.0"),
            ChannelLayout::Surround51 => String::from_str("5.1"),
            ChannelLayout::Surround60 => String::from_str("6.0"),
            ChannelLayout::Surround61 => String::from_str("6.1"),
            ChannelLayout::Surround70 => String::from_str("7.0"),
            ChannelLayout::Surround71 => String::from_str("7.1"),
            ChannelLayout::LoRo => String::from_str("loro"),
            ChannelLayout::LtRt => String::from_str("ltrt"),
            ChannelLayout::DiscreteN(n) => {
                let mut s = String::from_str("discrete");
                append_decimal(&mut s, *n as u64);
                s
            },
        }
    }

    /// Parse a layout name: surrounding whitespace is ignored and ASCII
    /// letters match in any case. Accepts every name `to_string` gives
    /// plus the aliases `1.0`, `2.0`, `surroundN`/`surroundNM`, `lo/ro`,
    /// `lt/rt`.
    pub fn from_str(s: &str) -> (r: Result<ChannelLayout, ParseChannelLayoutError>)
        ensures
            (r is Ok) == (parse_layout(s@) is Some),
            (r matches Ok(l) ==> parse_layout(s@) == Some(l)),
            (r matches Err(e) ==> e.0@ == s@),
    {
        let raw = chars_of(s);
        let trimmed_chars = trim_chars(&raw);
        let key = lower_chars(&trimmed_chars);
        if seq_equals_str(&key, "mono") || seq_equals_str(&key, "1.0") {
            Ok(ChannelLayout::Mono)
        } else if seq_equals_str(&key, "stereo") || seq_equals_str(&key, "2.0") {
            Ok(ChannelLayout::Stereo)
        } else if seq_equals_str(&key, "2.1") {
            Ok(ChannelLayout::Stereo21)
        } else if seq_equals_str(&key, "3.0") || seq_equals_str(&key, "surround3") || seq_equals_str(&key, "surround30") {
            Ok(ChannelLayout::Surround30)
        } else if seq_equals_str(&key, "quad") {
            Ok(ChannelLayout::Quad)
        } else if seq_equals_str(&key, "4.0") || seq_equals_str(&key, "surround4") || seq_equals_str(&key, "surround40") {
            Ok(ChannelLayout::Surround40)
        } else if seq_equals_str(&key, "4.1") || seq_equals_str(&key, "surround41") {
            Ok(ChannelLayout::Surround41)
        } else if seq_equals_str(&key, "5.0") || seq_equals_str(&key, "surround5") || seq_equals_str(&key, "surround50") {
            Ok(ChannelLayout::Surround50)
        } else if seq_equals_str(&key, "5.1") || seq_equals_str(&key, "surround51") {
            Ok(ChannelLayout::Surround51)
        } else if seq_equals_str(&key, "6.0") || seq_equals_str(&key, "surround6") || seq_equals_str(&key, "surround60") {
            Ok(ChannelLayout::Surround60)
        } else if seq_equals_str(&key, "6.1") || seq_equals_str(&key, "surround61") {
            Ok(ChannelLayout::Surround61)
        } else if seq_equals_str(&key, "7.0") || seq_equals_str(&key, "surround7") || seq_equals_str(&key, "surround70") {
            Ok(ChannelLayout::Surround70)
        } else if seq_equals_str(&key, "7.1") || seq_equals_str(&key, "surround71") {
            Ok(ChannelLayout::Surround71)
        } else if seq_equals_str(&key, "loro") || seq_equals_str(&key, "lo/ro") {
            Ok(ChannelLayout::LoRo)
        } else if seq_equals_str(&key, "ltrt") || seq_equals_str(&key, "lt/rt") {
            Ok(ChannelLayout::LtRt)
        } else if starts_with_str(&key, "discrete") {
            let prefix_len = "discrete".unicode_len();
            match parse_u16_from(&key, prefix_len) {
                Some(n) => Ok(ChannelLayout::DiscreteN(n)),
                None => Err(ParseChannelLayoutError(s.to_owned())),
            }
        } else {
            Err(ParseChannelLayoutError(s.to_owned()))
        }
    }
}

/// Every layout's name parses back to the layout.
#[verifier::rlimit(50)]
pub proof fn law_layout_name_round_trip(l: ChannelLayout)
    ensures
        parse_layout(layout_name(l)) == Some(l),
{
    reveal_strlit("mono");
    reveal_strlit("1.0");
    reveal_strlit("stereo");
    reveal_strlit("2.0");
    reveal_strlit("2.1");
    reveal_strlit("3.0");
    reveal_strlit("surround3");
    reveal_strlit("surround30");
    reveal_strlit("quad");
    reveal_strlit("4.0");
    reveal_strlit("surround4");
    reveal_strlit("surround40");
    reveal_strlit("4.1");
    reveal_strlit("surround41");
    reveal_strlit("5.0");
    reveal_strlit("surround5");
    reveal_strlit("surround50");
    reveal_strlit("5.1");
    reveal_strlit("surround51");
    reveal_strlit("6.0");
    reveal_strlit("surround6");
    reveal_strlit("surround60");
    reveal_strlit("6.1");
    reveal_strlit("surround61");
    reveal_strlit("7.0");
    reveal_strlit("surround7");
    reveal_strlit("surround70");
    reveal_strlit("7.1");
    reveal_strlit("surround71");
    reveal_strlit("loro");
    reveal_strlit("lo/ro");
    reveal_strlit("ltrt");
    reveal_strlit("lt/rt");
    reveal_strlit("discrete");
    let name = layout_name(l);
    match l {
        ChannelLayout::DiscreteN(n) => {
            lemma_decimal_chars(n as nat);
            lemma_decimal_parses_back(n);
            let d = decimal_chars(n as nat);
            assert forall|i: int| 0 <= i < name.len() implies ascii_lower(#[trigger] name[i]) == name[i] by {
                if i >= 8 {
                    assert(name[i] == d[i - 8]);
                    assert(digit_value(d[i - 8]) is Some);
                }
            }
            assert(name.last() == d.last());
            assert(digit_value(d[d.len() - 1]) is Some);
            lemma_plain_word_is_its_own_key(name);
            assert(name[0] == 'd');
            assert(name.subrange(0, 8) =~= "discrete"@);
            assert(name.subrange(8, name.len() as int) =~= d);
        },
        _ => {
            lemma_plain_word_is_its_own_key(name);
        },
    }
}


/// Audio sample format.
///
/// The variants are declared in the order of their stable numbers: the
/// integer value of `SampleFormat::S16 as u8` is part of the public
/// ABI. Add new variants only at the end.
#[derive(Clone, Copy, Debug, PartialEq, Eq, Hash, Structural)]
#[non_exhaustive]
pub enum SampleFormat {
    /// Unsigned 8-bit, interleaved.
    U8,
    /// Signed 8-bit, interleaved.
    S8,
    /// Signed 16-bit little-endian, interleaved.
    S16,
    /// Signed 24-bit packed (3 bytes/sample) little-endian, interleaved.
    S24,
    /// Signed 32-bit little-endian, interleaved.
    S32,
    /// 32-bit IEEE float, interleaved.
    F32,
    /// 64-bit IEEE float, interleaved.
    F64,
    /// Unsigned 8-bit, planar (one plane per channel).
    U8P,
    /// Signed 16-bit, planar.
    S16P,
    /// Signed 32-bit, planar.
    S32P,
    /// 32-bit IEEE float, planar.
    F32P,
    /// 64-bit IEEE float, planar.
    F64P,
}

/// Planar sample formats (one plane per channel).
pub open spec fn sample_is_planar(f: SampleFormat) -> bool {
    matches!(f, SampleFormat::U8P | SampleFormat::S16P | SampleFormat::S32P | SampleFormat::F32P | SampleFormat::F64P)
}

/// Bytes per sample per channel.
pub open spec fn sample_bytes(f: SampleFormat) -> usize {
    match f {
        SampleFormat::U8 | SampleFormat::U8P | SampleFormat::S8 => 1,
        SampleFormat::S16 | SampleFormat::S16P => 2,
        SampleFormat::S24 => 3,
        SampleFormat::S32 | SampleFormat::S32P | SampleFormat::F32 | SampleFormat::F32P => 4,
        SampleFormat::F64 | SampleFormat::F64P => 8,
    }
}

/// Floating-point sample formats.
pub open spec fn sample_is_float(f: SampleFormat) -> bool {
    matches!(f, SampleFormat::F32 | SampleFormat::F64 | SampleFormat::F32P | SampleFormat::F64P)
}

impl SampleFormat {
    pub fn is_planar(&self) -> (b: bool)
        ensures
            b == sample_is_planar(*self),
    {
        match self {
            SampleFormat::U8P | SampleFormat::S16P | SampleFormat::S32P | SampleFormat::F32P | SampleFormat::F64P => true,
            _ => false,
        }
    }

    /// Bytes per sample *per channel*.
    pub fn bytes_per_sample(&self) -> (n: usize)
        ensures
            n == sample_bytes(*self),
    {
        match self {
            SampleFormat::U8 | SampleFormat::U8P | SampleFormat::S8 => 1,
            SampleFormat::S16 | SampleFormat::S16P => 2,
            SampleFormat::S24 => 3,
            SampleFormat::S32 | SampleFormat::S32P | SampleFormat::F32 | SampleFormat::F32P => 4,
            SampleFormat::F64 | SampleFormat::F64P => 8,
        }
    }

    pub fn is_float(&self) -> (b: bool)
        ensures
            b == sample_is_float(*self),
    {
        match self {
            SampleFormat::F32 | SampleFormat::F64 | SampleFormat::F32P | SampleFormat::F64P => true,
            _ => false,
        }
    }

    /// Number of `Vec<u8>` planes an [`AudioFrame`](crate::AudioFrame)
    /// of this format carries for `channels` channels: planar formats
    /// use one plane per channel, interleaved formats use one plane
    /// total.
    pub fn plane_count(&self, channels: u16) -> (n: usize)
        ensures
            n == if sample_is_planar(*self) {
                channels as usize
            } else {
                1
            },
    {
        if self.is_planar() {
            channels as usize
        } else {
            1
        }
    }
}

/// Video pixel format.
///
/// The variants are declared in the order of their stable numbers: the
/// integer value of `PixelFormat::Yuv420P as u16` is part of the public
/// ABI. Add new variants only at the end.
#[derive(Clone, Copy, Debug, PartialEq, Eq, Hash, Structural)]
#[non_exhaustive]
pub enum PixelFormat {
    /// 8-bit YUV 4:2:0, planar (Y, U, V).
    Yuv420P,
    /// 8-bit YUV 4:2:2, planar.
    Yuv422P,
    /// 8-bit YUV 4:4:4, planar.
    Yuv444P,
    /// Packed 8-bit RGB, 3 bytes/pixel.
    Rgb24,
    /// Packed 8-bit RGBA, 4 bytes/pixel.
    Rgba,
    /// Packed 8-bit grayscale.
    Gray8,
    /// 8-bit palette indices — companion palette carried out of band.
    Pal8,
    /// Packed 8-bit BGR, 3 bytes/pixel.
    Bgr24,
    /// Packed 8-bit BGRA, 4 bytes/pixel.
    Bgra,
    /// Packed 8-bit ARGB, 4 bytes/pixel (alpha first).
    Argb,
    /// Packed 8-bit ABGR, 4 bytes/pixel.
    Abgr,
    /// Packed 16-bit-per-channel RGB, little-endian, 6 bytes/pixel.
    Rgb48Le,
    /// Packed 16-bit-per-channel RGBA, little-endian, 8 bytes/pixel.
    Rgba64Le,
    /// 16-bit little-endian grayscale.
    Gray16Le,
    /// 10-bit grayscale in a 16-bit little-endian word.
    Gray10Le,
    /// 12-bit grayscale in a 16-bit little-endian word.
    Gray12Le,
    /// 10-bit YUV 4:2:0 planar, little-endian 16-bit storage.
    Yuv420P10Le,
    /// 10-bit YUV 4:2:2 planar, little-endian 16-bit storage.
    Yuv422P10Le,
    /// 10-bit YUV 4:4:4 planar, little-endian 16-bit storage.
    Yuv444P10Le,
    /// 12-bit YUV 4:2:0 planar, little-endian 16-bit storage.
    Yuv420P12Le,
    /// 12-bit YUV 4:2:2 planar, little-endian 16-bit storage.
    Yuv422P12Le,
    /// 12-bit YUV 4:4:4 planar, little-endian 16-bit storage.
    Yuv444P12Le,
    /// JPEG/full-range YUV 4:2:0 planar.
    YuvJ420P,
    /// JPEG/full-range YUV 4:2:2 planar.
    YuvJ422P,
    /// JPEG/full-range YUV 4:4:4 planar.
    YuvJ444P,
    /// YUV 4:2:0, planar Y + interleaved UV (NV12).
    Nv12,
    /// YUV 4:2:0, planar Y + interleaved VU (NV21).
    Nv21,
    /// Packed grayscale + alpha, 2 bytes/pixel (Y, A).
    Ya8,
    /// Yuv420P with an additional full-resolution alpha plane.
    Yuva420P,
    /// 1 bit per pixel, packed MSB-first, 0 = black.
    MonoBlack,
    /// 1 bit per pixel, packed MSB-first, 0 = white.
    MonoWhite,
    /// Packed 4:2:2, byte order Y0 U0 Y1 V0.
    Yuyv422,
    /// Packed 4:2:2, byte order U0 Y0 V0 Y1.
    Uyvy422,
    /// Packed 8-bit CMYK, 4 bytes/pixel in byte order C, M, Y, K.
    Cmyk,
    /// 8-bit YUV 4:1:1, planar (Y, U, V); chroma horizontally subsampled by 4.
    Yuv411P,
}

/// Formats that store their components in separate planes.
pub open spec fn pixel_is_planar(f: PixelFormat) -> bool {
    matches!(
        f,
        PixelFormat::Yuv420P | PixelFormat::Yuv422P | PixelFormat::Yuv444P | PixelFormat::Yuv411P | PixelFormat::Yuv420P10Le | PixelFormat::Yuv422P10Le | PixelFormat::Yuv444P10Le | PixelFormat::Yuv420P12Le | PixelFormat::Yuv422P12Le | PixelFormat::Yuv444P12Le | PixelFormat::YuvJ420P | PixelFormat::YuvJ422P | PixelFormat::YuvJ444P | PixelFormat::Nv12 | PixelFormat::Nv21 | PixelFormat::Yuva420P
    )
}

/// Formats that carry an alpha channel.
pub open spec fn pixel_has_alpha(f: PixelFormat) -> bool {
    matches!(f, PixelFormat::Rgba | PixelFormat::Bgra | PixelFormat::Argb | PixelFormat::Abgr | PixelFormat::Rgba64Le | PixelFormat::Ya8 | PixelFormat::Yuva420P)
}

/// Number of planes in the stored layout.
pub open spec fn pixel_planes(f: PixelFormat) -> usize {
    match f {
        PixelFormat::Nv12 | PixelFormat::Nv21 => 2,
        PixelFormat::Yuv420P | PixelFormat::Yuv422P | PixelFormat::Yuv444P | PixelFormat::Yuv411P | PixelFormat::Yuv420P10Le | PixelFormat::Yuv422P10Le | PixelFormat::Yuv444P10Le | PixelFormat::Yuv420P12Le | PixelFormat::Yuv422P12Le | PixelFormat::Yuv444P12Le | PixelFormat::YuvJ420P | PixelFormat::YuvJ422P | PixelFormat::YuvJ444P => 3,
        PixelFormat::Yuva420P => 4,
        _ => 1,
    }
}

/// Rough bits-per-pixel estimate.
pub open spec fn pixel_bits_approx(f: PixelFormat) -> u32 {
    match f {
        PixelFormat::MonoBlack | PixelFormat::MonoWhite => 1,
        PixelFormat::Gray8 | PixelFormat::Pal8 => 8,
        PixelFormat::Ya8 | PixelFormat::Gray16Le | PixelFormat::Gray10Le | PixelFormat::Gray12Le | PixelFormat::Yuyv422 | PixelFormat::Uyvy422 | PixelFormat::Yuv422P | PixelFormat::YuvJ422P => 16,
        PixelFormat::Rgb24 | PixelFormat::Bgr24 | PixelFormat::Yuv444P | PixelFormat::YuvJ444P | PixelFormat::Yuv420P10Le | PixelFormat::Yuv420P12Le => 24,
        PixelFormat::Rgba | PixelFormat::Bgra | PixelFormat::Argb | PixelFormat::Abgr | PixelFormat::Cmyk | PixelFormat::Yuv422P10Le | PixelFormat::Yuv422P12Le => 32,
        PixelFormat::Rgb48Le | PixelFormat::Yuv444P10Le | PixelFormat::Yuv444P12Le => 48,
        PixelFormat::Rgba64Le => 64,
        PixelFormat::Yuv420P | PixelFormat::YuvJ420P | PixelFormat::Nv12 | PixelFormat::Nv21 | PixelFormat::Yuv411P => 12,
        PixelFormat::Yuva420P => 20,
    }
}

impl PixelFormat {
    /// True if this format stores its components in separate planes.
    pub fn is_planar(&self) -> (b: bool)
        ensures
            b == pixel_is_planar(*self),
    {
        match self {
            PixelFormat::Yuv420P | PixelFormat::Yuv422P | PixelFormat::Yuv444P | PixelFormat::Yuv411P | PixelFormat::Yuv420P10Le | PixelFormat::Yuv422P10Le | PixelFormat::Yuv444P10Le | PixelFormat::Yuv420P12Le | PixelFormat::Yuv422P12Le | PixelFormat::Yuv444P12Le | PixelFormat::YuvJ420P | PixelFormat::YuvJ422P | PixelFormat::YuvJ444P | PixelFormat::Nv12 | PixelFormat::Nv21 | PixelFormat::Yuva420P => true,
            _ => false,
        }
    }

    /// True if the format is a palette index format (`Pal8`).
    pub fn is_palette(&self) -> (b: bool)
        ensures
            b == (*self == PixelFormat::Pal8),
    {
        match self {
            PixelFormat::Pal8 => true,
            _ => false,
        }
    }

    /// True if this format carries an alpha channel.
    pub fn has_alpha(&self) -> (b: bool)
        ensures
            b == pixel_has_alpha(*self),
    {
        match self {
            PixelFormat::Rgba | PixelFormat::Bgra | PixelFormat::Argb | PixelFormat::Abgr | PixelFormat::Rgba64Le | PixelFormat::Ya8 | PixelFormat::Yuva420P => true,
            _ => false,
        }
    }

    /// Number of planes in the stored layout. Packed and palette
    /// formats return 1; NV12/NV21 return 2; planar YUV without alpha
    /// returns 3; YuvA variants return 4.
    pub fn plane_count(&self) -> (n: usize)
        ensures
            n == pixel_planes(*self),
    {
        match self {
            PixelFormat::Nv12 | PixelFormat::Nv21 => 2,
            PixelFormat::Yuv420P | PixelFormat::Yuv422P | PixelFormat::Yuv444P | PixelFormat::Yuv411P | PixelFormat::Yuv420P10Le | PixelFormat::Yuv422P10Le | PixelFormat::Yuv444P10Le | PixelFormat::Yuv420P12Le | PixelFormat::Yuv422P12Le | PixelFormat::Yuv444P12Le | PixelFormat::YuvJ420P | PixelFormat::YuvJ422P | PixelFormat::YuvJ444P => 3,
            PixelFormat::Yuva420P => 4,
            _ => 1,
        }
    }

    /// Rough bits-per-pixel estimate, useful for buffer sizing. Not
    /// exact for chroma-subsampled YUV — intended for worst-case
    /// preallocation.
    pub fn bits_per_pixel_approx(&self) -> (n: u32)
        ensures
            n == pixel_bits_approx(*self),
    {
        match self {
            PixelFormat::MonoBlack | PixelFormat::MonoWhite => 1,
            PixelFormat::Gray8 | PixelFormat::Pal8 => 8,
            PixelFormat::Ya8 | PixelFormat::Gray16Le | PixelFormat::Gray10Le | PixelFormat::Gray12Le | PixelFormat::Yuyv422 | PixelFormat::Uyvy422 | PixelFormat::Yuv422P | PixelFormat::YuvJ422P => 16,
            PixelFormat::Rgb24 | PixelFormat::Bgr24 | PixelFormat::Yuv444P | PixelFormat::YuvJ444P | PixelFormat::Yuv420P10Le | PixelFormat::Yuv420P12Le => 24,
            PixelFormat::Rgba | PixelFormat::Bgra | PixelFormat::Argb | PixelFormat::Abgr | PixelFormat::Cmyk | PixelFormat::Yuv422P10Le | PixelFormat::Yuv422P12Le => 32,
            PixelFormat::Rgb48Le | PixelFormat::Yuv444P10Le | PixelFormat::Yuv444P12Le => 48,
            PixelFormat::Rgba64Le => 64,
            PixelFormat::Yuv420P | PixelFormat::YuvJ420P | PixelFormat::Nv12 | PixelFormat::Nv21 | PixelFormat::Yuv411P => 12,
            PixelFormat::Yuva420P => 20,
        }
    }
}

/// Planar formats are exactly the formats with more than one plane.
pub proof fn law_planar_iff_several_planes(f: PixelFormat)
    ensures
        pixel_is_planar(f) == (pixel_planes(f) > 1),
{
}

} // verus!
