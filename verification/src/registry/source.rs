//! Generic source registry.
//!
//! `SourceRegistry` maps URI schemes (`file`, `http`, `rtmp`,
//! `generate`, …) to opener functions and picks the driver for a URI. A
//! driver opens a URI as one of three shapes: a byte stream, a producer
//! of demuxed packets, or a producer of decoded frames. The driver
//! picks the shape when it registers; the opener the registry hands
//! back says which it is.

use crate::error::Error;
use crate::stream::{CodecParameters, StreamInfo};
use crate::registry::table::{
    find_named, lookup, names_of, names_unique, put_named, registered, table_of, Named,
};
use crate::text::{chars_of, lower_chars, lowered, string_of_chars};
use vstd::prelude::*;
use vstd::string::*;

verus! {

// ───────────────────────── source shapes ─────────────────────────

/// A producer of already-demuxed packets, for transport-layer
/// protocols that demux themselves (RTMP, RTSP, …).
pub trait PacketSource: Send {
    /// Streams advertised by this source. Stable across the lifetime of
    /// the source.
    fn streams(&self) -> &[StreamInfo];

    /// Source-level metadata as ordered (key, value) pairs; empty by
    /// default.
    fn metadata(&self) -> (r: &[(String, String)])
        default_ensures
            r@.len() == 0,
    {
        &[]
    }

    /// Source-level duration in microseconds, if known; `None` by
    /// default (live sources typically have none).
    fn duration_micros(&self) -> (r: Option<i64>)
        default_ensures
            r is None,
    {
        None
    }
}

/// A producer of already-decoded frames, for synthetic generators
/// (test patterns, sine sweeps, …).
pub trait FrameSource: Send {
    /// Codec parameters describing the frames this source emits.
    fn params(&self) -> &CodecParameters;

    /// Source-level metadata as ordered (key, value) pairs; empty by
    /// default.
    fn metadata(&self) -> (r: &[(String, String)])
        default_ensures
            r@.len() == 0,
    {
        &[]
    }

    /// Source-level duration in microseconds, if known; `None` by
    /// default.
    fn duration_micros(&self) -> (r: Option<i64>)
        default_ensures
            r is None,
    {
        None
    }
}

// ───────────────────────── URI schemes ─────────────────────────

/// Whether `c` is an ASCII letter.
pub open spec fn is_ascii_alpha(c: char) -> bool {
    ('a' <= c && c <= 'z') || ('A' <= c && c <= 'Z')
}

/// Whether `c` may stand in a URI scheme: an ASCII letter or digit,
/// `+`, `-` or `.`.
pub open spec fn is_scheme_char(c: char) -> bool {
    is_ascii_alpha(c) || ('0' <= c && c <= '9') || c == '+' || c == '-' || c == '.'
}

/// Whether `s` is a URI scheme: non-empty, starting with a letter, and
/// made of scheme characters.
pub open spec fn is_valid_scheme(s: Seq<char>) -> bool {
    &&& s.len() > 0
    &&& is_ascii_alpha(s[0])
    &&& forall|j: int| 0 <= j < s.len() ==> is_scheme_char(#[trigger] s[j])
}

/// Whether `i` is the position of the first `:` in `u`.
pub open spec fn is_first_colon(u: Seq<char>, i: int) -> bool {
    &&& 0 <= i < u.len()
    &&& u[i] == ':'
    &&& forall|j: int| 0 <= j < i ==> #[trigger] u[j] != ':'
}

/// The scheme name used for bare paths.
pub open spec fn file_scheme() -> Seq<char> {
    seq!['f', 'i', 'l', 'e']
}

/// `rest` without a leading `//`.
pub open spec fn strip_slashes(rest: Seq<char>) -> Seq<char> {
    if rest.len() >= 2 && rest[0] == '/' && rest[1] == '/' {
        rest.skip(2)
    } else {
        rest
    }
}

/// A URI split into `(scheme, rest)`. Bare paths (no `:`) report scheme
/// `file` and the whole URI; so do inputs whose text before the first
/// `:` is not a scheme, or is a single letter (a Windows drive such as
/// `c:`). Otherwise the scheme is the text before the first `:`, and
/// the rest is what follows it, without a leading `//`.
pub open spec fn scheme_split(u: Seq<char>) -> (Seq<char>, Seq<char>) {
    if exists|i: int| is_first_colon(u, i) {
        let i = choose|i: int| is_first_colon(u, i);
        let scheme = u.take(i);
        if scheme.len() == 1 && is_ascii_alpha(scheme[0]) {
            (file_scheme(), u)
        } else if !is_valid_scheme(scheme) {
            (file_scheme(), u)
        } else {
            (scheme, strip_slashes(u.skip(i + 1)))
        }
    } else {
        (file_scheme(), u)
    }
}

/// A URI written as a scheme, `:` and a rest splits back into that
/// scheme and rest (less a leading `//`), provided the scheme is a valid
/// one of at least two characters (a single letter reads as a Windows
/// drive).
pub proof fn law_split_of_joined_uri(scheme: Seq<char>, rest: Seq<char>)
    requires
        is_valid_scheme(scheme),
        scheme.len() >= 2,
    ensures
        scheme_split(scheme + seq![':'] + rest) == (scheme, strip_slashes(rest)),
{
    let u = scheme + seq![':'] + rest;
    let i = scheme.len() as int;
    assert(u[i] == ':');
    assert forall|j: int| 0 <= j < i implies #[trigger] u[j] != ':' by {
        assert(u[j] == scheme[j]);
        assert(is_scheme_char(scheme[j]));
    }
    assert(is_first_colon(u, i));
    let c = choose|k: int| is_first_colon(u, k);
    if c < i {
        assert(u[c] == ':');
    }
    if i < c {
        assert(u[i] != ':');
    }
    assert(c == i);
    assert(u.take(i) =~= scheme);
    assert(u.skip(i + 1) =~= rest);
}

/// A URI whose text before its first `:` is an ASCII letter followed by
/// one or more ASCII letters, digits, `+`, `-` or `.` splits at that
/// colon: the scheme is that text, and the rest follows the colon, less
/// a leading `//`. (`s3://bucket/clip.mp4` has scheme `s3`.)
pub proof fn law_scheme_of_letters_digits_and_marks(scheme: Seq<char>, rest: Seq<char>)
    requires
        scheme.len() >= 2,
        ('a' <= scheme[0] && scheme[0] <= 'z') || ('A' <= scheme[0] && scheme[0] <= 'Z'),
        forall|j: int|
            0 <= j < scheme.len() ==> {
                let c = #[trigger] scheme[j];
                ||| 'a' <= c && c <= 'z'
                ||| 'A' <= c && c <= 'Z'
                ||| '0' <= c && c <= '9'
                ||| c == '+'
                ||| c == '-'
                ||| c == '.'
            },
    ensures
        scheme_split(scheme + seq![':'] + rest) == (scheme, strip_slashes(rest)),
{
    assert(is_valid_scheme(scheme));
    law_split_of_joined_uri(scheme, rest);
}

/// Text that holds a character other than an ASCII letter, digit, `+`,
/// `-` or `.` before its first `:` names no scheme: the whole input is
/// a `file` path.
pub proof fn law_no_scheme_with_other_characters(u: Seq<char>, i: int, k: int)
    requires
        is_first_colon(u, i),
        0 <= k < i,
        !(('a' <= u[k] && u[k] <= 'z') || ('A' <= u[k] && u[k] <= 'Z') || ('0' <= u[k] && u[k]
            <= '9') || u[k] == '+' || u[k] == '-' || u[k] == '.'),
    ensures
        scheme_split(u) == (file_scheme(), u),
{
    let c = choose|c: int| is_first_colon(u, c);
    if c < i {
        assert(u[c] != ':');
    }
    if i < c {
        assert(u[i] != ':');
    }
    assert(c == i);
    assert(u.take(i)[k] == u[k]);
}

fn is_ascii_alpha_char(c: char) -> (b: bool)
    ensures
        b == is_ascii_alpha(c),
{
    ('a' <= c && c <= 'z') || ('A' <= c && c <= 'Z')
}

fn is_scheme_char_exec(c: char) -> (b: bool)
    ensures
        b == is_scheme_char(c),
{
    is_ascii_alpha_char(c) || ('0' <= c && c <= '9') || c == '+' || c == '-' || c == '.'
}

/// The characters of `v` from `from` to `to`.
fn chars_between(v: &Vec<char>, from: usize, to: usize) -> (r: Vec<char>)
    requires
        from <= to <= v@.len(),
    ensures
        r@ == v@.subrange(from as int, to as int),
{
    let mut r: Vec<char> = Vec::new();
    let mut i: usize = from;
    while i < to
        invariant
            from <= i <= to <= v@.len(),
            r@ == v@.subrange(from as int, i as int),
        decreases to - i,
    {
        r.push(v[i]);
        i += 1;
        assert(r@ =~= v@.subrange(from as int, i as int));
    }
    r
}

/// Split a URI into `(scheme, rest)`; see [`scheme_split`].
pub fn split_scheme(uri: &str) -> (r: (String, String))
    ensures
        (r.0@, r.1@) == scheme_split(uri@),
{
    let u = chars_of(uri);
    let n = u.len();
    let mut i: usize = 0;
    while i < n && u[i] != ':'
        invariant
            u@ == uri@,
            n == u@.len(),
            i <= n,
            forall|j: int| 0 <= j < i ==> #[trigger] u@[j] != ':',
        decreases n - i,
    {
        i += 1;
    }
    let file = string_of_chars(&vec!['f', 'i', 'l', 'e']);
    assert(file@ =~= file_scheme());
    if i == n {
        proof {
            assert forall|k: int| !is_first_colon(uri@, k) by {
                if is_first_colon(uri@, k) {
                    assert(u@[k] == ':');
                }
            }
        }
        return (file, uri.to_owned());
    }
    proof {
        let c = choose|k: int| is_first_colon(uri@, k);
        assert(is_first_colon(uri@, i as int));
        if c < i {
            assert(u@[c] == ':');
        }
        if i < c {
            assert(uri@[i as int] == ':');
        }
    }
    let scheme = chars_between(&u, 0, i);
    assert(scheme@ =~= uri@.take(i as int));
    if i == 1 && is_ascii_alpha_char(u[0]) {
        return (file, uri.to_owned());
    }
    let mut valid = i > 0 && is_ascii_alpha_char(u[0]);
    let mut j: usize = 0;
    while j < i
        invariant
            scheme@ == uri@.take(i as int),
            u@ == uri@,
            n == u@.len(),
            i < n,
            j <= i,
            valid ==> forall|k: int| 0 <= k < j ==> is_scheme_char(#[trigger] scheme@[k]),
            valid ==> (i > 0 && is_ascii_alpha(scheme@[0])),
            !valid ==> !is_valid_scheme(scheme@),
        decreases i - j,
    {
        if !is_scheme_char_exec(u[j]) {
            assert(!is_scheme_char(scheme@[j as int]));
            valid = false;
        }
        j += 1;
    }
    if !valid {
        return (file, uri.to_owned());
    }
    let start: usize = if n - i > 2 && u[i + 1] == '/' && u[i + 2] == '/' {
        i + 3
    } else {
        i + 1
    };
    proof {
        let rest = uri@.skip(i + 1);
        if i + 2 < n && u@[i + 1] == '/' && u@[i + 2] == '/' {
            assert(rest[0] == '/' && rest[1] == '/');
            assert(rest.skip(2) =~= uri@.subrange(i + 3, n as int));
        } else {
            assert(rest =~= uri@.subrange(i + 1, n as int));
        }
    }
    let rest = chars_between(&u, start, n);
    (string_of_chars(&scheme), string_of_chars(&rest))
}

// ───────────────────────── the registry ─────────────────────────

/// The opener registered for a scheme: which shape of source it opens.
pub enum SourceOpener<B, K, F> {
    /// Opens a seekable byte stream.
    Bytes(B),
    /// Opens a producer of demuxed packets.
    Packets(K),
    /// Opens a producer of decoded frames.
    Frames(F),
}

/// Registry mapping URI schemes to opener functions. Each scheme picks
/// one of three opener kinds (bytes `B` / packets `K` / frames `F`) at
/// registration time.
pub struct SourceRegistry<B, K, F> {
    schemes: Vec<Named<SourceOpener<B, K, F>>>,
}

impl<B, K, F> SourceRegistry<B, K, F> {
    /// Openers by (lower-cased) scheme, in registration order.
    pub closed spec fn scheme_table(self) -> Seq<(Seq<char>, SourceOpener<B, K, F>)> {
        table_of(self.schemes@)
    }

    /// No scheme is registered twice.
    pub open spec fn wf(self) -> bool {
        names_unique(self.scheme_table())
    }

    /// An empty registry.
    pub fn new() -> (r: Self)
        ensures
            r.wf(),
            r.scheme_table() == Seq::<(Seq<char>, SourceOpener<B, K, F>)>::empty(),
    {
        let r = SourceRegistry { schemes: Vec::new() };
        assert(r.scheme_table() =~= Seq::<(Seq<char>, SourceOpener<B, K, F>)>::empty());
        r
    }

    fn register(&mut self, scheme: &str, opener: SourceOpener<B, K, F>)
        requires
            old(self).wf(),
        ensures
            final(self).wf(),
            final(self).scheme_table() == registered(
                old(self).scheme_table(),
                lowered(scheme@),
                opener,
            ),
    {
        let key = string_of_chars(&lower_chars(&chars_of(scheme)));
        put_named(&mut self.schemes, key, opener);
    }

    /// Register a byte-stream opener for a scheme. Schemes are
    /// normalised to ASCII lowercase. Replaces any prior registration
    /// (including registrations of other opener kinds).
    pub fn register_bytes(&mut self, scheme: &str, opener: B)
        requires
            old(self).wf(),
        ensures
            final(self).wf(),
            final(self).scheme_table() == registered(
                old(self).scheme_table(),
                lowered(scheme@),
                SourceOpener::Bytes(opener),
            ),
    {
        self.register(scheme, SourceOpener::Bytes(opener));
    }

    /// Register a packet-source opener for a scheme. Schemes are
    /// normalised to ASCII lowercase. Replaces any prior registration
    /// (including registrations of other opener kinds).
    pub fn register_packets(&mut self, scheme: &str, opener: K)
        requires
            old(self).wf(),
        ensures
            final(self).wf(),
            final(self).scheme_table() == registered(
                old(self).scheme_table(),
                lowered(scheme@),
                SourceOpener::Packets(opener),
            ),
    {
        self.register(scheme, SourceOpener::Packets(opener));
    }

    /// Register a frame-source opener for a scheme. Schemes are
    /// normalised to ASCII lowercase. Replaces any prior registration
    /// (including registrations of other opener kinds).
    pub fn register_frames(&mut self, scheme: &str, opener: F)
        requires
            old(self).wf(),
        ensures
            final(self).wf(),
            final(self).scheme_table() == registered(
                old(self).scheme_table(),
                lowered(scheme@),
                SourceOpener::Frames(opener),
            ),
    {
        self.register(scheme, SourceOpener::Frames(opener));
    }

    /// The opener for a URI; the caller runs it on the URI. The URI's
    /// (lower-cased) scheme picks the opener; bare paths and
    /// unregistered schemes fall back to the `file` opener if it is
    /// registered, and are `Error::Unsupported` otherwise.
    pub fn open(&self, uri_str: &str) -> (r: Result<&SourceOpener<B, K, F>, Error>)
        requires
            self.wf(),
        ensures
            ({
                let scheme = lowered(scheme_split(uri_str@).0);
                match lookup(self.scheme_table(), scheme) {
                    Some(o) => r == Ok::<&SourceOpener<B, K, F>, Error>(&o),
                    None => match lookup(self.scheme_table(), file_scheme()) {
                        Some(o) => r == Ok::<&SourceOpener<B, K, F>, Error>(&o),
                        None => r matches Err(Error::Unsupported(m)) && m@ == no_driver_message(
                            scheme,
                            uri_str@,
                        ),
                    },
                }
            }),
    {
        let (scheme, _rest) = split_scheme(uri_str);
        let key = string_of_chars(&lower_chars(&chars_of(scheme.as_str())));
        if let Some(i) = find_named(&self.schemes, &key) {
            return Ok(&self.schemes[i].item);
        }
        let file = string_of_chars(&vec!['f', 'i', 'l', 'e']);
        assert(file@ =~= file_scheme());
        if let Some(i) = find_named(&self.schemes, &file) {
            return Ok(&self.schemes[i].item);
        }
        let mut msg = String::from_str("no source driver for scheme '");
        msg.append(key.as_str());
        msg.append("' (URI: ");
        msg.append(uri_str);
        msg.append(")");
        Err(Error::Unsupported(msg))
    }

    /// The registered schemes, in registration order.
    pub fn schemes(&self) -> (r: Vec<&str>)
        ensures
            r@.len() == self.scheme_table().len(),
            forall|i: int| 0 <= i < r@.len() ==> #[trigger] r@[i]@ == self.scheme_table()[i].0,
    {
        names_of(&self.schemes)
    }
}

impl<B, K, F> Default for SourceRegistry<B, K, F> {
    /// An empty registry.
    fn default() -> (r: Self)
        ensures
            r.wf(),
            r.scheme_table() == Seq::<(Seq<char>, SourceOpener<B, K, F>)>::empty(),
    {
        Self::new()
    }
}

/// The message of the error for a URI that no driver opens.
pub open spec fn no_driver_message(scheme: Seq<char>, uri: Seq<char>) -> Seq<char> {
    "no source driver for scheme '"@ + scheme + "' (URI: "@ + uri + ")"@
}

} // verus!
