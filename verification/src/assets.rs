//! Discord CDN asset *hashes* → decoded images: the official
//! `cdn.discordapp.com` URL for a hash, the initials placeholder, a bounded
//! content cache, and RGBA decoding (done by the `image` crate).
//!
//! The HTTPS fetch itself happens outside the library; what it fetched comes
//! back through [`AssetCache::admit_fetched`].

use crate::ids::{AssetHash, GuildId, UserId};
use crate::text::{
    all_ascii, ascii_upper, decimal, is_whitespace, push_char, push_decimal, seq_starts_with,
    spec_is_whitespace, spec_to_uppercase, starts_with, to_uppercase, chars_of,
};
use std::sync::Arc;
use vstd::prelude::*;
use vstd::string::*;

verus! {

/// Which CDN asset family a hash belongs to (sizes/paths differ).
#[derive(Clone, Copy, Debug, PartialEq, Eq, Structural)]
#[non_exhaustive]
pub enum AssetKind {
    GuildIcon { guild: GuildId },
    UserAvatar { user: UserId },
}

/// An opaque, decoded RGBA image handle. Cheap to clone (ref-counted).
#[derive(Clone, Debug, PartialEq, Eq)]
pub struct ImageHandle {
    pub width: u32,
    pub height: u32,
    pub rgba: Arc<Vec<u8>>,
}

// ---------------------------------------------------------------------------
// CDN URLs
// ---------------------------------------------------------------------------

/// The requested size pinned to the CDN's range `16..=4096`.
pub open spec fn clamp_size(size: u32) -> u32 {
    if size < 16 {
        16
    } else if size > 4096 {
        4096
    } else {
        size
    }
}

/// The path of an asset family on the CDN, up to and including the `/` before
/// the hash.
pub open spec fn cdn_dir(kind: AssetKind) -> Seq<char> {
    match kind {
        AssetKind::GuildIcon { guild } => "https://cdn.discordapp.com/icons/"@ + decimal(guild.0 as nat)
            + "/"@,
        AssetKind::UserAvatar { user } => "https://cdn.discordapp.com/avatars/"@ + decimal(
            user.0 as nat,
        ) + "/"@,
    }
}

/// The file extension for a hash: animated (`a_…`) assets are GIFs, the rest
/// PNGs.
pub open spec fn cdn_ext(hash: Seq<char>) -> Seq<char> {
    if seq_starts_with(hash, "a_"@) {
        "gif"@
    } else {
        "png"@
    }
}

/// The official CDN URL for an asset.
pub open spec fn spec_cdn_url(kind: AssetKind, hash: Seq<char>, size: u32) -> Seq<char> {
    cdn_dir(kind) + hash + "."@ + cdn_ext(hash) + "?size="@ + decimal(clamp_size(size) as nat)
}

/// Every asset kind is requested the same way: the family's path, the hash,
/// then `.gif` exactly when the hash starts with `a_` (an animated asset) and
/// `.png` otherwise, then the size pinned to `16..=4096`.
pub proof fn lemma_cdn_url_shape(kind: AssetKind, hash: Seq<char>, size: u32)
    ensures
        spec_cdn_url(kind, hash, size) == cdn_dir(kind) + hash + (if hash.len() >= 2 && hash[0] == 'a'
            && hash[1] == '_' {
            ".gif"@
        } else {
            ".png"@
        }) + "?size="@ + decimal(
            if size < 16 {
                16nat
            } else if size > 4096 {
                4096nat
            } else {
                size as nat
            },
        ),
{
    reveal_strlit("a_");
    reveal_strlit(".gif");
    reveal_strlit(".png");
    reveal_strlit("gif");
    reveal_strlit("png");
    reveal_strlit(".");
    assert(seq_starts_with(hash, "a_"@) == (hash.len() >= 2 && hash[0] == 'a' && hash[1] == '_')) by {
        assert("a_"@ =~= seq!['a', '_']);
        if hash.len() >= 2 {
            assert(hash.take(2) =~= seq![hash[0], hash[1]]);
            if hash.take(2) == "a_"@ {
                assert(hash.take(2)[0] == 'a' && hash.take(2)[1] == '_');
            }
        }
    }
    assert(hash + "."@ + cdn_ext(hash) =~= hash + (if hash.len() >= 2 && hash[0] == 'a' && hash[1] == '_' {
        ".gif"@
    } else {
        ".png"@
    }));
    assert(spec_cdn_url(kind, hash, size) =~= cdn_dir(kind) + hash + "."@ + cdn_ext(hash) + "?size="@
        + decimal(clamp_size(size) as nat));
}

/// Build the official CDN URL for an asset. Animated hashes (`a_…`) are served
/// as GIF; everything else as PNG. `size` is clamped to `16..=4096`.
pub fn cdn_url(kind: AssetKind, hash: &AssetHash, size: u32) -> (url: String)
    ensures
        url@ == spec_cdn_url(kind, hash@, size),
{
    let animated = starts_with(hash.as_str(), "a_");
    let size = if size < 16 {
        16
    } else if size > 4096 {
        4096
    } else {
        size
    };
    let mut url = match kind {
        AssetKind::GuildIcon { guild } => {
            let mut u = String::from_str("https://cdn.discordapp.com/icons/");
            push_decimal(&mut u, guild.0);
            u
        },
        AssetKind::UserAvatar { user } => {
            let mut u = String::from_str("https://cdn.discordapp.com/avatars/");
            push_decimal(&mut u, user.0);
            u
        },
    };
    url.append("/");
    url.append(hash.as_str());
    url.append(".");
    url.append(if animated { "gif" } else { "png" });
    url.append("?size=");
    push_decimal(&mut url, size as u64);
    assert(url@ =~= spec_cdn_url(kind, hash@, size));
    url
}

// ---------------------------------------------------------------------------
// Initials placeholder
// ---------------------------------------------------------------------------

/// True when position `i` of `s` begins a whitespace-separated word.
pub open spec fn starts_word(s: Seq<char>, i: int) -> bool {
    !spec_is_whitespace(s[i]) && (i == 0 || spec_is_whitespace(s[i - 1]))
}

/// The first character of every whitespace-separated word of `s`, in order.
pub open spec fn word_initials(s: Seq<char>) -> Seq<char>
    decreases s.len(),
{
    if s.len() == 0 {
        seq![]
    } else {
        word_initials(s.drop_last()) + if starts_word(s, s.len() - 1) {
            seq![s.last()]
        } else {
            seq![]
        }
    }
}

/// The first characters of the first two words.
pub open spec fn first_two_initials(name: Seq<char>) -> Seq<char> {
    let w = word_initials(name);
    if w.len() <= 2 {
        w
    } else {
        w.take(2)
    }
}

/// The first characters of the first two words, upper-cased.
pub open spec fn spec_initials(name: Seq<char>) -> Seq<char> {
    spec_to_uppercase(first_two_initials(name))
}

proof fn lemma_word_initials_ascii(s: Seq<char>)
    requires
        all_ascii(s),
    ensures
        all_ascii(word_initials(s)),
    decreases s.len(),
{
    if s.len() > 0 {
        assert(all_ascii(s.drop_last())) by {
            assert forall|i: int| 0 <= i < s.drop_last().len() implies (#[trigger] s.drop_last()[i] as u32)
                < 128 by {
                assert(s.drop_last()[i] == s[i]);
            }
        }
        lemma_word_initials_ascii(s.drop_last());
        let w = word_initials(s);
        let p = word_initials(s.drop_last());
        assert forall|i: int| 0 <= i < w.len() implies (#[trigger] w[i] as u32) < 128 by {
            if i < p.len() {
                assert(w[i] == p[i]);
            } else {
                assert(w[i] == s[s.len() - 1]);
            }
        }
    }
}

/// Initials drawn when an asset is absent/unresolved (the placeholder
/// fallback): the first characters of the first two words, upper-cased. For
/// an ASCII name that is at most two characters.
pub fn initials(name: &str) -> (r: String)
    ensures
        r@ == spec_initials(name@),
        all_ascii(name@) ==> r@ == first_two_initials(name@).map_values(|c: char| ascii_upper(c)),
        all_ascii(name@) ==> r@.len() <= 2,
{
    let cs = chars_of(name);
    let mut firsts: Vec<char> = Vec::new();
    let mut prev_ws = true;
    let mut i: usize = 0;
    while i < cs.len()
        invariant
            cs@ == name@,
            i <= cs.len(),
            firsts@ == word_initials(cs@.take(i as int)),
            i > 0 ==> prev_ws == spec_is_whitespace(cs@[i - 1]),
            i == 0 ==> prev_ws,
        decreases cs.len() - i,
    {
        let ws = is_whitespace(cs[i]);
        let ghost t = cs@.take(i + 1);
        assert(t.drop_last() =~= cs@.take(i as int));
        assert(t.last() == cs@[i as int]);
        assert(starts_word(t, i as int) == (!ws && prev_ws));
        if !ws && prev_ws {
            firsts.push(cs[i]);
        }
        prev_ws = ws;
        i = i + 1;
        assert(firsts@ =~= word_initials(cs@.take(i as int)));
    }
    assert(cs@.take(cs.len() as int) =~= cs@);
    let mut picked = String::new();
    let mut j: usize = 0;
    while j < firsts.len() && j < 2
        invariant
            j <= firsts.len(),
            j <= 2,
            picked@ == firsts@.take(j as int),
        decreases firsts.len() - j,
    {
        push_char(&mut picked, firsts[j]);
        j = j + 1;
        assert(picked@ =~= firsts@.take(j as int));
    }
    proof {
        if firsts@.len() <= 2 {
            assert(firsts@.take(j as int) =~= firsts@);
        }
        if all_ascii(name@) {
            lemma_word_initials_ascii(name@);
            assert forall|k: int| 0 <= k < picked@.len() implies (#[trigger] picked@[k] as u32) < 128 by {
                assert(picked@[k] == firsts@[k]);
            }
        }
    }
    to_uppercase(picked.as_str())
}

// ---------------------------------------------------------------------------
// Decoding (the `image` crate)
// ---------------------------------------------------------------------------

/// What `image::load_from_memory(..)` followed by conversion to 8-bit RGBA
/// yields for some bytes: width, height and pixels, or `None` when the bytes
/// are no decodable image.
pub uninterp spec fn spec_decode_image(bytes: Seq<u8>) -> Option<(u32, u32, Seq<u8>)>;

/// Calls `image::load_from_memory`, then `DynamicImage::to_rgba8` and
/// `ImageBuffer::into_raw`. Claims: the result is a function of the bytes, and
/// the RGBA buffer holds exactly four bytes per pixel.
#[verifier::external_body]
fn decode_image(bytes: &[u8]) -> (r: Option<(u32, u32, Vec<u8>)>)
    ensures
        match r {
            Some((w, h, px)) => spec_decode_image(bytes@) == Some((w, h, px@)) && px@.len() == (w as int)
                * (h as int) * 4,
            None => spec_decode_image(bytes@) is None,
        },
{
    let img = image::load_from_memory(bytes).ok()?;
    let rgba = img.to_rgba8();
    let (w, h) = rgba.dimensions();
    Some((w, h, rgba.into_raw()))
}

/// The handle a successful decode yields.
pub open spec fn handle_matches(h: ImageHandle, d: (u32, u32, Seq<u8>)) -> bool {
    h.width == d.0 && h.height == d.1 && (*h.rgba)@ == d.2
}

/// Decode image bytes (PNG/GIF/JPEG/WebP) into an opaque RGBA `ImageHandle`.
pub fn decode_rgba(bytes: &[u8]) -> (r: Option<ImageHandle>)
    ensures
        match (r, spec_decode_image(bytes@)) {
            (Some(h), Some(d)) => handle_matches(h, d) && (*h.rgba)@.len() == (h.width as int) * (
            h.height as int) * 4,
            (None, None) => true,
            _ => false,
        },
{
    match decode_image(bytes) {
        Some((width, height, px)) => Some(ImageHandle { width, height, rgba: Arc::new(px) }),
        None => None,
    }
}

// ---------------------------------------------------------------------------
// The content cache
// ---------------------------------------------------------------------------

/// The map a list of (key, bytes) entries stands for.
pub open spec fn entries_map(e: Seq<(String, Vec<u8>)>) -> Map<Seq<char>, Seq<u8>>
    decreases e.len(),
{
    if e.len() == 0 {
        Map::empty()
    } else {
        entries_map(e.drop_last()).insert(e.last().0@, e.last().1@)
    }
}

/// No key occurs twice.
pub open spec fn distinct_keys(e: Seq<(String, Vec<u8>)>) -> bool {
    forall|i: int, j: int| 0 <= i < j < e.len() ==> (#[trigger] e[i]).0@ != (#[trigger] e[j]).0@
}

proof fn lemma_distinct_prefix(e: Seq<(String, Vec<u8>)>)
    requires
        distinct_keys(e),
        e.len() > 0,
    ensures
        distinct_keys(e.drop_last()),
{
    let t = e.drop_last();
    assert forall|i: int, j: int| 0 <= i < j < t.len() implies (#[trigger] t[i]).0@ != (
    #[trigger] t[j]).0@ by {
        assert(t[i] == e[i] && t[j] == e[j]);
    }
}

/// The map holds exactly the keys of the entries, each with its entry's bytes,
/// and has one key per entry.
proof fn lemma_entries_map(e: Seq<(String, Vec<u8>)>)
    requires
        distinct_keys(e),
    ensures
        forall|k: Seq<char>| #[trigger]
            entries_map(e).contains_key(k) <==> exists|i: int| 0 <= i < e.len() && (#[trigger] e[i]).0@ == k,
        forall|i: int| 0 <= i < e.len() ==> #[trigger] entries_map(e)[e[i].0@] == e[i].1@,
        entries_map(e).dom().finite(),
        entries_map(e).dom().len() == e.len(),
    decreases e.len(),
{
    if e.len() > 0 {
        let t = e.drop_last();
        lemma_distinct_prefix(e);
        lemma_entries_map(t);
        let k = e.last().0@;
        assert(!entries_map(t).contains_key(k)) by {
            if entries_map(t).contains_key(k) {
                let i = choose|i: int| 0 <= i < t.len() && (#[trigger] t[i]).0@ == k;
                assert(e[i].0@ == e[e.len() - 1].0@);
            }
        }
        assert forall|kk: Seq<char>| #[trigger]
            entries_map(e).contains_key(kk) <==> exists|i: int| 0 <= i < e.len() && (#[trigger] e[i]).0@ == kk by {
            if entries_map(e).contains_key(kk) && kk != k {
                let i = choose|i: int| 0 <= i < t.len() && (#[trigger] t[i]).0@ == kk;
                assert(e[i] == t[i]);
            }
            if exists|i: int| 0 <= i < e.len() && (#[trigger] e[i]).0@ == kk {
                let i = choose|i: int| 0 <= i < e.len() && (#[trigger] e[i]).0@ == kk;
                if i < e.len() - 1 {
                    assert(t[i] == e[i]);
                }
            }
        }
        assert forall|i: int| 0 <= i < e.len() implies #[trigger] entries_map(e)[e[i].0@] == e[i].1@ by {
            if i < e.len() - 1 {
                assert(t[i] == e[i]);
                assert(e[i].0@ != k);
            }
        }
    }
}

/// A list of entries with distinct keys, no more than the capacity, which is
/// at least one.
pub struct AssetCache {
    entries: Vec<(String, Vec<u8>)>,
    cap: usize,
}

impl View for AssetCache {
    type V = Map<Seq<char>, Seq<u8>>;

    closed spec fn view(&self) -> Map<Seq<char>, Seq<u8>> {
        entries_map(self.entries@)
    }
}

impl AssetCache {
    #[verifier::type_invariant]
    spec fn inv(self) -> bool {
        &&& self.cap >= 1
        &&& self.entries@.len() <= self.cap
        &&& distinct_keys(self.entries@)
    }

    /// The most entries the cache holds.
    pub closed spec fn capacity(&self) -> nat {
        self.cap as nat
    }

    /// An empty cache holding at most `cap` entries (at least one).
    pub fn new(cap: usize) -> (c: Self)
        ensures
            c@ == Map::<Seq<char>, Seq<u8>>::empty(),
            c.capacity() == if cap < 1 { 1 } else { cap },
    {
        let cap = if cap < 1 {
            1
        } else {
            cap
        };
        AssetCache { entries: Vec::new(), cap }
    }

    fn find(&self, url: &str) -> (r: Option<usize>)
        ensures
            match r {
                Some(i) => i < self.entries@.len() && self.entries@[i as int].0@ == url@,
                None => forall|i: int| 0 <= i < self.entries@.len() ==> (#[trigger] self.entries@[i]).0@ != url@,
            },
    {
        let key = url.to_owned();
        let mut i: usize = 0;
        while i < self.entries.len()
            invariant
                key@ == url@,
                i <= self.entries@.len(),
                forall|j: int| 0 <= j < i ==> (#[trigger] self.entries@[j]).0@ != url@,
            decreases self.entries.len() - i,
        {
            if self.entries[i].0 == key {
                return Some(i);
            }
            i = i + 1;
        }
        None
    }

    /// The bytes cached for `url`, if any.
    pub fn get(&self, url: &str) -> (r: Option<Vec<u8>>)
        ensures
            r is Some <==> self@.contains_key(url@),
            r matches Some(b) ==> b@ == self@[url@],
    {
        proof {
            use_type_invariant(self);
            lemma_entries_map(self.entries@);
        }
        match self.find(url) {
            Some(i) => {
                let b = self.entries[i].1.clone();
                assert(b@ =~= self.entries@[i as int].1@);
                Some(b)
            },
            None => None,
        }
    }

    /// Insert, evicting one other entry when the cache is full and `url` is
    /// new. The cache never exceeds its capacity.
    pub fn put(&mut self, url: String, bytes: Vec<u8>)
        ensures
            final(self).capacity() == old(self).capacity(),
            final(self)@.dom().finite(),
            final(self)@.dom().len() <= final(self).capacity(),
            (old(self)@.contains_key(url@) || old(self)@.dom().len() < old(self).capacity())
                ==> final(self)@ == old(self)@.insert(url@, bytes@),
            (!old(self)@.contains_key(url@) && old(self)@.dom().len() >= old(self).capacity())
                ==> (exists|k: Seq<char>| old(self)@.contains_key(k) && k != url@
                    && #[trigger] old(self)@.remove(k).insert(url@, bytes@) == final(self)@),
    {
        proof {
            use_type_invariant(&*self);
            lemma_entries_map(self.entries@);
        }
        let ghost old_e = self.entries@;
        let ghost old_map = entries_map(old_e);
        match self.find(url.as_str()) {
            Some(i) => {
                let ghost k = url@;
                let mut entries: Vec<(String, Vec<u8>)> = Vec::new();
                std::mem::swap(&mut entries, &mut self.entries);
                entries.set(i, (url, bytes));
                proof {
                    let e = entries@;
                    assert(distinct_keys(e)) by {
                        assert forall|a: int, b: int| 0 <= a < b < e.len() implies (#[trigger] e[a]).0@
                            != (#[trigger] e[b]).0@ by {
                            if a != i && b != i {
                                assert(e[a] == old_e[a] && e[b] == old_e[b]);
                            } else if a == i {
                                assert(e[b] == old_e[b]);
                                assert(old_e[i as int].0@ != old_e[b].0@);
                            } else {
                                assert(e[a] == old_e[a]);
                                assert(old_e[a].0@ != old_e[i as int].0@);
                            }
                        }
                    }
                    lemma_entries_map(e);
                    assert(entries_map(e) =~= old_map.insert(k, bytes@)) by {
                        assert forall|kk: Seq<char>| #[trigger] entries_map(e).contains_key(kk)
                            <==> old_map.insert(k, bytes@).contains_key(kk) by {
                            if entries_map(e).contains_key(kk) {
                                let j = choose|j: int| 0 <= j < e.len() && (#[trigger] e[j]).0@ == kk;
                                if j != i {
                                    assert(e[j] == old_e[j]);
                                }
                            }
                            if old_map.contains_key(kk) && kk != k {
                                let j = choose|j: int| 0 <= j < old_e.len() && (#[trigger] old_e[j]).0@ == kk;
                                assert(e[j] == old_e[j]);
                            }
                            assert(e[i as int].0@ == k);
                        }
                        assert forall|kk: Seq<char>| #[trigger] entries_map(e).contains_key(kk) implies
                            entries_map(e)[kk] == old_map.insert(k, bytes@)[kk] by {
                            let j = choose|j: int| 0 <= j < e.len() && (#[trigger] e[j]).0@ == kk;
                            if j != i {
                                assert(e[j] == old_e[j]);
                            }
                        }
                    }
                }
                self.entries = entries;
            },
            None => {
                let mut entries: Vec<(String, Vec<u8>)> = Vec::new();
                std::mem::swap(&mut entries, &mut self.entries);
                let ghost evicted = if entries@.len() >= self.cap { Some(entries@[0].0@) } else { None };
                if entries.len() >= self.cap {
                    entries.remove(0);
                }
                let ghost mid = entries@;
                proof {
                    assert(distinct_keys(mid)) by {
                        assert forall|a: int, b: int| 0 <= a < b < mid.len() implies (#[trigger] mid[a]).0@
                            != (#[trigger] mid[b]).0@ by {
                            if evicted is Some {
                                assert(mid[a] == old_e[a + 1] && mid[b] == old_e[b + 1]);
                            } else {
                                assert(mid[a] == old_e[a] && mid[b] == old_e[b]);
                            }
                        }
                    }
                    lemma_entries_map(mid);
                }
                let ghost key = url@;
                entries.push((url, bytes));
                proof {
                    let e = entries@;
                    assert(e.drop_last() =~= mid);
                    assert(distinct_keys(e)) by {
                        assert forall|a: int, b: int| 0 <= a < b < e.len() implies (#[trigger] e[a]).0@
                            != (#[trigger] e[b]).0@ by {
                            assert(e[a] == mid[a] || a == e.len() - 1);
                            if b == e.len() - 1 {
                                if evicted is Some {
                                    assert(mid[a] == old_e[a + 1]);
                                } else {
                                    assert(mid[a] == old_e[a]);
                                }
                            } else {
                                assert(e[b] == mid[b]);
                            }
                        }
                    }
                    assert(entries_map(e) == entries_map(mid).insert(key, bytes@));
                    match evicted {
                        Some(k0) => {
                            assert(entries_map(mid) =~= old_map.remove(k0)) by {
                                assert forall|kk: Seq<char>| #[trigger] entries_map(mid).contains_key(kk)
                                    <==> old_map.remove(k0).contains_key(kk) by {
                                    if entries_map(mid).contains_key(kk) {
                                        let j = choose|j: int| 0 <= j < mid.len() && (#[trigger] mid[j]).0@ == kk;
                                        assert(mid[j] == old_e[j + 1]);
                                        assert(old_e[0].0@ != old_e[j + 1].0@);
                                    }
                                    if old_map.contains_key(kk) && kk != k0 {
                                        let j = choose|j: int| 0 <= j < old_e.len() && (#[trigger] old_e[j]).0@ == kk;
                                        assert(j != 0);
                                        assert(mid[j - 1] == old_e[j]);
                                    }
                                }
                                assert forall|kk: Seq<char>| #[trigger] entries_map(mid).contains_key(kk) implies
                                    entries_map(mid)[kk] == old_map.remove(k0)[kk] by {
                                    let j = choose|j: int| 0 <= j < mid.len() && (#[trigger] mid[j]).0@ == kk;
                                    assert(mid[j] == old_e[j + 1]);
                                }
                            }
                            assert(old_map.contains_key(k0)) by {
                                assert(old_e[0].0@ == k0);
                            }
                            assert(old_map.remove(k0).insert(key, bytes@) == entries_map(e));
                        },
                        None => {
                            assert(mid =~= old_e);
                        },
                    }
                    lemma_entries_map(e);
                }
                self.entries = entries;
            },
        }
    }

    /// Number of cached entries.
    pub fn len(&self) -> (n: usize)
        ensures
            n == self@.dom().len(),
            self@.dom().finite(),
            n <= self.capacity(),
    {
        proof {
            use_type_invariant(self);
            lemma_entries_map(self.entries@);
        }
        self.entries.len()
    }

    /// True when nothing is cached.
    pub fn is_empty(&self) -> (b: bool)
        ensures
            b == (self@.dom().len() == 0),
    {
        self.len() == 0
    }

    /// The cache's answer for `url` before any fetch: `None` when nothing is
    /// cached, otherwise the decoding of the cached bytes (which is `None`
    /// again if they do not decode).
    pub fn cached_image(&self, url: &str) -> (r: Option<Option<ImageHandle>>)
        ensures
            r is Some <==> self@.contains_key(url@),
            r matches Some(img) ==> match (img, spec_decode_image(self@[url@])) {
                (Some(h), Some(d)) => handle_matches(h, d),
                (None, None) => true,
                _ => false,
            },
    {
        match self.get(url) {
            Some(bytes) => Some(decode_rgba(bytes.as_slice())),
            None => None,
        }
    }

    /// Take freshly fetched bytes for `url`: only bytes that decode are cached,
    /// and the decoded image (if any) is returned.
    pub fn admit_fetched(&mut self, url: String, bytes: Vec<u8>) -> (r: Option<ImageHandle>)
        ensures
            match (r, spec_decode_image(bytes@)) {
                (Some(h), Some(d)) => handle_matches(h, d),
                (None, None) => true,
                _ => false,
            },
            r is None ==> final(self)@ == old(self)@,
            r is Some ==> final(self)@.contains_key(url@) && final(self)@[url@] == bytes@,
            r is Some && (old(self)@.contains_key(url@) || old(self)@.dom().len() < old(self).capacity())
                ==> final(self)@ == old(self)@.insert(url@, bytes@),
            r is Some && !old(self)@.contains_key(url@) && old(self)@.dom().len() >= old(self).capacity()
                ==> (exists|k: Seq<char>| old(self)@.contains_key(k) && k != url@
                    && #[trigger] old(self)@.remove(k).insert(url@, bytes@) == final(self)@),
            final(self).capacity() == old(self).capacity(),
            final(self)@.dom().finite(),
            final(self)@.dom().len() <= final(self).capacity(),
    {
        proof {
            use_type_invariant(&*self);
            lemma_entries_map(self.entries@);
        }
        let handle = decode_rgba(bytes.as_slice());
        if handle.is_some() {
            self.put(url, bytes);
        }
        handle
    }
}

} // verus!
