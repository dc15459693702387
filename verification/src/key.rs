//! Shaping requests and their fingerprints.
//!
//! A request is written out as a byte string in which every field can be
//! found again, and the fingerprint is the digest of that string. Equal
//! requests therefore always have equal fingerprints, and requests that
//! differ in anything, down to one bit of a size or bound, are digests of
//! different strings.

use crate::digest::xxh64;
use crate::digest::xxh64_digest;
use crate::font::Font;
use crate::font::FontView;
use vstd::prelude::*;
use vstd::utf8::*;

verus! {

/// The seed of every fingerprint.
pub const SEED: u64 = 0;

/// A width and a height, each the bit pattern of a single-precision float.
#[derive(Clone, Copy, Debug)]
pub struct Size {
    pub width: u32,
    pub height: u32,
}

/// A request to shape `content` in `font` at `size`, wrapped to `bounds`.
///
/// `size` is the bit pattern of a single-precision float, as are the two
/// fields of `bounds`.
#[derive(Clone, Copy, Debug)]
pub struct Key<'a> {
    pub content: &'a str,
    pub size: u32,
    pub font: Font,
    pub bounds: Size,
}

/// What a [`Key`] denotes.
pub struct KeyView {
    pub content: Seq<char>,
    pub size: u32,
    pub font: FontView,
    pub bounds: Size,
}

impl<'a> View for Key<'a> {
    type V = KeyView;

    open spec fn view(&self) -> KeyView {
        KeyView { content: self.content@, size: self.size, font: self.font@, bounds: self.bounds }
    }
}

/// 256 to the power `width`.
pub open spec fn radix(width: nat) -> nat
    decreases width,
{
    if width == 0 {
        1
    } else {
        256 * radix((width - 1) as nat)
    }
}

/// The `width` low bytes of `value`, least significant first.
pub open spec fn le_bytes(value: nat, width: nat) -> Seq<u8>
    decreases width,
{
    if width == 0 {
        Seq::empty()
    } else {
        seq![(value % 256) as u8] + le_bytes(value / 256, (width - 1) as nat)
    }
}

/// A text as bytes: the length of its UTF-8 form in eight bytes, then that form.
pub open spec fn text_bytes(text: Seq<char>) -> Seq<u8> {
    le_bytes(encode_utf8(text).len(), 8) + encode_utf8(text)
}

/// A font as bytes: one byte for the variant, then the name of a named family.
pub open spec fn font_bytes(font: FontView) -> Seq<u8> {
    match font {
        FontView::Name(name) => seq![0u8] + text_bytes(name),
        FontView::SansSerif => seq![1u8],
        FontView::Serif => seq![2u8],
        FontView::Cursive => seq![3u8],
        FontView::Fantasy => seq![4u8],
        FontView::Monospace => seq![5u8],
    }
}

/// A request as bytes: content, size, font, width and height, in that order.
pub open spec fn key_bytes(key: KeyView) -> Seq<u8> {
    text_bytes(key.content) + le_bytes(key.size as nat, 4) + font_bytes(key.font) + le_bytes(
        key.bounds.width as nat,
        4,
    ) + le_bytes(key.bounds.height as nat, 4)
}

/// The fingerprint of a request.
pub open spec fn fingerprint_of(key: KeyView) -> u64 {
    xxh64_digest(SEED, key_bytes(key))
}

impl KeyView {
    /// The lengths of the content and of a family name fit in eight bytes.
    pub open spec fn fits(self) -> bool {
        &&& encode_utf8(self.content).len() < radix(8)
        &&& match self.font {
            FontView::Name(name) => encode_utf8(name).len() < radix(8),
            _ => true,
        }
    }
}

/// Appends the `width` low bytes of `value`, least significant first.
fn push_le(bytes: &mut Vec<u8>, value: u64, width: usize)
    ensures
        final(bytes)@ == old(bytes)@ + le_bytes(value as nat, width as nat),
{
    let ghost start = bytes@;
    let mut rest = value;
    let mut done: usize = 0;
    while done < width
        invariant
            done <= width,
            bytes@ + le_bytes(rest as nat, (width - done) as nat) == start + le_bytes(
                value as nat,
                width as nat,
            ),
        decreases width - done,
    {
        let ghost before = bytes@;
        bytes.push((rest % 256) as u8);
        proof {
            let tail = le_bytes((rest / 256) as nat, (width - done - 1) as nat);
            assert(le_bytes(rest as nat, (width - done) as nat) == seq![(rest % 256) as u8] + tail);
            assert(bytes@ + tail =~= before + (seq![(rest % 256) as u8] + tail));
        }
        rest = rest / 256;
        done += 1;
    }
}

/// Appends a text: the length of its UTF-8 form, then that form.
fn push_text(bytes: &mut Vec<u8>, text: &str)
    ensures
        final(bytes)@ == old(bytes)@ + text_bytes(text@),
        encode_utf8(text@).len() < radix(8),
{
    let raw = text.as_bytes();
    let ghost start = bytes@;
    proof {
        assert(radix(8) == 0x1_0000_0000_0000_0000) by {
            reveal_with_fuel(radix, 9);
        }
    }
    push_le(bytes, raw.len() as u64, 8);
    let ghost with_len = bytes@;
    bytes.extend_from_slice(raw);
    assert(bytes@ =~= with_len + raw@);
    assert(bytes@ =~= start + text_bytes(text@));
}

impl<'a> Key<'a> {
    /// Writes the request out as bytes.
    pub fn encode(&self) -> (bytes: Vec<u8>)
        ensures
            bytes@ == key_bytes(self@),
            self@.fits(),
    {
        let mut bytes: Vec<u8> = Vec::new();
        push_text(&mut bytes, self.content);
        push_le(&mut bytes, self.size as u64, 4);
        match self.font {
            Font::Name(name) => {
                bytes.push(0);
                push_text(&mut bytes, name);
            },
            Font::SansSerif => bytes.push(1),
            Font::Serif => bytes.push(2),
            Font::Cursive => bytes.push(3),
            Font::Fantasy => bytes.push(4),
            Font::Monospace => bytes.push(5),
        }
        let ghost with_font = bytes@;
        assert(with_font =~= text_bytes(self@.content) + le_bytes(self.size as nat, 4) + font_bytes(
            self@.font,
        ));
        push_le(&mut bytes, self.bounds.width as u64, 4);
        push_le(&mut bytes, self.bounds.height as u64, 4);
        bytes
    }

    /// The fingerprint of the request: the digest of its bytes.
    ///
    /// Requests that agree in content, font and every bit of size and bounds
    /// have the same fingerprint, in every process.
    pub fn fingerprint(&self) -> (hash: u64)
        ensures
            hash == fingerprint_of(self@),
    {
        let bytes = self.encode();
        xxh64(SEED, bytes.as_slice())
    }
}

pub proof fn lemma_le_bytes_len(value: nat, width: nat)
    ensures
        le_bytes(value, width).len() == width,
    decreases width,
{
    if width > 0 {
        lemma_le_bytes_len(value / 256, (width - 1) as nat);
    }
}

/// Below `radix(width)`, a value is determined by its `width` low bytes.
pub proof fn lemma_le_bytes_injective(a: nat, b: nat, width: nat)
    requires
        a < radix(width),
        b < radix(width),
        le_bytes(a, width) == le_bytes(b, width),
    ensures
        a == b,
    decreases width,
{
    if width > 0 {
        let rest = (width - 1) as nat;
        lemma_le_bytes_len(a / 256, rest);
        lemma_le_bytes_len(b / 256, rest);
        let ra = le_bytes(a / 256, rest);
        let rb = le_bytes(b / 256, rest);
        assert(le_bytes(a, width)[0] == (a % 256) as u8);
        assert(le_bytes(b, width)[0] == (b % 256) as u8);
        assert(a % 256 == b % 256);
        assert(ra =~= le_bytes(a, width).subrange(1, width as int));
        assert(rb =~= le_bytes(b, width).subrange(1, width as int));
        lemma_le_bytes_injective(a / 256, b / 256, rest);
    }
}

/// Two strings with equal heads of one length have equal tails.
proof fn lemma_split_at(head_a: Seq<u8>, tail_a: Seq<u8>, head_b: Seq<u8>, tail_b: Seq<u8>)
    requires
        head_a.len() == head_b.len(),
        head_a + tail_a == head_b + tail_b,
    ensures
        head_a == head_b,
        tail_a == tail_b,
{
    let whole_a = head_a + tail_a;
    let whole_b = head_b + tail_b;
    let n = head_a.len() as int;
    assert(head_a =~= whole_a.subrange(0, n));
    assert(head_b =~= whole_b.subrange(0, n));
    assert(tail_a =~= whole_a.subrange(n, whole_a.len() as int));
    assert(tail_b =~= whole_b.subrange(n, whole_b.len() as int));
}

/// A text can be read back from the front of a byte string: what follows
/// it there does not change where it ends.
pub proof fn lemma_text_bytes_prefix(a: Seq<char>, after_a: Seq<u8>, b: Seq<char>, after_b: Seq<u8>)
    requires
        encode_utf8(a).len() < radix(8),
        encode_utf8(b).len() < radix(8),
        text_bytes(a) + after_a == text_bytes(b) + after_b,
    ensures
        a == b,
        after_a == after_b,
{
    let raw_a = encode_utf8(a);
    let raw_b = encode_utf8(b);
    let len_a = le_bytes(raw_a.len(), 8);
    let len_b = le_bytes(raw_b.len(), 8);
    lemma_le_bytes_len(raw_a.len(), 8);
    lemma_le_bytes_len(raw_b.len(), 8);
    assert(text_bytes(a) + after_a =~= len_a + (raw_a + after_a));
    assert(text_bytes(b) + after_b =~= len_b + (raw_b + after_b));
    lemma_split_at(len_a, raw_a + after_a, len_b, raw_b + after_b);
    lemma_le_bytes_injective(raw_a.len(), raw_b.len(), 8);
    lemma_split_at(raw_a, after_a, raw_b, after_b);
    encode_utf8_decode_utf8(a);
    encode_utf8_decode_utf8(b);
}

/// A font can be read back from the front of a byte string.
pub proof fn lemma_font_bytes_prefix(a: FontView, after_a: Seq<u8>, b: FontView, after_b: Seq<u8>)
    requires
        a matches FontView::Name(name) ==> encode_utf8(name).len() < radix(8),
        b matches FontView::Name(name) ==> encode_utf8(name).len() < radix(8),
        font_bytes(a) + after_a == font_bytes(b) + after_b,
    ensures
        a == b,
        after_a == after_b,
{
    let whole_a = font_bytes(a) + after_a;
    let whole_b = font_bytes(b) + after_b;
    assert(whole_a[0] == font_bytes(a)[0]);
    assert(whole_b[0] == font_bytes(b)[0]);
    match (a, b) {
        (FontView::Name(name_a), FontView::Name(name_b)) => {
            assert(whole_a =~= seq![0u8] + (text_bytes(name_a) + after_a));
            assert(whole_b =~= seq![0u8] + (text_bytes(name_b) + after_b));
            lemma_split_at(
                seq![0u8],
                text_bytes(name_a) + after_a,
                seq![0u8],
                text_bytes(name_b) + after_b,
            );
            lemma_text_bytes_prefix(name_a, after_a, name_b, after_b);
        },
        _ => {
            lemma_split_at(font_bytes(a), after_a, font_bytes(b), after_b);
        },
    }
}

/// Requests that are written as the same bytes are the same request.
pub proof fn lemma_key_bytes_injective(a: KeyView, b: KeyView)
    requires
        a.fits(),
        b.fits(),
        key_bytes(a) == key_bytes(b),
    ensures
        a == b,
{
    let size_a = le_bytes(a.size as nat, 4);
    let size_b = le_bytes(b.size as nat, 4);
    let width_a = le_bytes(a.bounds.width as nat, 4);
    let width_b = le_bytes(b.bounds.width as nat, 4);
    let height_a = le_bytes(a.bounds.height as nat, 4);
    let height_b = le_bytes(b.bounds.height as nat, 4);
    lemma_le_bytes_len(a.size as nat, 4);
    lemma_le_bytes_len(b.size as nat, 4);
    lemma_le_bytes_len(a.bounds.width as nat, 4);
    lemma_le_bytes_len(b.bounds.width as nat, 4);
    lemma_le_bytes_len(a.bounds.height as nat, 4);
    lemma_le_bytes_len(b.bounds.height as nat, 4);
    assert(radix(4) == 0x1_0000_0000) by {
        reveal_with_fuel(radix, 5);
    }

    let after_content_a = size_a + (font_bytes(a.font) + (width_a + height_a));
    let after_content_b = size_b + (font_bytes(b.font) + (width_b + height_b));
    assert(key_bytes(a) =~= text_bytes(a.content) + after_content_a);
    assert(key_bytes(b) =~= text_bytes(b.content) + after_content_b);
    lemma_text_bytes_prefix(a.content, after_content_a, b.content, after_content_b);

    lemma_split_at(
        size_a,
        font_bytes(a.font) + (width_a + height_a),
        size_b,
        font_bytes(b.font) + (width_b + height_b),
    );
    lemma_le_bytes_injective(a.size as nat, b.size as nat, 4);

    lemma_font_bytes_prefix(a.font, width_a + height_a, b.font, width_b + height_b);

    lemma_split_at(width_a, height_a, width_b, height_b);
    lemma_le_bytes_injective(a.bounds.width as nat, b.bounds.width as nat, 4);
    lemma_le_bytes_injective(a.bounds.height as nat, b.bounds.height as nat, 4);
}

/// Requests that agree in content, font and every bit of size and bounds
/// have the same fingerprint.
pub proof fn lemma_fingerprint_deterministic(a: Key<'_>, b: Key<'_>)
    requires
        a.content@ == b.content@,
        a.font@ == b.font@,
        a.size == b.size,
        a.bounds.width == b.bounds.width,
        a.bounds.height == b.bounds.height,
    ensures
        fingerprint_of(a@) == fingerprint_of(b@),
{
    assert(a@ == b@);
}

/// Requests that differ in anything are digests of different bytes.
pub proof fn lemma_any_difference_changes_bytes(a: KeyView, b: KeyView)
    requires
        a.fits(),
        b.fits(),
        a != b,
    ensures
        key_bytes(a) != key_bytes(b),
{
    if key_bytes(a) == key_bytes(b) {
        lemma_key_bytes_injective(a, b);
    }
}

/// No bit of a bound is rounded away: a request whose width differs in the
/// lowest bit alone is the digest of different bytes.
pub proof fn lemma_lowest_bit_of_width_counts(a: KeyView, b: KeyView)
    requires
        a.fits(),
        b == (KeyView { bounds: Size { width: a.bounds.width ^ 1, ..a.bounds }, ..a }),
    ensures
        key_bytes(a) != key_bytes(b),
{
    let width = a.bounds.width;
    assert(width ^ 1 != width) by (bit_vector);
    lemma_any_difference_changes_bytes(a, b);
}

} // verus!
