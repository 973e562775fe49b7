//! Cache keys of the hover preview.
//!
//! A key is a hash of the words that decide what the preview shows. The hasher is
//! seeded at run time, so a key is not fixed; which words go into it, and in which
//! order, is.

use std::hash::{Hash, Hasher};
use vstd::prelude::*;

use crate::preview::mode::PreviewMode;
use crate::voxelle::VoxelCoord;

verus! {

/// One word of a cache key.
#[derive(Clone, Copy, Debug, PartialEq, Eq, Hash, Structural)]
pub enum KeyWord {
    Mode(PreviewMode),
    Byte(u8),
    Int(i32),
    Word(u32),
    Long(u64),
    Count(usize),
    Flag(bool),
    Letter(u32),
    TextEnd,
    Present,
    Absent,
}

/// A hash that `ahash::AHasher::default` gives for a list of words in some process.
pub uninterp spec fn possible_key(words: Seq<KeyWord>, key: u64) -> bool;

/// `ahash::AHasher::default`: the hash of a list of words by a hasher with the keys
/// of this process. It is a hash of just these words; which one is not stated,
/// since the keys are drawn at run time.
#[verifier::external_body]
pub(crate) fn hash_words(words: &Vec<KeyWord>) -> (r: u64)
    ensures
        possible_key(words@, r),
{
    let mut h = ahash::AHasher::default();
    words.hash(&mut h);
    h.finish()
}

/// The letters of a text.
pub open spec fn letters(s: Seq<char>) -> Seq<KeyWord>
    decreases s.len(),
{
    if s.len() == 0 {
        seq![]
    } else {
        letters(s.drop_last()).push(KeyWord::Letter(s.last() as u32))
    }
}

/// The letters of a text, one by one.
pub proof fn lemma_letters(s: Seq<char>)
    ensures
        letters(s).len() == s.len(),
        forall|i: int| 0 <= i < s.len() ==> #[trigger] letters(s)[i] == KeyWord::Letter(s[i] as u32),
    decreases s.len(),
{
    if s.len() > 0 {
        lemma_letters(s.drop_last());
    }
}

/// The letters of a text, and its end.
pub open spec fn text_words(s: Seq<char>) -> Seq<KeyWord> {
    letters(s).push(KeyWord::TextEnd)
}

/// The coordinates of a list of cells.
pub open spec fn pin_words(pins: Seq<VoxelCoord>) -> Seq<KeyWord>
    decreases pins.len(),
{
    if pins.len() == 0 {
        seq![]
    } else {
        pin_words(pins.drop_last()) + seq![
            KeyWord::Int(pins.last().0),
            KeyWord::Int(pins.last().1),
            KeyWord::Int(pins.last().2),
        ]
    }
}

/// A number that may be missing.
pub open spec fn maybe_words(v: Option<u32>) -> Seq<KeyWord> {
    match v {
        Some(n) => seq![KeyWord::Present, KeyWord::Word(n)],
        None => seq![KeyWord::Absent],
    }
}

/// Appends a list of words.
pub fn push_words(words: &mut Vec<KeyWord>, more: &Vec<KeyWord>)
    ensures
        final(words)@ == old(words)@ + more@,
{
    let ghost start = words@;
    let mut i: usize = 0;
    assert(words@ =~= start + more@.take(0));
    while i < more.len()
        invariant
            0 <= i <= more@.len(),
            words@ == start + more@.take(i as int),
        decreases more@.len() - i,
    {
        words.push(more[i]);
        assert(words@ =~= start + more@.take(i as int + 1));
        i += 1;
    }
    assert(more@.take(i as int) =~= more@);
}

/// Appends the letters of a text, and its end.
pub fn push_text(words: &mut Vec<KeyWord>, s: &str)
    ensures
        final(words)@ == old(words)@ + text_words(s@),
{
    let n: usize = s.unicode_len();
    let ghost start = words@;
    let mut i: usize = 0;
    assert(s@.take(0) =~= Seq::<char>::empty());
    assert(words@ =~= start + letters(s@.take(0)));
    while i < n
        invariant
            0 <= i <= n,
            n == s@.len(),
            words@ == start + letters(s@.take(i as int)),
        decreases n - i,
    {
        words.push(KeyWord::Letter(s.get_char(i) as u32));
        assert(s@.take(i as int + 1).drop_last() =~= s@.take(i as int));
        assert(words@ =~= start + letters(s@.take(i as int + 1)));
        i += 1;
    }
    assert(s@.take(i as int) =~= s@);
    words.push(KeyWord::TextEnd);
    assert(words@ =~= start + text_words(s@));
}

/// Appends the coordinates of a list of cells.
pub fn push_pins(words: &mut Vec<KeyWord>, pins: &Vec<VoxelCoord>)
    ensures
        final(words)@ == old(words)@ + pin_words(pins@),
{
    let ghost start = words@;
    let mut i: usize = 0;
    assert(pins@.take(0) =~= Seq::<VoxelCoord>::empty());
    assert(words@ =~= start + pin_words(pins@.take(0)));
    while i < pins.len()
        invariant
            0 <= i <= pins@.len(),
            words@ == start + pin_words(pins@.take(i as int)),
        decreases pins@.len() - i,
    {
        let p: VoxelCoord = pins[i];
        words.push(KeyWord::Int(p.0));
        words.push(KeyWord::Int(p.1));
        words.push(KeyWord::Int(p.2));
        assert(pins@.take(i as int + 1).drop_last() =~= pins@.take(i as int));
        assert(words@ =~= start + pin_words(pins@.take(i as int + 1)));
        i += 1;
    }
    assert(pins@.take(i as int) =~= pins@);
}

/// Appends a number that may be missing.
pub fn push_maybe(words: &mut Vec<KeyWord>, v: Option<u32>)
    ensures
        final(words)@ == old(words)@ + maybe_words(v),
{
    let ghost start = words@;
    match v {
        Some(n) => {
            words.push(KeyWord::Present);
            words.push(KeyWord::Word(n));
        },
        None => {
            words.push(KeyWord::Absent);
        },
    }
    assert(words@ =~= start + maybe_words(v));
}

/// Words of the key of a preview of one cell. The key holds the cell and no finer
/// position of the pointer, so it stays the same while the pointer is in the cell.
pub open spec fn single_cell_key(
    mode: PreviewMode,
    c: VoxelCoord,
    tag: u8,
    debug_overlay: bool,
    palette_color: u32,
    object_id: u32,
) -> Seq<KeyWord> {
    seq![
        KeyWord::Mode(mode),
        KeyWord::Int(c.0),
        KeyWord::Int(c.1),
        KeyWord::Int(c.2),
        KeyWord::Byte(tag),
        KeyWord::Flag(debug_overlay),
        KeyWord::Word(palette_color),
        KeyWord::Word(object_id),
    ]
}

/// Words of the key of a preview of one cell.
pub fn single_cell_words(
    mode: PreviewMode,
    cx: i32,
    cy: i32,
    cz: i32,
    tag: u8,
    debug_overlay: bool,
    palette_color: u32,
    object_id: u32,
) -> (words: Vec<KeyWord>)
    ensures
        words@ == single_cell_key(
            mode,
            (cx, cy, cz),
            tag,
            debug_overlay,
            palette_color,
            object_id,
        ),
{
    let words = vec![
        KeyWord::Mode(mode),
        KeyWord::Int(cx),
        KeyWord::Int(cy),
        KeyWord::Int(cz),
        KeyWord::Byte(tag),
        KeyWord::Flag(debug_overlay),
        KeyWord::Word(palette_color),
        KeyWord::Word(object_id),
    ];
    assert(words@ =~= single_cell_key(
        mode,
        (cx, cy, cz),
        tag,
        debug_overlay,
        palette_color,
        object_id,
    ));
    words
}

/// Cache key of a preview of one cell.
pub fn hash_single_cell_preview(
    mode: PreviewMode,
    cx: i32,
    cy: i32,
    cz: i32,
    tag: u8,
    debug_overlay: bool,
    palette_color: u32,
    object_id: u32,
) -> (r: u64)
    ensures
        possible_key(
            single_cell_key(mode, (cx, cy, cz), tag, debug_overlay, palette_color, object_id),
            r,
        ),
{
    hash_words(
        &single_cell_words(mode, cx, cy, cz, tag, debug_overlay, palette_color, object_id),
    )
}

/// Words of the key of a preview that found no cell.
pub open spec fn miss_key(mode: PreviewMode, debug_overlay: bool) -> Seq<KeyWord> {
    seq![KeyWord::Mode(mode), KeyWord::Byte(0x7F), KeyWord::Flag(debug_overlay)]
}

/// Words of the key of a preview that found no cell.
pub fn miss_words(mode: PreviewMode, debug_overlay: bool) -> (words: Vec<KeyWord>)
    ensures
        words@ == miss_key(mode, debug_overlay),
{
    let words = vec![KeyWord::Mode(mode), KeyWord::Byte(0x7F), KeyWord::Flag(debug_overlay)];
    assert(words@ =~= miss_key(mode, debug_overlay));
    words
}

/// Cache key of a preview that found no cell.
pub fn hash_preview_miss(mode: PreviewMode, debug_overlay: bool) -> (r: u64)
    ensures
        possible_key(miss_key(mode, debug_overlay), r),
{
    hash_words(&miss_words(mode, debug_overlay))
}

/// Keys of previews of one cell have the same words only for the same cell, mode,
/// tag, overlay, colour and object, and never those of a preview that found none.
pub proof fn law_single_cell_key(
    mode: PreviewMode,
    c: VoxelCoord,
    tag: u8,
    debug_overlay: bool,
    palette_color: u32,
    object_id: u32,
    mode2: PreviewMode,
    c2: VoxelCoord,
    tag2: u8,
    debug_overlay2: bool,
    palette_color2: u32,
    object_id2: u32,
)
    ensures
        single_cell_key(mode, c, tag, debug_overlay, palette_color, object_id) == single_cell_key(
            mode2,
            c2,
            tag2,
            debug_overlay2,
            palette_color2,
            object_id2,
        ) ==> mode == mode2 && c == c2 && tag == tag2 && debug_overlay == debug_overlay2
            && palette_color == palette_color2 && object_id == object_id2,
        single_cell_key(mode, c, tag, debug_overlay, palette_color, object_id) != miss_key(
            mode2,
            debug_overlay2,
        ),
{
    let a = single_cell_key(mode, c, tag, debug_overlay, palette_color, object_id);
    let b = single_cell_key(mode2, c2, tag2, debug_overlay2, palette_color2, object_id2);
    if a == b {
        assert(a[0] == b[0] && a[1] == b[1] && a[2] == b[2] && a[3] == b[3] && a[4] == b[4] && a[5]
            == b[5] && a[6] == b[6] && a[7] == b[7]);
    }
    assert(a.len() == 8);
    assert(miss_key(mode2, debug_overlay2).len() == 3);
}

/// Letters with the same number are the same.
proof fn lemma_letter(a: char, b: char)
    requires
        a as u32 == b as u32,
    ensures
        a == b,
{
}

/// Texts with the same words are the same.
pub proof fn law_text_words(a: Seq<char>, b: Seq<char>)
    ensures
        text_words(a) == text_words(b) ==> a == b,
{
    lemma_letters(a);
    lemma_letters(b);
    if text_words(a) == text_words(b) {
        assert(text_words(a).len() == a.len() + 1);
        assert(text_words(b).len() == b.len() + 1);
        assert forall|i: int| 0 <= i < a.len() implies a[i] == b[i] by {
            assert(text_words(a)[i] == KeyWord::Letter(a[i] as u32));
            assert(text_words(b)[i] == KeyWord::Letter(b[i] as u32));
            lemma_letter(a[i], b[i]);
        }
        assert(a =~= b);
    }
}

} // verus!
