//! Nothing that decides a hover preview is left out of its key: previews whose keys
//! have the same words have the same settings.

use vstd::prelude::*;

use crate::preview::generator_keys::{
    AshlarHover, ClothHover, FaunaHover, FloraHover, GrassHover, InsectaHover, PiscinaHover,
    RockHover, RoofHover, RopeHover, ShapeHover,
};
use crate::preview::keys::{law_text_words, lemma_letters, pin_words, text_words, KeyWord};
use crate::preview::mode::law_shape_numbers_differ;
use crate::voxelle::VoxelCoord;

verus! {

/// A text that stands at the same place within the same words is the same.
pub proof fn lemma_text_at(k: Seq<KeyWord>, n: int, s: Seq<char>, l: Seq<KeyWord>, t: Seq<char>)
    requires
        k == l,
        0 <= n,
        n + s.len() < k.len(),
        n + t.len() < l.len(),
        k.subrange(n, n + s.len() + 1) == text_words(s),
        l.subrange(n, n + t.len() + 1) == text_words(t),
    ensures
        s == t,
{
    lemma_letters(s);
    lemma_letters(t);
    let (x, y) = (text_words(s), text_words(t));
    if s.len() < t.len() {
        assert(x[s.len() as int] == k[n + s.len()]);
        assert(y[s.len() as int] == l[n + s.len()]);
        assert(false);
    }
    if t.len() < s.len() {
        assert(x[t.len() as int] == k[n + t.len()]);
        assert(y[t.len() as int] == l[n + t.len()]);
        assert(false);
    }
    law_text_words(s, t);
}

/// The words of some cells, one by one.
pub proof fn lemma_pin_words(pins: Seq<VoxelCoord>)
    ensures
        pin_words(pins).len() == 3 * pins.len(),
        forall|i: int|
            0 <= i < pins.len() ==> pin_words(pins)[3 * i] == KeyWord::Int((#[trigger] pins[i]).0)
                && pin_words(pins)[3 * i + 1] == KeyWord::Int(pins[i].1) && pin_words(pins)[3 * i
                + 2] == KeyWord::Int(pins[i].2),
        forall|j: int| 0 <= j < pin_words(pins).len() ==> #[trigger] pin_words(pins)[j] is Int,
    decreases pins.len(),
{
    if pins.len() > 0 {
        let rest = pins.drop_last();
        lemma_pin_words(rest);
        let w = pin_words(pins);
        assert forall|i: int| 0 <= i < pins.len() implies w[3 * i] == KeyWord::Int(
            (#[trigger] pins[i]).0,
        ) && w[3 * i + 1] == KeyWord::Int(pins[i].1) && w[3 * i + 2] == KeyWord::Int(
            pins[i].2,
        ) by {
            if i < rest.len() {
                assert(rest[i] == pins[i]);
                assert(w[3 * i] == pin_words(rest)[3 * i]);
            } else {
                let n = pin_words(rest).len() as int;
                assert(3 * i == n);
                assert(w[n] == KeyWord::Int(pins[i].0));
            }
        }
    }
}

/// Cells with the same words are the same.
pub proof fn law_pin_words(a: Seq<VoxelCoord>, b: Seq<VoxelCoord>)
    ensures
        pin_words(a) == pin_words(b) ==> a == b,
{
    lemma_pin_words(a);
    lemma_pin_words(b);
    if pin_words(a) == pin_words(b) {
        assert forall|i: int| 0 <= i < a.len() implies a[i] == b[i] by {
            assert(pin_words(a)[3 * i] == KeyWord::Int(a[i].0));
            assert(pin_words(b)[3 * i] == KeyWord::Int(b[i].0));
            assert(pin_words(a)[3 * i + 1] == KeyWord::Int(b[i].1));
            assert(pin_words(a)[3 * i + 2] == KeyWord::Int(b[i].2));
        }
        assert(a =~= b);
    }
}

/// Previews of ropes have the same words only for the same settings.
pub proof fn law_rope_key(a: RopeHover, b: RopeHover)
    ensures
        a.key() == b.key() ==> a.gravity_dir@ == b.gravity_dir@
            && a == (RopeHover { gravity_dir: a.gravity_dir, ..b }),
{
    let (k, l) = (a.key(), b.key());
    if k == l {
        lemma_letters(a.gravity_dir@);
        lemma_letters(b.gravity_dir@);
        assert(k.subrange(7, 8int + a.gravity_dir@.len()) =~= text_words(a.gravity_dir@));
        assert(l.subrange(7, 8int + b.gravity_dir@.len()) =~= text_words(b.gravity_dir@));
        lemma_text_at(k, 7, a.gravity_dir@, l, b.gravity_dir@);
        let n = k.len() - 5;
        assert(k[1] == l[1] && k[2] == l[2] && k[3] == l[3] && k[4] == l[4] && k[5] == l[5]
            && k[6] == l[6]);
        assert(k[n] == l[n] && k[n + 1] == l[n + 1] && k[n + 2] == l[n + 2]
            && k[n + 3] == l[n + 3] && k[n + 4] == l[n + 4]);
        law_shape_numbers_differ(a.brush_shape, b.brush_shape);
    }
}

/// Previews of cloths have the same words only for the same settings.
pub proof fn law_cloth_key(a: ClothHover, b: ClothHover)
    ensures
        a.key() == b.key() ==> a.pins@ == b.pins@ && a.gravity_dir@ == b.gravity_dir@
            && a == (ClothHover { pins: a.pins, gravity_dir: a.gravity_dir, ..b }),
{
    let (k, l) = (a.key(), b.key());
    if k == l {
        assert(k[1] == l[1]);
        assert(a.pins.len() == b.pins.len());
        lemma_pin_words(a.pins@);
        lemma_pin_words(b.pins@);
        let m = 2int + 3 * a.pins@.len();
        assert(k.subrange(2, m) =~= pin_words(a.pins@));
        assert(l.subrange(2, m) =~= pin_words(b.pins@));
        law_pin_words(a.pins@, b.pins@);
        assert(k[m] == l[m]);
        let c = m + 1;
        lemma_letters(a.gravity_dir@);
        lemma_letters(b.gravity_dir@);
        assert(k.subrange(c, c + 1 + a.gravity_dir@.len()) =~= text_words(a.gravity_dir@));
        assert(l.subrange(c, c + 1 + b.gravity_dir@.len()) =~= text_words(b.gravity_dir@));
        lemma_text_at(k, c, a.gravity_dir@, l, b.gravity_dir@);
        let n = k.len() - 9;
        assert(k[n] == l[n] && k[n + 1] == l[n + 1] && k[n + 2] == l[n + 2]
            && k[n + 3] == l[n + 3] && k[n + 4] == l[n + 4] && k[n + 5] == l[n + 5]
            && k[n + 6] == l[n + 6] && k[n + 7] == l[n + 7] && k[n + 8] == l[n + 8]);
        law_shape_numbers_differ(a.brush_shape, b.brush_shape);
    }
}

/// Previews of rocks have the same words only for the same settings.
pub proof fn law_rock_key(a: RockHover, b: RockHover)
    ensures
        a.key() == b.key() ==> a == b,
{
    let (k, l) = (a.key(), b.key());
    if k == l {
        assert(k[1] == l[1] && k[2] == l[2] && k[3] == l[3] && k[4] == l[4] && k[5] == l[5]
            && k[6] == l[6] && k[7] == l[7] && k[8] == l[8] && k[9] == l[9] && k[10] == l[10]
            && k[11] == l[11] && k[12] == l[12]);
    }
}

/// Previews of shapes have the same words only for the same settings.
pub proof fn law_shape_key(a: ShapeHover, b: ShapeHover)
    ensures
        a.key() == b.key() ==> a.shape_kind@ == b.shape_kind@
            && a == (ShapeHover { shape_kind: a.shape_kind, ..b }),
{
    let (k, l) = (a.key(), b.key());
    if k == l {
        lemma_letters(a.shape_kind@);
        lemma_letters(b.shape_kind@);
        assert(k.subrange(3, 4int + a.shape_kind@.len()) =~= text_words(a.shape_kind@));
        assert(l.subrange(3, 4int + b.shape_kind@.len()) =~= text_words(b.shape_kind@));
        lemma_text_at(k, 3, a.shape_kind@, l, b.shape_kind@);
        let n = k.len() - 8;
        assert(k[1] == l[1] && k[2] == l[2]);
        assert(k[n] == l[n] && k[n + 1] == l[n + 1] && k[n + 2] == l[n + 2]
            && k[n + 3] == l[n + 3] && k[n + 4] == l[n + 4] && k[n + 5] == l[n + 5]
            && k[n + 6] == l[n + 6] && k[n + 7] == l[n + 7]);
    }
}

/// Previews of grass have the same words only for the same settings.
pub proof fn law_grass_key(a: GrassHover, b: GrassHover)
    ensures
        a.key() == b.key() ==> a == b,
{
    let (k, l) = (a.key(), b.key());
    if k == l {
        assert(k[1] == l[1] && k[2] == l[2] && k[3] == l[3] && k[4] == l[4] && k[5] == l[5]
            && k[6] == l[6] && k[7] == l[7] && k[8] == l[8] && k[9] == l[9]);
    }
}

/// Previews of masonry have the same words only for the same settings.
pub proof fn law_ashlar_key(a: AshlarHover, b: AshlarHover)
    ensures
        a.key() == b.key() ==> a == b,
{
    let (k, l) = (a.key(), b.key());
    if k == l {
        assert(k[1] == l[1] && k[2] == l[2] && k[3] == l[3] && k[4] == l[4] && k[5] == l[5]
            && k[6] == l[6] && k[7] == l[7] && k[8] == l[8] && k[9] == l[9]);
    }
}

/// Previews of plants have the same words only for the same settings.
pub proof fn law_flora_key(a: FloraHover, b: FloraHover)
    ensures
        a.key() == b.key() ==> a == b,
{
    let (k, l) = (a.key(), b.key());
    if k == l {
        assert(k[1] == l[1] && k[2] == l[2] && k[3] == l[3] && k[4] == l[4] && k[5] == l[5]
            && k[6] == l[6] && k[7] == l[7] && k[8] == l[8] && k[9] == l[9] && k[10] == l[10]
            && k[11] == l[11] && k[12] == l[12] && k[13] == l[13] && k[14] == l[14]
            && k[15] == l[15] && k[16] == l[16] && k[17] == l[17] && k[18] == l[18]
            && k[19] == l[19]);
    }
}

/// Previews of insects have the same words only for the same settings.
pub proof fn law_insecta_key(a: InsectaHover, b: InsectaHover)
    ensures
        a.key() == b.key() ==> a.species@ == b.species@
            && a == (InsectaHover { species: a.species, ..b }),
{
    let (k, l) = (a.key(), b.key());
    if k == l {
        lemma_letters(a.species@);
        lemma_letters(b.species@);
        assert(k.subrange(3, 4int + a.species@.len()) =~= text_words(a.species@));
        assert(l.subrange(3, 4int + b.species@.len()) =~= text_words(b.species@));
        lemma_text_at(k, 3, a.species@, l, b.species@);
        let n = k.len() - 36;
        assert(k[1] == l[1] && k[2] == l[2]);
        assert(k[n] == l[n] && k[n + 1] == l[n + 1] && k[n + 2] == l[n + 2]
            && k[n + 3] == l[n + 3] && k[n + 4] == l[n + 4] && k[n + 5] == l[n + 5]
            && k[n + 6] == l[n + 6] && k[n + 7] == l[n + 7] && k[n + 8] == l[n + 8]
            && k[n + 9] == l[n + 9] && k[n + 10] == l[n + 10] && k[n + 11] == l[n + 11]
            && k[n + 12] == l[n + 12] && k[n + 13] == l[n + 13] && k[n + 14] == l[n + 14]
            && k[n + 15] == l[n + 15] && k[n + 16] == l[n + 16] && k[n + 17] == l[n + 17]
            && k[n + 18] == l[n + 18] && k[n + 19] == l[n + 19] && k[n + 20] == l[n + 20]
            && k[n + 21] == l[n + 21] && k[n + 22] == l[n + 22] && k[n + 23] == l[n + 23]
            && k[n + 24] == l[n + 24] && k[n + 25] == l[n + 25] && k[n + 26] == l[n + 26]
            && k[n + 27] == l[n + 27] && k[n + 28] == l[n + 28] && k[n + 29] == l[n + 29]
            && k[n + 30] == l[n + 30] && k[n + 31] == l[n + 31] && k[n + 32] == l[n + 32]
            && k[n + 33] == l[n + 33] && k[n + 34] == l[n + 34] && k[n + 35] == l[n + 35]);
    }
}

/// Previews of animals have the same words only for the same settings.
pub proof fn law_fauna_key(a: FaunaHover, b: FaunaHover)
    ensures
        a.key() == b.key() ==> a.stance@ == b.stance@ && a.archetype@ == b.archetype@
            && a == (FaunaHover { stance: a.stance, archetype: a.archetype, ..b }),
{
    let (k, l) = (a.key(), b.key());
    if k == l {
        lemma_letters(a.stance@);
        lemma_letters(b.stance@);
        assert(k.subrange(3, 4int + a.stance@.len()) =~= text_words(a.stance@));
        assert(l.subrange(3, 4int + b.stance@.len()) =~= text_words(b.stance@));
        lemma_text_at(k, 3, a.stance@, l, b.stance@);
        let m = 4int + a.stance@.len();
        lemma_letters(a.archetype@);
        lemma_letters(b.archetype@);
        assert(k.subrange(m, m + 1 + a.archetype@.len()) =~= text_words(a.archetype@));
        assert(l.subrange(m, m + 1 + b.archetype@.len()) =~= text_words(b.archetype@));
        lemma_text_at(k, m, a.archetype@, l, b.archetype@);
        let n = k.len() - 25;
        assert(k[1] == l[1] && k[2] == l[2]);
        assert(k[n] == l[n] && k[n + 1] == l[n + 1] && k[n + 2] == l[n + 2]
            && k[n + 3] == l[n + 3] && k[n + 4] == l[n + 4] && k[n + 5] == l[n + 5]
            && k[n + 6] == l[n + 6] && k[n + 7] == l[n + 7] && k[n + 8] == l[n + 8]
            && k[n + 9] == l[n + 9] && k[n + 10] == l[n + 10] && k[n + 11] == l[n + 11]
            && k[n + 12] == l[n + 12] && k[n + 13] == l[n + 13] && k[n + 14] == l[n + 14]
            && k[n + 15] == l[n + 15] && k[n + 16] == l[n + 16] && k[n + 17] == l[n + 17]
            && k[n + 18] == l[n + 18] && k[n + 19] == l[n + 19] && k[n + 20] == l[n + 20]
            && k[n + 21] == l[n + 21] && k[n + 22] == l[n + 22] && k[n + 23] == l[n + 23]
            && k[n + 24] == l[n + 24]);
    }
}

/// Previews of fish have the same words only for the same settings.
pub proof fn law_piscina_key(a: PiscinaHover, b: PiscinaHover)
    ensures
        a.key() == b.key() ==> a.species@ == b.species@
            && a == (PiscinaHover { species: a.species, ..b }),
{
    let (k, l) = (a.key(), b.key());
    if k == l {
        lemma_letters(a.species@);
        lemma_letters(b.species@);
        assert(k.subrange(4, 5int + a.species@.len()) =~= text_words(a.species@));
        assert(l.subrange(4, 5int + b.species@.len()) =~= text_words(b.species@));
        lemma_text_at(k, 4, a.species@, l, b.species@);
        let n = k.len() - 22;
        assert(k[1] == l[1] && k[2] == l[2] && k[3] == l[3]);
        assert(k[n] == l[n] && k[n + 1] == l[n + 1] && k[n + 2] == l[n + 2]
            && k[n + 3] == l[n + 3] && k[n + 4] == l[n + 4] && k[n + 5] == l[n + 5]
            && k[n + 6] == l[n + 6] && k[n + 7] == l[n + 7] && k[n + 8] == l[n + 8]
            && k[n + 9] == l[n + 9] && k[n + 10] == l[n + 10] && k[n + 11] == l[n + 11]
            && k[n + 12] == l[n + 12] && k[n + 13] == l[n + 13] && k[n + 14] == l[n + 14]
            && k[n + 15] == l[n + 15] && k[n + 16] == l[n + 16] && k[n + 17] == l[n + 17]
            && k[n + 18] == l[n + 18] && k[n + 19] == l[n + 19] && k[n + 20] == l[n + 20]
            && k[n + 21] == l[n + 21]);
    }
}

/// Previews of roofs have the same words only for the same settings.
pub proof fn law_roof_key(a: RoofHover, b: RoofHover)
    ensures
        a.key() == b.key() ==> a.pins@ == b.pins@ && a.style@ == b.style@
            && a == (RoofHover { pins: a.pins, style: a.style, ..b }),
{
    let (k, l) = (a.key(), b.key());
    if k == l {
        lemma_pin_words(a.pins@);
        lemma_pin_words(b.pins@);
        lemma_letters(a.style@);
        lemma_letters(b.style@);
        let (m, o) = (1int + 3 * a.pins@.len(), 1int + 3 * b.pins@.len());
        assert(k[m] == text_words(a.style@)[0]);
        assert(l[o] == text_words(b.style@)[0]);
        if m < o {
            assert(l[m] == pin_words(b.pins@)[m - 1]);
            assert(false);
        }
        if o < m {
            assert(k[o] == pin_words(a.pins@)[o - 1]);
            assert(false);
        }
        assert(k.subrange(1, m) =~= pin_words(a.pins@));
        assert(l.subrange(1, m) =~= pin_words(b.pins@));
        law_pin_words(a.pins@, b.pins@);
        assert(k.subrange(m, m + 1 + a.style@.len()) =~= text_words(a.style@));
        assert(l.subrange(m, m + 1 + b.style@.len()) =~= text_words(b.style@));
        lemma_text_at(k, m, a.style@, l, b.style@);
        let n = k.len() - 10;
        assert(k[n] == l[n] && k[n + 1] == l[n + 1] && k[n + 2] == l[n + 2]
            && k[n + 3] == l[n + 3] && k[n + 4] == l[n + 4] && k[n + 5] == l[n + 5]
            && k[n + 6] == l[n + 6] && k[n + 7] == l[n + 7] && k[n + 8] == l[n + 8]
            && k[n + 9] == l[n + 9]);
    }
}

} // verus!
