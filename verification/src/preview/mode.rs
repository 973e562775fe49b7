//! Editing modes and tools, as far as the hover preview tells them apart.

use vstd::prelude::*;

verus! {

/// What the pointer does in the viewport.
#[derive(Clone, Copy, Debug, PartialEq, Eq, Hash, Structural)]
pub enum PreviewMode {
    Navigate,
    Fly,
    Add,
    Remove,
    Paint,
    Select,
    SelectExtrude,
    Squishy,
    Bone,
    Stamp,
    Punch,
}

/// What an edit does to the cells it reaches.
#[derive(Clone, Copy, Debug, PartialEq, Eq, Hash, Structural)]
pub enum EditTool {
    Add,
    Remove,
    Paint,
}

/// Shape of the brush.
#[derive(Clone, Copy, Debug, PartialEq, Eq, Hash, Structural)]
pub enum BrushShape {
    Sphere,
    Cube,
    Pyramid,
    Square,
    Circle,
}

/// Number of a brush shape.
pub open spec fn shape_number(s: BrushShape) -> u8 {
    match s {
        BrushShape::Sphere => 0,
        BrushShape::Cube => 1,
        BrushShape::Pyramid => 2,
        BrushShape::Square => 3,
        BrushShape::Circle => 4,
    }
}

/// Number of a brush shape.
pub fn brush_shape_tag(s: BrushShape) -> (r: u8)
    ensures
        r == shape_number(s),
{
    match s {
        BrushShape::Sphere => 0,
        BrushShape::Cube => 1,
        BrushShape::Pyramid => 2,
        BrushShape::Square => 3,
        BrushShape::Circle => 4,
    }
}

/// Different brush shapes have different numbers.
pub proof fn law_shape_numbers_differ(a: BrushShape, b: BrushShape)
    ensures
        shape_number(a) == shape_number(b) ==> a == b,
{
}

/// A generator that places cells in one go.
#[derive(Clone, Copy, Debug, PartialEq, Eq, Hash, Structural)]
pub enum Generator {
    Rope,
    Cloth,
    Rocks,
    Grass,
    Ashlar,
    Flora,
    Insecta,
    Fauna,
    Piscina,
    Roof,
    Shape,
}

/// Name of a generator.
pub open spec fn generator_name(g: Generator) -> Seq<char> {
    match g {
        Generator::Rope => "rope"@,
        Generator::Cloth => "cloth"@,
        Generator::Rocks => "rocks"@,
        Generator::Grass => "grass"@,
        Generator::Ashlar => "ashlar"@,
        Generator::Flora => "flora"@,
        Generator::Insecta => "insecta"@,
        Generator::Fauna => "fauna"@,
        Generator::Piscina => "piscina"@,
        Generator::Roof => "roof"@,
        Generator::Shape => "shape"@,
    }
}

/// The generator of a name; `None` of any other text.
pub open spec fn generator_named(s: Seq<char>) -> Option<Generator> {
    if s == "rope"@ {
        Some(Generator::Rope)
    } else if s == "cloth"@ {
        Some(Generator::Cloth)
    } else if s == "rocks"@ {
        Some(Generator::Rocks)
    } else if s == "grass"@ {
        Some(Generator::Grass)
    } else if s == "ashlar"@ {
        Some(Generator::Ashlar)
    } else if s == "flora"@ {
        Some(Generator::Flora)
    } else if s == "insecta"@ {
        Some(Generator::Insecta)
    } else if s == "fauna"@ {
        Some(Generator::Fauna)
    } else if s == "piscina"@ {
        Some(Generator::Piscina)
    } else if s == "roof"@ {
        Some(Generator::Roof)
    } else if s == "shape"@ {
        Some(Generator::Shape)
    } else {
        None
    }
}

/// Whether two texts are the same.
pub fn same_text(a: &str, b: &str) -> (r: bool)
    ensures
        r == (a@ == b@),
{
    let n: usize = a.unicode_len();
    if n != b.unicode_len() {
        return false;
    }
    let mut i: usize = 0;
    while i < n
        invariant
            0 <= i <= n,
            n == a@.len(),
            n == b@.len(),
            forall|k: int| 0 <= k < i ==> a@[k] == b@[k],
        decreases n - i,
    {
        if a.get_char(i) != b.get_char(i) {
            return false;
        }
        i += 1;
    }
    assert(a@ =~= b@);
    true
}

/// Names of different generators differ.
proof fn lemma_names_differ(a: Generator, b: Generator)
    requires
        generator_name(a) == generator_name(b),
    ensures
        a == b,
{
    reveal_strlit("rope");
    reveal_strlit("cloth");
    reveal_strlit("rocks");
    reveal_strlit("grass");
    reveal_strlit("ashlar");
    reveal_strlit("flora");
    reveal_strlit("insecta");
    reveal_strlit("fauna");
    reveal_strlit("piscina");
    reveal_strlit("roof");
    reveal_strlit("shape");
    let s = generator_name(a);
    assert(s[0] == generator_name(b)[0] && s[1] == generator_name(b)[1] && s[2] == generator_name(
        b,
    )[2] && s[3] == generator_name(b)[3]);
}

/// The generator of a name; `None` of any other text.
pub fn generator_from_name(name: &str) -> (r: Option<Generator>)
    ensures
        r == generator_named(name@),
        forall|g: Generator|
            #![trigger generator_name(g)]
            r == Some(g) <==> name@ == generator_name(g),
{
    proof {
        assert forall|a: Generator, b: Generator|
            #![trigger generator_name(a), generator_name(b)]
            generator_name(a) == generator_name(b) implies a == b by {
            lemma_names_differ(a, b);
        }
    }
    if same_text(name, "rope") {
        assert(name@ == generator_name(Generator::Rope));
        Some(Generator::Rope)
    } else if same_text(name, "cloth") {
        assert(name@ == generator_name(Generator::Cloth));
        Some(Generator::Cloth)
    } else if same_text(name, "rocks") {
        assert(name@ == generator_name(Generator::Rocks));
        Some(Generator::Rocks)
    } else if same_text(name, "grass") {
        assert(name@ == generator_name(Generator::Grass));
        Some(Generator::Grass)
    } else if same_text(name, "ashlar") {
        assert(name@ == generator_name(Generator::Ashlar));
        Some(Generator::Ashlar)
    } else if same_text(name, "flora") {
        assert(name@ == generator_name(Generator::Flora));
        Some(Generator::Flora)
    } else if same_text(name, "insecta") {
        assert(name@ == generator_name(Generator::Insecta));
        Some(Generator::Insecta)
    } else if same_text(name, "fauna") {
        assert(name@ == generator_name(Generator::Fauna));
        Some(Generator::Fauna)
    } else if same_text(name, "piscina") {
        assert(name@ == generator_name(Generator::Piscina));
        Some(Generator::Piscina)
    } else if same_text(name, "roof") {
        assert(name@ == generator_name(Generator::Roof));
        Some(Generator::Roof)
    } else if same_text(name, "shape") {
        assert(name@ == generator_name(Generator::Shape));
        Some(Generator::Shape)
    } else {
        None
    }
}

} // verus!
