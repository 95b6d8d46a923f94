//! Palette construction and color lookup.
//!
//! A palette is an ordered list of (R, G, B) triples; the index of a color is
//! its position in the list. An index must stay strictly below the sentinel
//! value, so a palette never holds 255 or more entries.

use vstd::prelude::*;

verus! {

use crate::SENTINEL;

/// One palette color: an (R, G, B) triple.
#[derive(Clone, Copy, PartialEq, Eq, Structural, Debug)]
pub struct Color {
    pub r: u8,
    pub g: u8,
    pub b: u8,
}

/// Why palette construction can fail.
#[derive(Clone, Copy, PartialEq, Eq, Structural, Debug)]
pub enum PaletteError {
    /// The supplied color list has 255 entries or more: the index of a later
    /// entry would collide with the transparency sentinel.
    TooManyColors,
}

/// The position of the last entry of `colors` equal to `c`, if any.
/// A later entry shadows an earlier one with the same triple, exactly as a
/// map built by inserting the entries in order would have it.
pub open spec fn lookup_spec(colors: Seq<Color>, c: Color) -> Option<int>
    decreases colors.len(),
{
    if colors.len() == 0 {
        None
    } else if colors.last() == c {
        Some(colors.len() - 1)
    } else {
        lookup_spec(colors.drop_last(), c)
    }
}

/// A successful lookup returns a position inside the list, and that position
/// holds the color.
pub proof fn lemma_lookup_in_range(colors: Seq<Color>, c: Color)
    requires
        lookup_spec(colors, c) is Some,
    ensures
        0 <= lookup_spec(colors, c)->0 < colors.len(),
        colors[lookup_spec(colors, c)->0] == c,
    decreases colors.len(),
{
    if colors.len() > 0 && colors.last() != c {
        lemma_lookup_in_range(colors.drop_last(), c);
    }
}

/// The lookup finds exactly the last matching entry: it returns `Some(j)`
/// precisely when position `j` holds the color and no later position does.
pub proof fn lemma_lookup_is_last_match(colors: Seq<Color>, c: Color, j: int)
    requires
        0 <= j < colors.len(),
        colors[j] == c,
        forall|j2: int| j < j2 < colors.len() ==> colors[j2] != c,
    ensures
        lookup_spec(colors, c) == Some(j),
    decreases colors.len(),
{
    if colors.last() != c {
        lemma_lookup_is_last_match(colors.drop_last(), c, j);
    }
}

/// A lookup that misses means no entry holds the color.
pub proof fn lemma_lookup_none(colors: Seq<Color>, c: Color)
    requires
        lookup_spec(colors, c) is None,
    ensures
        forall|j: int| 0 <= j < colors.len() ==> colors[j] != c,
    decreases colors.len(),
{
    if colors.len() > 0 {
        lemma_lookup_none(colors.drop_last(), c);
        assert(forall|j: int| 0 <= j < colors.len() - 1 ==> colors[j] == colors.drop_last()[j]);
    }
}

/// An ordered list of colors; the index of a color is its position in the
/// list, and every index stays strictly below the sentinel.
pub struct Palette {
    colors: Vec<Color>,
}

impl View for Palette {
    type V = Seq<Color>;

    closed spec fn view(&self) -> Seq<Color> {
        self.colors@
    }
}

impl Palette {
    /// Every index stays strictly below the sentinel.
    pub open spec fn wf(&self) -> bool {
        self@.len() < SENTINEL
    }

    /// Builds a palette from an ordered color list, rejecting a list so long
    /// that an entry's index would reach the sentinel value.
    pub fn from_colors(colors: Vec<Color>) -> (r: Result<Palette, PaletteError>)
        ensures
            r is Ok <==> colors@.len() < SENTINEL,
            r matches Ok(p) ==> p@ == colors@ && p.wf(),
            r matches Err(e) ==> e == PaletteError::TooManyColors,
    {
        if colors.len() < SENTINEL as usize {
            Ok(Palette { colors })
        } else {
            Err(PaletteError::TooManyColors)
        }
    }

    /// The number of colors in the palette.
    pub fn len(&self) -> (n: usize)
        ensures
            n == self@.len(),
    {
        self.colors.len()
    }

    /// The position of the last entry equal to `c`, if the palette holds the
    /// color at all.
    pub fn lookup(&self, c: Color) -> (r: Option<u8>)
        requires
            self.wf(),
        ensures
            match r {
                Some(i) => lookup_spec(self@, c) == Some(i as int) && i < SENTINEL,
                None => lookup_spec(self@, c) is None,
            },
    {
        let mut i: usize = self.colors.len();
        proof {
            assert(self@.take(i as int) =~= self@);
        }
        while i > 0
            invariant
                i <= self@.len(),
                self.wf(),
                lookup_spec(self@, c) == lookup_spec(self@.take(i as int), c),
            decreases i,
        {
            i = i - 1;
            if self.colors[i] == c {
                proof {
                    assert(self@.take(i as int + 1).last() == self@[i as int]);
                }
                return Some(i as u8);
            }
            proof {
                assert(self@.take(i as int + 1).drop_last() =~= self@.take(i as int));
            }
        }
        proof {
            assert(self@.take(0) =~= Seq::<Color>::empty());
        }
        None
    }
}

} // verus!
