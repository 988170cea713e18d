//! The character descriptor and the components of a character instance.

use vstd::prelude::*;
use vstd::std_specs::convert::FromSpecImpl;
use crate::clock::{ClockState, FrameClock};
use crate::tilesetanims::{default_anim, DEFAULT_FRAME_NANOS};
use crate::tracks::TrackTable;

verus! {

/// Two 32-bit floats, each held by its IEEE-754 bit pattern. The library
/// hands such a pair on and never computes with it.
#[derive(Clone, Copy, Debug, PartialEq, Eq, Structural)]
pub struct Vec2Bits {
    pub x: u32,
    pub y: u32,
}

/// Three 32-bit floats, each held by its IEEE-754 bit pattern. All bits
/// zero is the zero vector.
#[derive(Clone, Copy, Debug, PartialEq, Eq, Structural)]
pub struct Vec3Bits {
    pub x: u32,
    pub y: u32,
    pub z: u32,
}

impl Vec3Bits {
    /// The zero vector.
    pub open spec fn spec_zero() -> Vec3Bits {
        Vec3Bits { x: 0, y: 0, z: 0 }
    }

    #[verifier::when_used_as_spec(spec_zero)]
    pub fn zero() -> (zero: Vec3Bits)
        ensures
            zero == Vec3Bits::spec_zero(),
    {
        Vec3Bits { x: 0, y: 0, z: 0 }
    }
}

impl Default for Vec3Bits {
    fn default() -> (zero: Vec3Bits)
        ensures
            zero == Vec3Bits::spec_zero(),
    {
        Vec3Bits::zero()
    }
}

/// Where a layer's images come from: an image file cut into a grid of
/// cells.
#[derive(Debug)]
pub struct CharacterSpriteSheet {
    pub path: String,
    /// Width and height of one cell.
    pub grid_size: Vec2Bits,
    pub rows: usize,
    pub columns: usize,
}

impl Clone for CharacterSpriteSheet {
    fn clone(&self) -> (sheet: CharacterSpriteSheet)
        ensures
            sheet == *self,
    {
        CharacterSpriteSheet {
            path: self.path.clone(),
            grid_size: self.grid_size,
            rows: self.rows,
            columns: self.columns,
        }
    }
}

/// A layer drawn on top of a character's base layer, with animations of
/// its own.
#[derive(Debug)]
pub struct CharacterSprite {
    pub sprite_sheet: CharacterSpriteSheet,
    pub anims: TrackTable,
    /// Where the layer stands relative to the character. Zero unless the
    /// descriptor says otherwise.
    pub offset: Vec3Bits,
}

impl Clone for CharacterSprite {
    fn clone(&self) -> (sprite: CharacterSprite)
        ensures
            sprite.sprite_sheet == self.sprite_sheet,
            sprite.anims@ == self.anims@,
            sprite.offset == self.offset,
    {
        CharacterSprite {
            sprite_sheet: self.sprite_sheet.clone(),
            anims: self.anims.clone(),
            offset: self.offset,
        }
    }
}

/// The description of a character: a base layer and, optionally, layers on
/// top of it, each with a sprite sheet and a table of animations.
#[derive(Debug)]
pub struct Character {
    pub name: Option<String>,
    pub sprite_sheet: CharacterSpriteSheet,
    pub anims: TrackTable,
    pub layers: Option<Vec<CharacterSprite>>,
}

impl Character {
    /// The layers drawn on top of the base layer, in the descriptor's order.
    pub open spec fn spec_layers(&self) -> Seq<CharacterSprite> {
        match self.layers {
            Some(layers) => layers@,
            None => Seq::empty(),
        }
    }

    /// How many layers are drawn on top of the base layer.
    pub fn layer_count(&self) -> (count: usize)
        ensures
            count == self.spec_layers().len(),
    {
        match &self.layers {
            Some(layers) => layers.len(),
            None => 0,
        }
    }

    /// The sprite sheet of layer number `layer`, where 0 is the base layer
    /// and `k + 1` the descriptor's layer `k`.
    pub open spec fn spec_sheet(&self, layer: int) -> CharacterSpriteSheet
        recommends
            0 <= layer <= self.spec_layers().len(),
    {
        if layer == 0 {
            self.sprite_sheet
        } else {
            self.spec_layers()[layer - 1].sprite_sheet
        }
    }

    /// The sprite sheets whose atlases the character needs before it can
    /// be assembled: the base layer's first, then one for each layer in
    /// the descriptor's order.
    pub fn sprite_sheets(&self) -> (sheets: Vec<CharacterSpriteSheet>)
        ensures
            sheets@.len() == 1 + self.spec_layers().len(),
            forall|layer: int|
                0 <= layer < sheets@.len() ==> #[trigger] sheets@[layer] == self.spec_sheet(layer),
    {
        let mut sheets: Vec<CharacterSpriteSheet> = Vec::new();
        sheets.push(self.sprite_sheet.clone());
        match &self.layers {
            Some(layers) => {
                let mut k: usize = 0;
                while k < layers.len()
                    invariant
                        k <= layers.len(),
                        self.layers == Some(*layers),
                        sheets@.len() == 1 + k,
                        forall|layer: int|
                            0 <= layer < sheets@.len() ==> #[trigger] sheets@[layer]
                                == self.spec_sheet(layer),
                    decreases layers.len() - k,
                {
                    sheets.push(layers[k].sprite_sheet.clone());
                    k = k + 1;
                }
            },
            None => {},
        }
        sheets
    }
}

/// The animation a character instance is asked to play. Whoever drives
/// the character writes it; the synchronization pass reads it.
#[derive(Debug)]
pub struct CharacterCurrentAnim(pub String);

impl View for CharacterCurrentAnim {
    type V = Seq<char>;

    open spec fn view(&self) -> Seq<char> {
        self.0@
    }
}

impl Clone for CharacterCurrentAnim {
    fn clone(&self) -> (anim: CharacterCurrentAnim)
        ensures
            anim == *self,
    {
        CharacterCurrentAnim(self.0.clone())
    }
}

impl CharacterCurrentAnim {
    /// Asks for the animation named `anim`.
    pub fn set(&mut self, anim: &str)
        ensures
            final(self)@ == anim@,
    {
        self.0 = anim.to_owned();
    }
}

impl From<String> for CharacterCurrentAnim {
    fn from(anim: String) -> (current: CharacterCurrentAnim)
        ensures
            current == CharacterCurrentAnim(anim),
    {
        CharacterCurrentAnim(anim)
    }
}

impl FromSpecImpl<String> for CharacterCurrentAnim {
    open spec fn obeys_from_spec() -> bool {
        true
    }

    open spec fn from_spec(anim: String) -> CharacterCurrentAnim {
        CharacterCurrentAnim(anim)
    }
}

impl<'a> From<&'a str> for CharacterCurrentAnim {
    fn from(anim: &'a str) -> (current: CharacterCurrentAnim)
        ensures
            current@ == anim@,
    {
        CharacterCurrentAnim(anim.to_owned())
    }
}

impl<'a> FromSpecImpl<&'a str> for CharacterCurrentAnim {
    /// The string made for the name is a new one: which one is not said,
    /// only what it reads.
    open spec fn obeys_from_spec() -> bool {
        false
    }

    open spec fn from_spec(anim: &'a str) -> CharacterCurrentAnim {
        choose|current: CharacterCurrentAnim| current@ == anim@
    }
}

/// Marks a node as a layer of a character: the synchronization pass hands
/// the character's animation on to the layers marked so.
#[derive(Clone, Copy, Debug, PartialEq, Eq, Structural)]
pub struct CharacterLayer;

/// Marks a character whose layers have been built. It is set once, after
/// the last layer, and never taken away.
#[derive(Clone, Copy, Debug, PartialEq, Eq, Structural)]
pub struct LoadedCharacter;

/// Names a character descriptor in the host's store of loaded descriptors.
#[derive(Clone, Copy, Debug, PartialEq, Eq, Structural)]
pub struct CharacterHandle(pub u64);

/// What a character instance is made of when it enters the scene.
#[derive(Debug)]
pub struct CharacterBundle {
    pub character: CharacterHandle,
    pub current_anim: CharacterCurrentAnim,
    /// Paces every layer of the character: its period is how long a frame
    /// is shown.
    pub timer: FrameClock,
}

impl Default for CharacterBundle {
    /// The handle 0, the animation "default", a frame every tenth of a
    /// second.
    fn default() -> (bundle: CharacterBundle)
        ensures
            bundle.character == CharacterHandle(0),
            bundle.current_anim@ == default_anim(),
            bundle.timer@ == (ClockState { period: DEFAULT_FRAME_NANOS as nat, elapsed: 0 }),
    {
        CharacterBundle {
            character: CharacterHandle(0),
            current_anim: CharacterCurrentAnim("default".to_owned()),
            timer: FrameClock::new(DEFAULT_FRAME_NANOS),
        }
    }
}

} // verus!
