//! The scene: an arena of nodes, each named by its position.

use vstd::prelude::*;
use crate::character::{CharacterBundle, CharacterLayer, LoadedCharacter, Vec3Bits};
use crate::clock::FrameClock;
use crate::tilesetanims::{TilesetAnim, TilesetAnims};

verus! {

/// Names a texture atlas that the host has made ready to draw from.
#[derive(Clone, Copy, Debug, PartialEq, Eq, Structural)]
pub struct AtlasHandle(pub u64);

/// What is drawn for a node: one cell of an atlas, at an offset.
#[derive(Clone, Copy, Debug, PartialEq, Eq, Structural)]
pub struct Sprite {
    pub atlas: AtlasHandle,
    /// The cell shown.
    pub index: u32,
    pub offset: Vec3Bits,
}

/// A character instance: what it entered the scene with, and whether its
/// layers have been built.
#[derive(Debug)]
pub struct CharacterRoot {
    pub bundle: CharacterBundle,
    pub loaded: Option<LoadedCharacter>,
}

/// A sprite that plays named animations. One marked as a layer, with a
/// character for its parent, follows what that character is asked to play.
#[derive(Debug)]
pub struct AnimatedSprite {
    pub sprite: Sprite,
    pub anims: TilesetAnims,
    pub layer: Option<CharacterLayer>,
    /// The node this one is a child of.
    pub parent: Option<usize>,
}

/// A sprite that cycles through a single animation. Its clock is attached
/// on its first tick unless it came with one.
#[derive(Debug)]
pub struct CyclingSprite {
    pub sprite: Sprite,
    pub anim: TilesetAnim,
    pub timer: Option<FrameClock>,
}

#[derive(Debug)]
pub enum Node {
    Character(CharacterRoot),
    Animated(AnimatedSprite),
    Cycling(CyclingSprite),
}

/// The nodes of a scene. A node is named by its position, which never
/// changes: nodes are added at the end and none is removed.
#[derive(Debug)]
pub struct Scene {
    pub nodes: Vec<Node>,
}

/// Whether node `child` is a layer of the character at `parent`.
pub open spec fn is_layer_of(nodes: Seq<Node>, child: int, parent: usize) -> bool {
    &&& 0 <= child < nodes.len()
    &&& nodes[child] matches Node::Animated(sprite)
    &&& sprite.layer.is_some()
    &&& sprite.parent == Some(parent)
}

impl Scene {
    /// A scene without nodes.
    pub fn new() -> (scene: Scene)
        ensures
            scene.nodes@.len() == 0,
    {
        Scene { nodes: Vec::new() }
    }

    /// Adds a node and returns its name.
    pub fn spawn(&mut self, node: Node) -> (id: usize)
        ensures
            id == old(self).nodes@.len(),
            final(self).nodes@ == old(self).nodes@.push(node),
    {
        let id = self.nodes.len();
        self.nodes.push(node);
        id
    }

    /// The layers of the character at `parent`, in the order in which
    /// they were added.
    pub fn layers_of(&self, parent: usize) -> (layers: Vec<usize>)
        ensures
            forall|k: int| 0 <= k < layers@.len() ==> is_layer_of(self.nodes@, layers@[k] as int, parent),
            forall|j: int, k: int| 0 <= j < k < layers@.len() ==> layers@[j] < layers@[k],
            forall|child: int|
                is_layer_of(self.nodes@, child, parent) ==> layers@.contains(child as usize),
    {
        let mut layers: Vec<usize> = Vec::new();
        let mut i: usize = 0;
        while i < self.nodes.len()
            invariant
                i <= self.nodes.len(),
                forall|k: int|
                    0 <= k < layers@.len() ==> is_layer_of(self.nodes@, layers@[k] as int, parent)
                        && layers@[k] < i,
                forall|j: int, k: int| 0 <= j < k < layers@.len() ==> layers@[j] < layers@[k],
                forall|child: int|
                    0 <= child < i && is_layer_of(self.nodes@, child, parent) ==> layers@.contains(
                        child as usize,
                    ),
            decreases self.nodes.len() - i,
        {
            let found: bool = match &self.nodes[i] {
                Node::Animated(sprite) => sprite.layer.is_some() && match sprite.parent {
                    Some(p) => p == parent,
                    None => false,
                },
                _ => false,
            };
            if found {
                let ghost before = layers@;
                layers.push(i);
                assert forall|child: int|
                    0 <= child < i + 1 && is_layer_of(
                        self.nodes@,
                        child,
                        parent,
                    ) implies layers@.contains(child as usize) by {
                    if child < i {
                        let k = choose|k: int| 0 <= k < before.len() && before[k] == child as usize;
                        assert(layers@[k] == child as usize);
                    } else {
                        assert(layers@[before.len() as int] == i);
                    }
                }
            }
            i = i + 1;
        }
        layers
    }
}

} // verus!
