//! The passes over a scene: building a character's layers, handing the
//! character's animation on to them, and advancing every animation by a
//! frame's time.

use vstd::prelude::*;
use crate::character::{Character, CharacterBundle, CharacterLayer, LoadedCharacter, Vec3Bits};
use crate::clock::{ClockState, FrameClock};
use crate::scene::{is_layer_of, AnimatedSprite, AtlasHandle, Node, Scene, Sprite};
use crate::tilesetanims::{
    default_anim, spec_clock_view, AnimsState, FrameResolution, TilesetAnims,
};

verus! {

// Building a character's layers

/// How an attempt to build a character's layers ended.
#[derive(Clone, Copy, Debug, PartialEq, Eq, Structural)]
pub enum Assembly {
    /// The node is not a character, or there is no such node.
    NotACharacter,
    /// The character's layers were built before.
    AlreadyLoaded,
    /// The character's descriptor has not been loaded yet.
    CharacterPending,
    /// The atlas of this layer is not ready; 0 is the base layer. It is the
    /// first that is not.
    AtlasPending(usize),
    /// The layers were built. The base layer is the node of this name; the
    /// other layers follow it.
    Built(usize),
}

/// The atlas made ready for layer number `layer`, if any.
pub open spec fn atlas_for(atlases: Seq<Option<AtlasHandle>>, layer: int) -> Option<AtlasHandle> {
    if 0 <= layer < atlases.len() {
        atlases[layer]
    } else {
        None
    }
}

/// The first of the layers `0..count` whose atlas is not ready.
pub open spec fn first_pending(atlases: Seq<Option<AtlasHandle>>, count: nat) -> Option<nat>
    decreases count,
{
    if count == 0 {
        None
    } else {
        match first_pending(atlases, (count - 1) as nat) {
            Some(layer) => Some(layer),
            None => if atlas_for(atlases, count - 1).is_none() {
                Some((count - 1) as nat)
            } else {
                None
            },
        }
    }
}

/// Whether the node at `root` is a character whose layers have been built.
pub open spec fn is_loaded(nodes: Seq<Node>, root: usize) -> bool {
    &&& root < nodes.len()
    &&& nodes[root as int] matches Node::Character(character)
    &&& character.loaded.is_some()
}

/// Whether the node at `root` is a character whose layers are yet to be
/// built.
pub open spec fn awaits_assembly(nodes: Seq<Node>, root: usize) -> bool {
    &&& root < nodes.len()
    &&& nodes[root as int] matches Node::Character(character)
    &&& character.loaded.is_none()
}

/// How an attempt to build the layers of the character at `root` ends.
pub open spec fn assembly_outcome(
    nodes: Seq<Node>,
    root: usize,
    character: Option<&Character>,
    atlases: Seq<Option<AtlasHandle>>,
) -> Assembly {
    if is_loaded(nodes, root) {
        Assembly::AlreadyLoaded
    } else if !awaits_assembly(nodes, root) {
        Assembly::NotACharacter
    } else {
        match character {
            None => Assembly::CharacterPending,
            Some(character) => match first_pending(atlases, 1 + character.spec_layers().len()) {
                Some(layer) => Assembly::AtlasPending(layer as usize),
                None => Assembly::Built(nodes.len() as usize),
            },
        }
    }
}

/// Whether `sprite` is layer number `layer` of the character `root`, as it
/// is built from `character` for an instance asked to play `current_anim`
/// on the clock `timer`: its atlas is the one made ready for it; it shows
/// cell 0; its clock is a copy of the character's. The base layer stands at
/// the character's own place and starts on the animation the character is
/// asked to play; every other layer stands at its offset and starts on
/// "default", whatever the character is asked to play.
pub open spec fn is_built_layer(
    sprite: AnimatedSprite,
    root: usize,
    current_anim: Seq<char>,
    timer: ClockState,
    character: &Character,
    atlases: Seq<Option<AtlasHandle>>,
    layer: int,
) -> bool {
    &&& sprite.layer == Some(CharacterLayer)
    &&& sprite.parent == Some(root)
    &&& atlas_for(atlases, layer) == Some(sprite.sprite.atlas)
    &&& sprite.sprite.index == 0
    &&& sprite.anims@.timer == timer
    &&& sprite.anims@.current_anim_index == 0
    &&& if layer == 0 {
        &&& sprite.sprite.offset == Vec3Bits::zero()
        &&& sprite.anims@.anims == character.anims@
        &&& sprite.anims@.current_anim == current_anim
    } else {
        &&& sprite.sprite.offset == character.spec_layers()[layer - 1].offset
        &&& sprite.anims@.anims == character.spec_layers()[layer - 1].anims@
        &&& sprite.anims@.current_anim == default_anim()
    }
}

/// Whether `layers` are the layers of the character `root` as they are
/// built from `character`: the base layer, then one for each layer of the
/// descriptor, in its order.
pub open spec fn are_built_layers(
    layers: Seq<AnimatedSprite>,
    root: usize,
    current_anim: Seq<char>,
    timer: ClockState,
    character: &Character,
    atlases: Seq<Option<AtlasHandle>>,
) -> bool {
    &&& layers.len() == 1 + character.spec_layers().len()
    &&& forall|layer: int|
        0 <= layer < layers.len() ==> is_built_layer(
            #[trigger] layers[layer],
            root,
            current_anim,
            timer,
            character,
            atlases,
            layer,
        )
}

/// Whether `after` is `before` with the layers of the character at `root`
/// built from `character`: the base layer and then each of the
/// descriptor's layers, in its order, are added at the end; the character
/// is marked as loaded; nothing else changes.
pub open spec fn built(
    before: Seq<Node>,
    after: Seq<Node>,
    root: usize,
    character: &Character,
    atlases: Seq<Option<AtlasHandle>>,
) -> bool {
    &&& root < before.len()
    &&& after.len() == before.len() + 1 + character.spec_layers().len()
    &&& forall|i: int| 0 <= i < before.len() && i != root ==> #[trigger] after[i] == before[i]
    &&& before[root as int] matches Node::Character(old_root)
    &&& after[root as int] matches Node::Character(new_root)
    &&& new_root.bundle == old_root.bundle
    &&& new_root.loaded == Some(LoadedCharacter)
    &&& forall|layer: int|
        0 <= layer <= character.spec_layers().len() ==> (#[trigger] after[before.len() + layer]
            matches Node::Animated(sprite) && is_built_layer(
            sprite,
            root,
            old_root.bundle.current_anim@,
            old_root.bundle.timer@,
            character,
            atlases,
            layer,
        ))
}

/// Once the first `upto` atlases are known to be ready, a missing one at
/// `upto` is the first pending of any longer stretch.
proof fn lemma_first_pending_found(atlases: Seq<Option<AtlasHandle>>, upto: nat, count: nat)
    requires
        first_pending(atlases, upto).is_none(),
        atlas_for(atlases, upto as int).is_none(),
        upto < count,
    ensures
        first_pending(atlases, count) == Some(upto),
    decreases count,
{
    if count > upto + 1 {
        lemma_first_pending_found(atlases, upto, (count - 1) as nat);
    }
}

/// Where none of the first `count` atlases is pending, each is ready.
proof fn lemma_none_pending(atlases: Seq<Option<AtlasHandle>>, count: nat, layer: int)
    requires
        first_pending(atlases, count).is_none(),
        0 <= layer < count,
    ensures
        atlas_for(atlases, layer).is_some(),
    decreases count,
{
    if layer < count - 1 {
        lemma_none_pending(atlases, (count - 1) as nat, layer);
    }
}

/// The first of the layers `0..=layers` whose atlas is not ready.
fn pending_atlas(atlases: &Vec<Option<AtlasHandle>>, layers: usize) -> (pending: Option<usize>)
    ensures
        match pending {
            Some(layer) => first_pending(atlases@, 1 + layers as nat) == Some(layer as nat),
            None => first_pending(atlases@, 1 + layers as nat).is_none(),
        },
{
    let mut ready: usize = 0;
    while ready < layers
        invariant
            ready <= layers,
            first_pending(atlases@, ready as nat).is_none(),
        decreases layers - ready,
    {
        if ready >= atlases.len() || atlases[ready].is_none() {
            proof {
                lemma_first_pending_found(atlases@, ready as nat, 1 + layers as nat);
            }
            return Some(ready);
        }
        assert(first_pending(atlases@, 1 + ready as nat).is_none());
        ready = ready + 1;
    }
    if layers >= atlases.len() || atlases[layers].is_none() {
        Some(layers)
    } else {
        None
    }
}

/// Makes the layers of the character `root` from its descriptor: the base
/// layer, then one for each layer of the descriptor, in its order.
///
/// `atlases` holds, for the base layer and then for each layer of the
/// descriptor, the atlas made from its sprite sheet, or `None` where that
/// atlas is not ready. If any is not, no layer is made, and the first
/// that is not is named.
pub fn character_layers(
    character: &Character,
    bundle: &CharacterBundle,
    root: usize,
    atlases: &Vec<Option<AtlasHandle>>,
) -> (layers: Result<Vec<AnimatedSprite>, usize>)
    ensures
        match layers {
            Ok(made) => first_pending(atlases@, 1 + character.spec_layers().len()).is_none()
                && are_built_layers(
                made@,
                root,
                bundle.current_anim@,
                bundle.timer@,
                character,
                atlases@,
            ),
            Err(layer) => first_pending(atlases@, 1 + character.spec_layers().len()) == Some(
                layer as nat,
            ),
        },
{
    let count: usize = character.layer_count();
    match pending_atlas(atlases, count) {
        Some(layer) => {
            return Err(layer);
        },
        None => {},
    }
    proof {
        lemma_none_pending(atlases@, 1 + count as nat, 0);
    }
    let mut made: Vec<AnimatedSprite> = Vec::new();
    made.push(
        AnimatedSprite {
            sprite: Sprite { atlas: atlases[0].unwrap(), index: 0, offset: Vec3Bits::zero() },
            anims: TilesetAnims::new(
                character.anims.clone(),
                bundle.current_anim.0.clone(),
                bundle.timer.clone(),
            ),
            layer: Some(CharacterLayer),
            parent: Some(root),
        },
    );
    match &character.layers {
        Some(layers) => {
            let mut k: usize = 0;
            while k < layers.len()
                invariant
                    k <= layers.len(),
                    character.layers == Some(*layers),
                    count == layers.len(),
                    first_pending(atlases@, 1 + count as nat).is_none(),
                    made@.len() == 1 + k,
                    forall|layer: int|
                        0 <= layer <= k ==> is_built_layer(
                            #[trigger] made@[layer],
                            root,
                            bundle.current_anim@,
                            bundle.timer@,
                            character,
                            atlases@,
                            layer,
                        ),
                decreases layers.len() - k,
            {
                proof {
                    lemma_none_pending(atlases@, 1 + count as nat, k + 1);
                }
                made.push(
                    AnimatedSprite {
                        sprite: Sprite {
                            atlas: atlases[k + 1].unwrap(),
                            index: 0,
                            offset: layers[k].offset,
                        },
                        anims: TilesetAnims::new(
                            layers[k].anims.clone(),
                            "default".to_owned(),
                            bundle.timer.clone(),
                        ),
                        layer: Some(CharacterLayer),
                        parent: Some(root),
                    },
                );
                k = k + 1;
            }
        },
        None => {},
    }
    Ok(made)
}

/// Builds the layers of the character at `root`, once: the base layer and
/// then each layer of its descriptor, as children of the character, which
/// is marked as loaded after the last of them.
///
/// `character` is the descriptor, if it has been loaded. `atlases` holds,
/// for the base layer and then for each layer of the descriptor, the atlas
/// made from its sprite sheet, or `None` where that atlas is not ready.
/// Until the descriptor and every atlas are there, nothing is built and the
/// character stays unmarked, so that the attempt can be made again.
pub fn character_builder(
    scene: &mut Scene,
    root: usize,
    character: Option<&Character>,
    atlases: &Vec<Option<AtlasHandle>>,
) -> (outcome: Assembly)
    ensures
        outcome == assembly_outcome(old(scene).nodes@, root, character, atlases@),
        outcome is Built ==> built(
            old(scene).nodes@,
            final(scene).nodes@,
            root,
            character.unwrap(),
            atlases@,
        ),
        !(outcome is Built) ==> final(scene).nodes@ == old(scene).nodes@,
{
    if root >= scene.nodes.len() {
        return Assembly::NotACharacter;
    }
    let made: Result<Vec<AnimatedSprite>, usize> = match &scene.nodes[root] {
        Node::Character(instance) => {
            if instance.loaded.is_some() {
                return Assembly::AlreadyLoaded;
            }
            match character {
                Some(character) => character_layers(character, &instance.bundle, root, atlases),
                None => {
                    return Assembly::CharacterPending;
                },
            }
        },
        _ => {
            return Assembly::NotACharacter;
        },
    };
    let layers: Vec<AnimatedSprite> = match made {
        Ok(layers) => layers,
        Err(layer) => {
            return Assembly::AtlasPending(layer);
        },
    };
    let ghost before = scene.nodes@;
    let ghost made = layers@;
    let first: usize = scene.nodes.len();
    for sprite in it: layers.into_iter()
        invariant
            it.seq() == made,
            scene.nodes@.len() == before.len() + it.index(),
            forall|i: int| 0 <= i < before.len() ==> #[trigger] scene.nodes@[i] == before[i],
            forall|layer: int|
                0 <= layer < it.index() ==> #[trigger] scene.nodes@[before.len() + layer]
                    == Node::Animated(made[layer]),
    {
        scene.nodes.push(Node::Animated(sprite));
    }
    let ghost grown = scene.nodes@;
    match &mut scene.nodes[root] {
        Node::Character(instance) => {
            instance.loaded = Some(LoadedCharacter);
        },
        _ => {},
    }
    proof {
        assert forall|layer: int| 0 <= layer < made.len() implies #[trigger] scene.nodes@[before.len()
            + layer] == Node::Animated(made[layer]) by {
            assert(scene.nodes@[before.len() + layer] == grown[before.len() + layer]);
        }
    }
    Assembly::Built(first)
}

/// A character that has been built is not built again: whatever
/// descriptor and atlases a later attempt is given, it finds the character
/// loaded, and so changes nothing. What the one successful attempt added
/// is the base layer and one layer for each of the descriptor's, all of
/// them layers of this character, and it made no other node one.
pub proof fn lemma_character_is_built_once(
    before: Seq<Node>,
    after: Seq<Node>,
    root: usize,
    character: &Character,
    atlases: Seq<Option<AtlasHandle>>,
    later_character: Option<&Character>,
    later_atlases: Seq<Option<AtlasHandle>>,
)
    requires
        built(before, after, root, character, atlases),
    ensures
        is_loaded(after, root),
        assembly_outcome(after, root, later_character, later_atlases) == Assembly::AlreadyLoaded,
        after.len() == before.len() + 1 + character.spec_layers().len(),
        forall|i: int| before.len() <= i < after.len() ==> is_layer_of(after, i, root),
        forall|i: int|
            0 <= i < before.len() ==> is_layer_of(after, i, root) == is_layer_of(before, i, root),
{
    assert forall|i: int| before.len() <= i < after.len() implies is_layer_of(after, i, root) by {
        let layer = i - before.len();
        assert(after[before.len() + layer] is Animated);
    }
    assert forall|i: int| 0 <= i < before.len() implies is_layer_of(after, i, root) == is_layer_of(
        before,
        i,
        root,
    ) by {
        if i != root {
            assert(after[i] == before[i]);
        }
    }
}

// Handing the character's animation on to its layers

/// The animation asked of the node at `i` by its character, if the node
/// is a layer and its parent a character.
pub open spec fn asked_of(nodes: Seq<Node>, i: int) -> Option<Seq<char>> {
    if 0 <= i < nodes.len() {
        match nodes[i] {
            Node::Animated(sprite) => match sprite.parent {
                Some(parent) => if sprite.layer.is_some() && parent < nodes.len() {
                    match nodes[parent as int] {
                        Node::Character(instance) => Some(instance.bundle.current_anim@),
                        _ => None,
                    }
                } else {
                    None
                },
                None => None,
            },
            _ => None,
        }
    } else {
        None
    }
}

/// The animation state of a layer after the synchronization pass.
pub open spec fn synced_anims(nodes: Seq<Node>, i: int, anims: AnimsState) -> AnimsState {
    match asked_of(nodes, i) {
        Some(wanted) => anims.follow(wanted),
        None => anims,
    }
}

/// Whether `after` is the node at `i` after the synchronization pass: a
/// layer of a character has been asked for the character's animation;
/// every other node is as it was.
pub open spec fn node_synced(nodes: Seq<Node>, i: int, after: Node) -> bool {
    match nodes[i] {
        Node::Animated(sprite) => if asked_of(nodes, i).is_some() {
            &&& after matches Node::Animated(synced)
            &&& synced.sprite == sprite.sprite
            &&& synced.layer == sprite.layer
            &&& synced.parent == sprite.parent
            &&& synced.anims@ == synced_anims(nodes, i, sprite.anims@)
        } else {
            after == nodes[i]
        },
        _ => after == nodes[i],
    }
}

/// Whether `after` is `before` after the synchronization pass.
pub open spec fn synced(before: Seq<Node>, after: Seq<Node>) -> bool {
    &&& after.len() == before.len()
    &&& forall|i: int| 0 <= i < before.len() ==> node_synced(before, i, #[trigger] after[i])
}

/// Hands each character's animation on to its layers: every layer whose
/// parent is a character is asked for the animation the character is asked
/// to play, or for "default" where the layer has no track of that name.
pub fn character_anim_sync(scene: &mut Scene)
    ensures
        synced(old(scene).nodes@, final(scene).nodes@),
{
    let mut i: usize = 0;
    while i < scene.nodes.len()
        invariant
            i <= scene.nodes.len(),
            scene.nodes@.len() == old(scene).nodes@.len(),
            forall|j: int| i <= j < scene.nodes@.len() ==> scene.nodes@[j] == old(scene).nodes@[j],
            forall|j: int|
                0 <= j < scene.nodes@.len() && old(scene).nodes@[j] is Character
                    ==> scene.nodes@[j] == old(scene).nodes@[j],
            forall|j: int| 0 <= j < i ==> node_synced(old(scene).nodes@, j, #[trigger] scene.nodes@[j]),
        decreases scene.nodes.len() - i,
    {
        let parent: Option<usize> = match &scene.nodes[i] {
            Node::Animated(sprite) => if sprite.layer.is_some() {
                sprite.parent
            } else {
                None
            },
            _ => None,
        };
        let wanted: Option<String> = match parent {
            Some(parent) => if parent < scene.nodes.len() {
                match &scene.nodes[parent] {
                    Node::Character(instance) => Some(instance.bundle.current_anim.0.clone()),
                    _ => None,
                }
            } else {
                None
            },
            None => None,
        };
        match wanted {
            Some(wanted) => {
                assert(asked_of(old(scene).nodes@, i as int) == Some(wanted@));
                match &mut scene.nodes[i] {
                    Node::Animated(sprite) => {
                        sprite.anims.follow(wanted.as_str());
                    },
                    _ => {},
                }
            },
            None => {
                assert(asked_of(old(scene).nodes@, i as int).is_none());
            },
        }
        i = i + 1;
    }
}

// Advancing the animations

/// Whether `after` is the node `before` after a tick of `delta`
/// nanoseconds of the animated sprites: a sprite that plays named
/// animations has ticked and shows what the tick resolved; every other
/// node is as it was.
pub open spec fn node_animated(before: Node, after: Node, delta: nat) -> bool {
    match before {
        Node::Animated(sprite) => {
            &&& after matches Node::Animated(ticked)
            &&& ticked.layer == sprite.layer
            &&& ticked.parent == sprite.parent
            &&& ticked.sprite.atlas == sprite.sprite.atlas
            &&& ticked.sprite.offset == sprite.sprite.offset
            &&& ticked.anims@ == sprite.anims@.tick(delta)
            &&& ticked.sprite.index == sprite.anims@.tick_resolution(delta).frame(
                sprite.sprite.index,
            )
        },
        _ => after == before,
    }
}

/// What the tick of `delta` nanoseconds resolves to for the node `before`.
pub open spec fn node_resolution(before: Node, delta: nat) -> FrameResolution {
    match before {
        Node::Animated(sprite) => sprite.anims@.tick_resolution(delta),
        _ => FrameResolution::Waiting,
    }
}

/// Advances every sprite that plays named animations by `delta`
/// nanoseconds and shows the frame that its tick resolved. Returns, node by
/// node, what the tick resolved to; a node that is no such sprite waits.
pub fn multi_anim_tileset_animator(scene: &mut Scene, delta: u64) -> (resolutions: Vec<
    FrameResolution,
>)
    ensures
        final(scene).nodes@.len() == old(scene).nodes@.len(),
        resolutions@.len() == old(scene).nodes@.len(),
        forall|i: int|
            0 <= i < old(scene).nodes@.len() ==> node_animated(
                old(scene).nodes@[i],
                #[trigger] final(scene).nodes@[i],
                delta as nat,
            ),
        forall|i: int|
            0 <= i < old(scene).nodes@.len() ==> #[trigger] resolutions@[i] == node_resolution(
                old(scene).nodes@[i],
                delta as nat,
            ),
{
    let mut resolutions: Vec<FrameResolution> = Vec::new();
    let mut i: usize = 0;
    while i < scene.nodes.len()
        invariant
            i <= scene.nodes.len(),
            scene.nodes@.len() == old(scene).nodes@.len(),
            resolutions@.len() == i,
            forall|j: int| i <= j < scene.nodes@.len() ==> scene.nodes@[j] == old(scene).nodes@[j],
            forall|j: int|
                0 <= j < i ==> node_animated(
                    old(scene).nodes@[j],
                    #[trigger] scene.nodes@[j],
                    delta as nat,
                ),
            forall|j: int|
                0 <= j < i ==> #[trigger] resolutions@[j] == node_resolution(
                    old(scene).nodes@[j],
                    delta as nat,
                ),
        decreases scene.nodes.len() - i,
    {
        let resolution: FrameResolution = match &mut scene.nodes[i] {
            Node::Animated(sprite) => {
                let resolution = sprite.anims.tick(delta);
                sprite.sprite.index = resolution.frame(sprite.sprite.index);
                resolution
            },
            _ => FrameResolution::Waiting,
        };
        resolutions.push(resolution);
        i = i + 1;
    }
    resolutions
}

/// Whether `after` is the node `before` after a tick of `delta`
/// nanoseconds of the cycling sprites: a sprite that cycles through a
/// single animation has ticked on its own clock, which it has from then
/// on, and shows the next frame if the clock fired; every other node is as
/// it was.
pub open spec fn node_cycled(before: Node, after: Node, delta: nat) -> bool {
    match before {
        Node::Cycling(sprite) => {
            &&& after matches Node::Cycling(ticked)
            &&& ticked.anim == sprite.anim
            &&& ticked.sprite.atlas == sprite.sprite.atlas
            &&& ticked.sprite.offset == sprite.sprite.offset
            &&& ticked.timer.is_some()
            &&& ticked.timer.unwrap()@ == sprite.anim@.tick_clock(
                spec_clock_view(sprite.timer),
                delta,
            )
            &&& ticked.sprite.index == sprite.anim@.tick_frame(
                spec_clock_view(sprite.timer),
                delta,
                sprite.sprite.index,
            )
        },
        _ => after == before,
    }
}

/// Advances every sprite that cycles through a single animation by
/// `delta` nanoseconds. A sprite without a clock is given one of its
/// animation's period, which ticks at once and stays attached.
pub fn single_anim_tileset_animator(scene: &mut Scene, delta: u64)
    ensures
        final(scene).nodes@.len() == old(scene).nodes@.len(),
        forall|i: int|
            0 <= i < old(scene).nodes@.len() ==> node_cycled(
                old(scene).nodes@[i],
                #[trigger] final(scene).nodes@[i],
                delta as nat,
            ),
{
    let mut i: usize = 0;
    while i < scene.nodes.len()
        invariant
            i <= scene.nodes.len(),
            scene.nodes@.len() == old(scene).nodes@.len(),
            forall|j: int| i <= j < scene.nodes@.len() ==> scene.nodes@[j] == old(scene).nodes@[j],
            forall|j: int|
                0 <= j < i ==> node_cycled(
                    old(scene).nodes@[j],
                    #[trigger] scene.nodes@[j],
                    delta as nat,
                ),
        decreases scene.nodes.len() - i,
    {
        match &mut scene.nodes[i] {
            Node::Cycling(sprite) => {
                let attached: Option<FrameClock> = sprite.timer.take();
                let (clock, frame) = sprite.anim.tick(attached, delta, sprite.sprite.index);
                sprite.timer = Some(clock);
                sprite.sprite.index = frame;
            },
            _ => {},
        }
        i = i + 1;
    }
}

// A whole frame

/// Whether `after` is the node at `i` after one frame of `delta`
/// nanoseconds: the synchronization pass over the whole scene first, and
/// only then the ticks. So a layer that the pass switched to another
/// animation fires and shows that animation's first frame within the same
/// frame.
pub open spec fn node_framed(nodes: Seq<Node>, i: int, after: Node, delta: nat) -> bool {
    match nodes[i] {
        Node::Animated(sprite) => {
            &&& after matches Node::Animated(ticked)
            &&& ticked.layer == sprite.layer
            &&& ticked.parent == sprite.parent
            &&& ticked.sprite.atlas == sprite.sprite.atlas
            &&& ticked.sprite.offset == sprite.sprite.offset
            &&& ticked.anims@ == synced_anims(nodes, i, sprite.anims@).tick(delta)
            &&& ticked.sprite.index == synced_anims(nodes, i, sprite.anims@).tick_resolution(
                delta,
            ).frame(sprite.sprite.index)
        },
        Node::Cycling(_) => node_cycled(nodes[i], after, delta),
        Node::Character(_) => after == nodes[i],
    }
}

/// What the frame's tick resolves to for the node at `i`.
pub open spec fn frame_resolution(nodes: Seq<Node>, i: int, delta: nat) -> FrameResolution {
    match nodes[i] {
        Node::Animated(sprite) => synced_anims(nodes, i, sprite.anims@).tick_resolution(delta),
        _ => FrameResolution::Waiting,
    }
}

/// Runs one frame of `delta` nanoseconds: hands every character's
/// animation on to its layers, and when that is done for the whole scene,
/// advances every animation. Returns, node by node, what the ticks of the
/// sprites that play named animations resolved to.
pub fn run_frame(scene: &mut Scene, delta: u64) -> (resolutions: Vec<FrameResolution>)
    ensures
        final(scene).nodes@.len() == old(scene).nodes@.len(),
        resolutions@.len() == old(scene).nodes@.len(),
        forall|i: int|
            0 <= i < old(scene).nodes@.len() ==> node_framed(
                old(scene).nodes@,
                i,
                #[trigger] final(scene).nodes@[i],
                delta as nat,
            ),
        forall|i: int|
            0 <= i < old(scene).nodes@.len() ==> #[trigger] resolutions@[i] == frame_resolution(
                old(scene).nodes@,
                i,
                delta as nat,
            ),
{
    character_anim_sync(scene);
    let ghost requested = scene.nodes@;
    let resolutions = multi_anim_tileset_animator(scene, delta);
    let ghost ticked = scene.nodes@;
    single_anim_tileset_animator(scene, delta);
    proof {
        assert forall|i: int| 0 <= i < old(scene).nodes@.len() implies node_framed(
            old(scene).nodes@,
            i,
            #[trigger] scene.nodes@[i],
            delta as nat,
        ) && resolutions@[i] == frame_resolution(old(scene).nodes@, i, delta as nat) by {
            assert(node_synced(old(scene).nodes@, i, requested[i]));
            assert(node_animated(requested[i], ticked[i], delta as nat));
            assert(node_cycled(ticked[i], scene.nodes@[i], delta as nat));
            assert(resolutions@[i] == node_resolution(requested[i], delta as nat));
        }
    }
    resolutions
}

} // verus!
