use character2d::character::{
    Character, CharacterBundle, CharacterCurrentAnim, CharacterHandle, CharacterSprite,
    CharacterSpriteSheet, Vec2Bits, Vec3Bits,
};
use character2d::loader::CharacterLoader;
use character2d::tracks::TrackTable;

fn sheet(path: &str, columns: usize) -> CharacterSpriteSheet {
    CharacterSpriteSheet {
        path: path.to_string(),
        grid_size: Vec2Bits { x: 16.0f32.to_bits(), y: 24.0f32.to_bits() },
        rows: 2,
        columns,
    }
}

#[test]
fn current_anim_is_set_by_name() {
    let mut current = CharacterCurrentAnim("idle".to_string());
    current.set("walk");
    assert_eq!(current.0, "walk");
    current.set("");
    assert_eq!(current.0, "");
}

#[test]
fn current_anim_comes_from_a_name() {
    let from_str: CharacterCurrentAnim = "run".into();
    assert_eq!(from_str.0, "run");
    let from_string: CharacterCurrentAnim = String::from("jump").into();
    assert_eq!(from_string.0, "jump");
    assert_eq!(from_string.clone().0, "jump");
}

#[test]
fn default_bundle_asks_for_default() {
    let bundle = CharacterBundle::default();
    assert_eq!(bundle.character, CharacterHandle(0));
    assert_eq!(bundle.current_anim.0, "default");
    assert_eq!(bundle.timer.period(), 100_000_000);
    assert_eq!(bundle.timer.elapsed(), 0);
}

#[test]
fn zero_offset_is_all_zero_bits() {
    assert_eq!(Vec3Bits::zero(), Vec3Bits { x: 0, y: 0, z: 0 });
    assert_eq!(Vec3Bits::default(), Vec3Bits::zero());
    assert_eq!(f32::from_bits(Vec3Bits::zero().x), 0.0);
}

#[test]
fn sprite_sheets_come_base_first_then_in_layer_order() {
    let character = Character {
        name: Some("knight".to_string()),
        sprite_sheet: sheet("body.png", 4),
        anims: TrackTable::new(),
        layers: Some(vec![
            CharacterSprite {
                sprite_sheet: sheet("hair.png", 5),
                anims: TrackTable::new(),
                offset: Vec3Bits::zero(),
            },
            CharacterSprite {
                sprite_sheet: sheet("sword.png", 6),
                anims: TrackTable::new(),
                offset: Vec3Bits { x: 1.0f32.to_bits(), y: 0, z: 2.0f32.to_bits() },
            },
        ]),
    };
    assert_eq!(character.layer_count(), 2);
    let sheets = character.sprite_sheets();
    let paths: Vec<&str> = sheets.iter().map(|sheet| sheet.path.as_str()).collect();
    assert_eq!(paths, vec!["body.png", "hair.png", "sword.png"]);
    let columns: Vec<usize> = sheets.iter().map(|sheet| sheet.columns).collect();
    assert_eq!(columns, vec![4, 5, 6]);
    assert_eq!(sheets[0].grid_size, Vec2Bits { x: 16.0f32.to_bits(), y: 24.0f32.to_bits() });
    assert_eq!(sheets[2].rows, 2);
}

#[test]
fn character_without_layers_needs_one_sheet() {
    let character = Character {
        name: None,
        sprite_sheet: sheet("body.png", 4),
        anims: TrackTable::new(),
        layers: None,
    };
    assert_eq!(character.layer_count(), 0);
    assert_eq!(character.sprite_sheets().len(), 1);
    let empty = Character { layers: Some(vec![]), ..character };
    assert_eq!(empty.layer_count(), 0);
    assert_eq!(empty.sprite_sheets().len(), 1);
}

#[test]
fn cloned_layer_descriptor_is_the_same() {
    let mut anims = TrackTable::new();
    anims.insert("idle".to_string(), vec![1, 2]);
    let sprite = CharacterSprite {
        sprite_sheet: sheet("hair.png", 5),
        anims,
        offset: Vec3Bits { x: 3, y: 4, z: 5 },
    };
    let copy = sprite.clone();
    assert_eq!(copy.sprite_sheet.path, "hair.png");
    assert_eq!(copy.sprite_sheet.columns, 5);
    assert_eq!(copy.anims.get("idle"), Some(&vec![1, 2]));
    assert_eq!(copy.offset, Vec3Bits { x: 3, y: 4, z: 5 });
}

#[test]
fn loader_names_both_extensions() {
    assert_eq!(CharacterLoader.extensions(), ["character.yml", "character.yaml"]);
    assert_eq!(CharacterLoader::default().extensions().len(), 2);
}
