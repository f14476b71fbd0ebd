use gridworld::assets::{
    Assets, AssetsIn, BaseSpecIn, BlockSpecIn, EntitySpecIn, GenerationSpec, GenerationSpecIn,
    MipOption, PlayerSpecIn,
};
use gridworld::vector::ivec2;

fn base(label: &str) -> BaseSpecIn {
    BaseSpecIn {
        label: label.to_string(),
        texture_path: format!("{}.png", label),
        texture_mip_option: "repeat".to_string(),
    }
}

fn input() -> AssetsIn {
    AssetsIn {
        base_specs: vec![base("dirt"), base("grass"), base("dirt")],
        block_specs: vec![BlockSpecIn {
            label: "tree".to_string(),
            internal_size: ivec2(2, 1),
            z_along_y: true,
            texture_path: "tree.png".to_string(),
            texture_mip_option: "clamp".to_string(),
        }],
        entity_specs: vec![EntitySpecIn {
            label: "player".to_string(),
            z_along_y: true,
            texture_path: "player.png".to_string(),
            texture_mip_option: "mirror".to_string(),
        }],
        generation_specs: vec![
            GenerationSpecIn::FillBase { base_spec_label: "grass".to_string() },
            GenerationSpecIn::RandomBase { base_spec_label: "dirt".to_string() },
            GenerationSpecIn::RandomBlock { block_spec_label: "tree".to_string() },
        ],
        player_specs: vec![PlayerSpecIn {
            label: "hero".to_string(),
            entity_spec_label: "player".to_string(),
            texture_path: "hero.png".to_string(),
        }],
    }
}

#[test]
fn mip_options_by_name() {
    assert_eq!(MipOption::parse(&"clamp".to_string()), Some(MipOption::Clamp));
    assert_eq!(MipOption::parse(&"repeat".to_string()), Some(MipOption::Repeat));
    assert_eq!(MipOption::parse(&"mirror".to_string()), Some(MipOption::Mirror));
    assert_eq!(MipOption::parse(&"Clamp".to_string()), None);
}

#[test]
fn labels_resolve_to_first_spec() {
    let input = input();
    assert!(input.is_valid());
    let assets = Assets::new(&input);
    assert_eq!(assets.base_specs.len(), 3);
    assert_eq!(assets.base_specs[2].id, 2);
    assert_eq!(assets.base_specs[1].texture_mip_option, MipOption::Repeat);
    assert_eq!(assets.block_specs[0].internal_size, ivec2(2, 1));
    assert_eq!(assets.entity_specs[0].texture_mip_option, MipOption::Mirror);
    assert_eq!(
        assets.generation_specs,
        vec![
            GenerationSpec::FillBase { id: 0, base_spec_id: 1 },
            GenerationSpec::RandomBase { id: 1, base_spec_id: 0 },
            GenerationSpec::RandomBlock { id: 2, block_spec_id: 0 },
        ]
    );
    assert_eq!(assets.player_specs[0].entity_spec_id, 0);
}

#[test]
fn unknown_labels_and_options_are_invalid() {
    let mut bad_label = input();
    bad_label.generation_specs.push(GenerationSpecIn::RandomBlock { block_spec_label: "rock".to_string() });
    assert!(!bad_label.is_valid());
    let mut bad_option = input();
    bad_option.base_specs[0].texture_mip_option = "wrap".to_string();
    assert!(!bad_option.is_valid());
    let mut bad_player = input();
    bad_player.player_specs[0].entity_spec_label = "ghost".to_string();
    assert!(!bad_player.is_valid());
}
