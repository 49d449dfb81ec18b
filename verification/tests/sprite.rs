use lemon_colonies_client::game::sprite::{Atlas, GridCell, Terrain};
use lemon_colonies_client::ui::icon::{Icon, IconSource};

#[test]
fn terrain_cells_run_four_to_a_row() {
    assert_eq!(Terrain::GrassPlain.sprite_cell(), GridCell { atlas: Atlas::BaseOverworld, x: 0, y: 0 });
    assert_eq!(Terrain::GrassVariant3.sprite_cell(), GridCell { atlas: Atlas::BaseOverworld, x: 3, y: 0 });
    assert_eq!(Terrain::GrassVariant4.sprite_cell(), GridCell { atlas: Atlas::BaseOverworld, x: 0, y: 1 });
    assert_eq!(
        Terrain::GrassFlowersCrossMagentaSmall.sprite_cell(),
        GridCell { atlas: Atlas::BaseOverworld, x: 3, y: 5 }
    );
    assert_eq!(
        Terrain::GrassShroomsBrownSmall.sprite_cell(),
        GridCell { atlas: Atlas::BaseOverworld, x: 3, y: 6 }
    );
}

#[test]
fn icon_sources() {
    assert_eq!(
        Icon::RaspberryBush.sprite_source(),
        IconSource { atlas: Atlas::BaseOverworld, x: 99, y: 654, w: 10, h: 10 }
    );
    assert_eq!(
        Icon::GolberryBush.sprite_source(),
        IconSource { atlas: Atlas::BaseOverworld, x: 147, y: 654, w: 10, h: 10 }
    );
    assert_eq!(
        Icon::Golberries.sprite_source(),
        IconSource { atlas: Atlas::BaseItems, x: 48, y: 208, w: 8, h: 8 }
    );
    assert_eq!(
        Icon::Blueberries.sprite_source(),
        IconSource { atlas: Atlas::BaseItems, x: 16, y: 208, w: 8, h: 8 }
    );
}
