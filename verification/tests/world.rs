use journey::geometry::Point;
use journey::world::{Components, Entity, Image, Query, World};

fn splash_tagged() -> Components {
    Components { splash_screen: true, ..Components::empty() }
}

fn ids(world: &World) -> Vec<u64> {
    (0..world.len()).map(|i| world.get(i).id).collect()
}

#[test]
fn empty_components_mark_nothing() {
    let c = Components::empty();
    assert!(!c.camera && !c.splash_screen && !c.continue_prompt && !c.player);
    assert_eq!(c.image, None);
    assert_eq!(c.translation, Point { x: 0, y: 0 });
    assert_eq!(c.tilemap, None);
    assert_eq!(c.texture_index, 0);
    assert_eq!(c.animation, None);
}

#[test]
fn a_new_world_is_empty() {
    let world = World::new();
    assert_eq!(world.len(), 0);
    assert_eq!(world.next_id(), 0);
    assert!(!world.contains_id(0));
    assert_eq!(world.query(Query::SplashScreen), Vec::<u64>::new());
}

#[test]
fn spawn_gives_out_ascending_identities() {
    let mut world = World::new();
    assert_eq!(world.spawn(None, Components::empty()), 0);
    assert_eq!(world.spawn(Some(0), splash_tagged()), 1);
    assert_eq!(world.spawn(None, Components::empty()), 2);
    assert_eq!(world.len(), 3);
    assert_eq!(world.next_id(), 3);
    assert_eq!(
        world.get(1),
        Entity { id: 1, parent: Some(0), components: splash_tagged() }
    );
    assert!(world.contains_id(2));
    assert!(!world.contains_id(3));
}

#[test]
fn identities_are_not_given_out_again() {
    let mut world = World::new();
    world.spawn(None, Components::empty());
    world.spawn(None, Components::empty());
    world.despawn_recursive(1);
    assert_eq!(world.next_id(), 2);
    assert_eq!(world.spawn(None, Components::empty()), 2);
    assert_eq!(ids(&world), vec![0, 2]);
}

#[test]
fn each_query_selects_by_its_marker() {
    let mut world = World::new();
    world.spawn(None, Components { camera: true, ..Components::empty() });
    world.spawn(None, splash_tagged());
    world.spawn(
        None,
        Components { splash_screen: true, continue_prompt: true, ..Components::empty() },
    );
    world.spawn(None, Components { player: true, ..Components::empty() });
    world.spawn(None, Components { camera: true, player: true, ..Components::empty() });
    assert_eq!(world.query(Query::Camera), vec![0]);
    assert_eq!(world.query(Query::SplashScreen), vec![1, 2]);
    assert_eq!(world.query(Query::Continue), vec![2]);
    assert_eq!(world.query(Query::Player), vec![3, 4]);
    assert_eq!(world.single(Query::Camera), 0);
    assert_eq!(world.single(Query::Continue), 2);
    assert!(world.get(4).matches(Query::Player));
    assert!(!world.get(4).matches(Query::Camera));
}

#[test]
fn despawn_takes_everything_attached_however_deep() {
    let mut world = World::new();
    let root = world.spawn(None, Components::empty());
    let child = world.spawn(Some(root), Components::empty());
    let other = world.spawn(None, Components::empty());
    let grandchild = world.spawn(Some(child), Components::empty());
    let of_other = world.spawn(Some(other), Components::empty());
    let great = world.spawn(Some(grandchild), Components::empty());
    assert_eq!((root, child, other, grandchild, of_other, great), (0, 1, 2, 3, 4, 5));
    world.despawn_recursive(child);
    assert_eq!(ids(&world), vec![0, 2, 4]);
    world.despawn_recursive(other);
    assert_eq!(ids(&world), vec![0]);
    assert_eq!(world.next_id(), 6);
}

#[test]
fn despawn_of_an_unknown_identity_changes_nothing() {
    let mut world = World::new();
    world.spawn(None, Components::empty());
    world.spawn(Some(0), Components::empty());
    world.despawn_recursive(7);
    assert_eq!(ids(&world), vec![0, 1]);
    world.despawn_all_recursive(&vec![]);
    assert_eq!(ids(&world), vec![0, 1]);
    assert_eq!(world.get(1).parent, Some(0));
}

#[test]
fn despawn_of_several_roots_keeps_the_rest_in_order() {
    let mut world = World::new();
    for _ in 0..3 {
        world.spawn(None, Components::empty());
    }
    world.spawn(Some(1), Components::empty());
    world.spawn(Some(2), splash_tagged());
    world.despawn_all_recursive(&vec![4, 1, 1, 9]);
    assert_eq!(ids(&world), vec![0, 2]);
    assert_eq!(world.get(1).components, Components::empty());
}

#[test]
fn set_translation_moves_one_entity() {
    let mut world = World::new();
    world.spawn(None, splash_tagged());
    world.spawn(None, Components { player: true, ..Components::empty() });
    world.set_translation(1, Point { x: 5, y: -7 });
    assert_eq!(world.get(0), Entity { id: 0, parent: None, components: splash_tagged() });
    assert_eq!(
        world.get(1).components,
        Components { player: true, translation: Point { x: 5, y: -7 }, ..Components::empty() }
    );
    assert_eq!(world.get(1).id, 1);
}

#[test]
fn set_texture_index_changes_one_tile() {
    let mut world = World::new();
    world.spawn(None, splash_tagged());
    world.spawn(None, splash_tagged());
    world.set_texture_index(0, 9);
    assert_eq!(world.get(0).components.texture_index, 9);
    assert_eq!(world.get(1).components.texture_index, 0);
    assert!(world.get(0).components.splash_screen);
}

#[test]
fn each_image_has_its_file() {
    assert_eq!(Image::TitleScreenBackground.file_name(), "title_screen_background.png");
    assert_eq!(Image::Planet.file_name(), "Planet.png");
    assert_eq!(Image::Continue.file_name(), "continue.png");
    assert_eq!(Image::LittleGuy.file_name(), "little_guy.png");
    assert_eq!(Image::GrassSquare.file_name(), "grass_square.png");
}
