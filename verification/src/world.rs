//! The entity store: what exists in the scene, and the markers by which
//! entities are found again.

use crate::despawn::{last_goes, lemma_despawn_wf, removed_ids, survivors};
use crate::geometry::Point;
use vstd::prelude::*;

verus! {

/// An image that an entity is drawn with.
#[derive(Clone, Copy, PartialEq, Eq, Structural, Debug, Hash)]
pub enum Image {
    /// The starry background of the title screen.
    TitleScreenBackground,
    /// The frames of the spinning planet.
    Planet,
    /// The two looks of the continue prompt.
    Continue,
    /// The character that the player steers.
    LittleGuy,
    /// The ground of the playable scene.
    GrassSquare,
}

/// A tile that cycles through a range of frames.
#[derive(Clone, Copy, PartialEq, Eq, Structural, Debug, Hash)]
pub struct AnimatedTile {
    /// The first frame of the range.
    pub start: u32,
    /// The end of the range, which is not itself shown.
    pub end: u32,
    /// How long each frame is shown, in milliseconds.
    pub frame_millis: u32,
}

/// What an entity is made of.
#[derive(Clone, Copy, PartialEq, Eq, Debug)]
pub struct Components {
    /// The entity is a camera.
    pub camera: bool,
    /// The entity belongs to the splash screen and goes away with it.
    pub splash_screen: bool,
    /// The entity is the continue prompt.
    pub continue_prompt: bool,
    /// The entity is the character that the player steers.
    pub player: bool,
    /// The image of a sprite or of a tile map.
    pub image: Option<Image>,
    /// Where the entity is.
    pub translation: Point,
    /// For a tile, the tile map it belongs to.
    pub tilemap: Option<u64>,
    /// For a tile, which tile of the map's image it shows.
    pub texture_index: u32,
    /// For a tile, the animation it plays.
    pub animation: Option<AnimatedTile>,
}

/// An entity of the scene.
#[derive(Clone, Copy, PartialEq, Eq, Debug)]
pub struct Entity {
    /// The entity's identity, never given out twice by one world.
    pub id: u64,
    /// The entity that this one is attached to.
    pub parent: Option<u64>,
    /// What the entity is made of.
    pub components: Components,
}

/// A way to select entities.
#[derive(Clone, Copy, PartialEq, Eq, Structural, Debug, Hash)]
pub enum Query {
    /// The cameras that are not the player.
    Camera,
    /// The entities of the splash screen.
    SplashScreen,
    /// The continue prompt.
    Continue,
    /// The player's character.
    Player,
}

impl Image {
    /// The name of the file that holds the image.
    pub open spec fn spec_file_name(self) -> Seq<char> {
        match self {
            Image::TitleScreenBackground => "title_screen_background.png"@,
            Image::Planet => "Planet.png"@,
            Image::Continue => "continue.png"@,
            Image::LittleGuy => "little_guy.png"@,
            Image::GrassSquare => "grass_square.png"@,
        }
    }

    /// The name of the file that holds the image.
    pub fn file_name(self) -> (name: &'static str)
        ensures
            name@ == self.spec_file_name(),
    {
        match self {
            Image::TitleScreenBackground => "title_screen_background.png",
            Image::Planet => "Planet.png",
            Image::Continue => "continue.png",
            Image::LittleGuy => "little_guy.png",
            Image::GrassSquare => "grass_square.png",
        }
    }
}

impl Components {
    /// Components of an entity that is nothing yet: no marker, no image, at
    /// the origin.
    pub open spec fn spec_empty() -> Components {
        Components {
            camera: false,
            splash_screen: false,
            continue_prompt: false,
            player: false,
            image: None,
            translation: Point { x: 0, y: 0 },
            tilemap: None,
            texture_index: 0,
            animation: None,
        }
    }

    /// Components of an entity that is nothing yet.
    pub fn empty() -> (c: Components)
        ensures
            c == Components::spec_empty(),
    {
        Components {
            camera: false,
            splash_screen: false,
            continue_prompt: false,
            player: false,
            image: None,
            translation: Point { x: 0, y: 0 },
            tilemap: None,
            texture_index: 0,
            animation: None,
        }
    }
}

impl Entity {
    /// Whether `query` selects the entity.
    pub open spec fn spec_matches(self, query: Query) -> bool {
        match query {
            Query::Camera => self.components.camera && !self.components.player,
            Query::SplashScreen => self.components.splash_screen,
            Query::Continue => self.components.continue_prompt,
            Query::Player => self.components.player,
        }
    }

    /// Whether `query` selects the entity.
    pub fn matches(&self, query: Query) -> (selected: bool)
        ensures
            selected == self.spec_matches(query),
    {
        match query {
            Query::Camera => self.components.camera && !self.components.player,
            Query::SplashScreen => self.components.splash_screen,
            Query::Continue => self.components.continue_prompt,
            Query::Player => self.components.player,
        }
    }
}

/// Whether the entities are listed by strictly ascending identity.
pub open spec fn ascending(entities: Seq<Entity>) -> bool {
    forall|i: int, j: int| 0 <= i < j < entities.len() ==> entities[i].id < entities[j].id
}

/// Whether the entity at `i` is unattached or has its parent before it in
/// the list.
pub open spec fn parent_precedes(entities: Seq<Entity>, i: int) -> bool {
    entities[i].parent matches Some(parent) ==> exists|j: int|
        0 <= j < i && entities[j].id == parent
}

/// Whether the parent of each attached entity comes before it in the list.
pub open spec fn parents_precede(entities: Seq<Entity>) -> bool {
    forall|i: int| 0 <= i < entities.len() ==> #[trigger] parent_precedes(entities, i)
}

/// Whether `query` selects the entity at `i` and no other.
pub open spec fn is_single(entities: Seq<Entity>, query: Query, i: int) -> bool {
    &&& 0 <= i < entities.len()
    &&& entities[i].spec_matches(query)
    &&& forall|j: int| 0 <= j < entities.len() && entities[j].spec_matches(query) ==> j == i
}

/// Whether `query` selects exactly one entity.
pub open spec fn has_single(entities: Seq<Entity>, query: Query) -> bool {
    exists|i: int| is_single(entities, query, i)
}

/// Whether `query` selects no entity.
pub open spec fn has_none(entities: Seq<Entity>, query: Query) -> bool {
    forall|j: int| 0 <= j < entities.len() ==> !entities[j].spec_matches(query)
}

/// The position of the one entity that `query` selects.
pub open spec fn single_index(entities: Seq<Entity>, query: Query) -> int {
    choose|i: int| is_single(entities, query, i)
}

/// The identities of the entities that `query` selects, in the order of the
/// list.
pub open spec fn selected_ids(entities: Seq<Entity>, query: Query) -> Seq<u64>
    decreases entities.len(),
{
    if entities.len() == 0 {
        Seq::empty()
    } else if entities.last().spec_matches(query) {
        selected_ids(entities.drop_last(), query).push(entities.last().id)
    } else {
        selected_ids(entities.drop_last(), query)
    }
}

/// A query's result holds the identities of the entities it selects, and no
/// others.
pub proof fn lemma_selected_ids(entities: Seq<Entity>, query: Query)
    ensures
        forall|i: int|
            0 <= i < entities.len() && (#[trigger] entities[i].spec_matches(query))
                ==> selected_ids(entities, query).contains(entities[i].id),
        forall|id: u64| #[trigger]
            selected_ids(entities, query).contains(id) ==> exists|i: int|
                0 <= i < entities.len() && entities[i].id == id && entities[i].spec_matches(
                    query,
                ),
    decreases entities.len(),
{
    if entities.len() > 0 {
        let front = entities.drop_last();
        let last = entities.last();
        let ids = selected_ids(entities, query);
        let ids_front = selected_ids(front, query);
        lemma_selected_ids(front, query);
        assert forall|i: int|
            0 <= i < entities.len() && (#[trigger] entities[i].spec_matches(
                query,
            )) implies ids.contains(entities[i].id) by {
            if i < front.len() {
                assert(front[i].spec_matches(query));
                let k = choose|k: int| 0 <= k < ids_front.len() && ids_front[k] == front[i].id;
                assert(ids[k] == entities[i].id);
            } else {
                assert(ids[ids.len() - 1] == entities[i].id);
            }
        }
        assert forall|id: u64| #[trigger] ids.contains(id) implies exists|i: int|
            0 <= i < entities.len() && entities[i].id == id && entities[i].spec_matches(
                query,
            ) by {
            let k = choose|k: int| 0 <= k < ids.len() && ids[k] == id;
            if k < ids_front.len() {
                assert(ids_front[k] == id);
                assert(ids_front.contains(id));
                let i = choose|i: int|
                    0 <= i < front.len() && front[i].id == id && front[i].spec_matches(query);
                assert(entities[i].id == id && entities[i].spec_matches(query));
            } else {
                assert(entities[entities.len() - 1].id == id);
            }
        }
    }
}

/// A query that selects no entity has an empty result, and the other way
/// round.
pub proof fn lemma_none_selected(entities: Seq<Entity>, query: Query)
    ensures
        has_none(entities, query) <==> selected_ids(entities, query) == Seq::<u64>::empty(),
{
    lemma_selected_ids(entities, query);
    let ids = selected_ids(entities, query);
    if has_none(entities, query) {
        if ids.len() > 0 {
            assert(ids.contains(ids[0]));
        }
        assert(ids =~= Seq::<u64>::empty());
    }
    if ids == Seq::<u64>::empty() {
        assert forall|j: int| 0 <= j < entities.len() implies !entities[j].spec_matches(
            query,
        ) by {
            if entities[j].spec_matches(query) {
                assert(ids.contains(entities[j].id));
            }
        }
    }
}

/// An added entity that a query does not select leaves the query's one
/// entity where it was.
pub proof fn lemma_push_keeps_single(entities: Seq<Entity>, entity: Entity, query: Query)
    requires
        has_single(entities, query),
        !entity.spec_matches(query),
    ensures
        has_single(entities.push(entity), query),
        single_index(entities.push(entity), query) == single_index(entities, query),
{
    let i = single_index(entities, query);
    let after = entities.push(entity);
    assert(is_single(after, query, i)) by {
        assert(after[i] == entities[i]);
        assert forall|j: int| 0 <= j < after.len() && after[j].spec_matches(query) implies j
            == i by {
            if j < entities.len() {
                assert(after[j] == entities[j]);
            }
        }
    }
    assert(is_single(after, query, single_index(after, query)));
}

/// An added entity that a query selects is the query's one entity if there
/// was none before.
pub proof fn lemma_push_makes_single(entities: Seq<Entity>, entity: Entity, query: Query)
    requires
        has_none(entities, query),
        entity.spec_matches(query),
    ensures
        has_single(entities.push(entity), query),
        single_index(entities.push(entity), query) == entities.len(),
{
    let after = entities.push(entity);
    let i = entities.len() as int;
    assert(is_single(after, query, i)) by {
        assert(after[i] == entity);
        assert forall|j: int| 0 <= j < after.len() && after[j].spec_matches(query) implies j
            == i by {
            if j < entities.len() {
                assert(after[j] == entities[j]);
            }
        }
    }
    assert(is_single(after, query, single_index(after, query)));
}

/// An added entity that a query does not select leaves the query empty if
/// it was.
pub proof fn lemma_push_keeps_none(entities: Seq<Entity>, entity: Entity, query: Query)
    requires
        has_none(entities, query),
        !entity.spec_matches(query),
    ensures
        has_none(entities.push(entity), query),
{
    let after = entities.push(entity);
    assert forall|j: int| 0 <= j < after.len() implies !after[j].spec_matches(query) by {
        if j < entities.len() {
            assert(after[j] == entities[j]);
        }
    }
}

/// Changing an entity without changing whether a query selects it leaves
/// the query's one entity where it was.
pub proof fn lemma_update_keeps_single(
    entities: Seq<Entity>,
    i: int,
    entity: Entity,
    query: Query,
)
    requires
        0 <= i < entities.len(),
        entity.spec_matches(query) == entities[i].spec_matches(query),
        has_single(entities, query),
    ensures
        has_single(entities.update(i, entity), query),
        single_index(entities.update(i, entity), query) == single_index(entities, query),
{
    let k = single_index(entities, query);
    let after = entities.update(i, entity);
    assert(is_single(after, query, k)) by {
        assert forall|j: int| 0 <= j < after.len() && after[j].spec_matches(query) implies j
            == k by {
            assert(entities[j].spec_matches(query));
        }
    }
    assert(is_single(after, query, single_index(after, query)));
}

/// Changing an entity without changing whether a query selects it leaves
/// the query empty if it was.
pub proof fn lemma_update_keeps_none(entities: Seq<Entity>, i: int, entity: Entity, query: Query)
    requires
        0 <= i < entities.len(),
        entity.spec_matches(query) == entities[i].spec_matches(query),
        has_none(entities, query),
    ensures
        has_none(entities.update(i, entity), query),
{
}

/// The mathematical content of a [`World`].
pub struct WorldView {
    /// The entities, oldest first.
    pub entities: Seq<Entity>,
    /// The identity that the next entity gets.
    pub next_id: u64,
}

impl WorldView {
    /// The world without entities, which has given out no identity yet.
    pub open spec fn spec_new() -> WorldView {
        WorldView { entities: Seq::empty(), next_id: 0 }
    }

    /// Identities ascend and lie below the next one to be given out, and
    /// every attached entity's parent exists.
    pub open spec fn wf(self) -> bool {
        &&& ascending(self.entities)
        &&& parents_precede(self.entities)
        &&& forall|i: int| 0 <= i < self.entities.len() ==> self.entities[i].id < self.next_id
    }

    /// Whether an entity with identity `id` exists.
    pub open spec fn contains_id(self, id: u64) -> bool {
        exists|i: int| 0 <= i < self.entities.len() && self.entities[i].id == id
    }

    /// Whether a new entity may be attached to `parent`.
    pub open spec fn accepts_parent(self, parent: Option<u64>) -> bool {
        parent matches Some(p) ==> self.contains_id(p)
    }

    /// The entity that `spawn` adds.
    pub open spec fn spawned(self, parent: Option<u64>, components: Components) -> Entity {
        Entity { id: self.next_id, parent, components }
    }

    /// The world after a spawn.
    pub open spec fn spawn(self, parent: Option<u64>, components: Components) -> WorldView {
        WorldView {
            entities: self.entities.push(self.spawned(parent, components)),
            next_id: (self.next_id + 1) as u64,
        }
    }

    /// The world with the entity at `i` moved to `translation`.
    pub open spec fn with_translation(self, i: int, translation: Point) -> WorldView {
        WorldView {
            entities: self.entities.update(
                i,
                Entity {
                    components: Components { translation, ..self.entities[i].components },
                    ..self.entities[i]
                },
            ),
            ..self
        }
    }

    /// The world with the tile at `i` showing `texture_index`.
    pub open spec fn with_texture_index(self, i: int, texture_index: u32) -> WorldView {
        WorldView {
            entities: self.entities.update(
                i,
                Entity {
                    components: Components { texture_index, ..self.entities[i].components },
                    ..self.entities[i]
                },
            ),
            ..self
        }
    }
}

/// A spawn keeps the world in order.
pub proof fn lemma_spawn_wf(world: WorldView, parent: Option<u64>, components: Components)
    requires
        world.wf(),
        world.next_id < u64::MAX,
        world.accepts_parent(parent),
    ensures
        world.spawn(parent, components).wf(),
{
    let before = world.entities;
    let after = world.spawn(parent, components).entities;
    assert forall|i: int| 0 <= i < after.len() implies #[trigger] parent_precedes(after, i) by {
        if i < before.len() {
            assert(after[i] == before[i]);
            assert(parent_precedes(before, i));
            if let Some(p) = before[i].parent {
                let j = choose|j: int| 0 <= j < i && before[j].id == p;
                assert(after[j].id == p);
            }
        } else if let Some(p) = parent {
            let j = choose|j: int| 0 <= j < before.len() && before[j].id == p;
            assert(after[j].id == p);
        }
    }
}

/// Moving an entity keeps the world in order.
pub proof fn lemma_with_translation_wf(world: WorldView, i: int, translation: Point)
    requires
        world.wf(),
        0 <= i < world.entities.len(),
    ensures
        world.with_translation(i, translation).wf(),
{
    lemma_update_keeps_order(
        world.entities,
        i,
        world.with_translation(i, translation).entities[i],
    );
}

/// Changing what a tile shows keeps the world in order.
pub proof fn lemma_with_texture_index_wf(world: WorldView, i: int, texture_index: u32)
    requires
        world.wf(),
        0 <= i < world.entities.len(),
    ensures
        world.with_texture_index(i, texture_index).wf(),
{
    lemma_update_keeps_order(
        world.entities,
        i,
        world.with_texture_index(i, texture_index).entities[i],
    );
}

/// The entity store.
#[derive(Debug)]
pub struct World {
    entities: Vec<Entity>,
    next_id: u64,
}

impl View for World {
    type V = WorldView;

    closed spec fn view(&self) -> WorldView {
        WorldView { entities: self.entities@, next_id: self.next_id }
    }
}

impl World {
    #[verifier::type_invariant]
    closed spec fn inv(self) -> bool {
        self@.wf()
    }

    /// A world without entities.
    pub fn new() -> (world: World)
        ensures
            world@ == WorldView::spec_new(),
            world@.wf(),
    {
        World { entities: Vec::new(), next_id: 0 }
    }

    /// The number of entities.
    pub fn len(&self) -> (n: usize)
        ensures
            n == self@.entities.len(),
            self@.wf(),
    {
        proof {
            use_type_invariant(self);
        }
        self.entities.len()
    }

    /// The identity that the next entity gets.
    pub fn next_id(&self) -> (id: u64)
        ensures
            id == self@.next_id,
    {
        self.next_id
    }

    /// The entity at position `i`, counted from the oldest.
    pub fn get(&self, i: usize) -> (entity: Entity)
        requires
            i < self@.entities.len(),
        ensures
            entity == self@.entities[i as int],
    {
        self.entities[i]
    }

    /// Whether an entity with identity `id` exists.
    pub fn contains_id(&self, id: u64) -> (found: bool)
        ensures
            found == self@.contains_id(id),
    {
        let mut i: usize = 0;
        while i < self.entities.len()
            invariant
                i <= self.entities.len(),
                forall|k: int| 0 <= k < i ==> self.entities@[k].id != id,
            decreases self.entities.len() - i,
        {
            if self.entities[i].id == id {
                return true;
            }
            i += 1;
        }
        false
    }

    /// Adds an entity made of `components`, attached to `parent` if one is
    /// given, and returns its identity.
    pub fn spawn(&mut self, parent: Option<u64>, components: Components) -> (id: u64)
        requires
            old(self)@.next_id < u64::MAX,
            old(self)@.accepts_parent(parent),
        ensures
            id == old(self)@.next_id,
            final(self)@ == old(self)@.spawn(parent, components),
    {
        proof {
            use_type_invariant(&*self);
        }
        let id = self.next_id;
        proof {
            lemma_spawn_wf(self@, parent, components);
        }
        let mut entities: Vec<Entity> = Vec::new();
        std::mem::swap(&mut entities, &mut self.entities);
        entities.push(Entity { id, parent, components });
        *self = World { entities, next_id: id + 1 };
        id
    }

    /// Moves the entity at position `i` to `translation`.
    pub fn set_translation(&mut self, i: usize, translation: Point)
        requires
            i < old(self)@.entities.len(),
        ensures
            final(self)@ == old(self)@.with_translation(i as int, translation),
    {
        proof {
            use_type_invariant(&*self);
        }
        let mut entity = self.entities[i];
        entity.components.translation = translation;
        proof {
            lemma_update_keeps_order(self.entities@, i as int, entity);
        }
        let mut entities: Vec<Entity> = Vec::new();
        std::mem::swap(&mut entities, &mut self.entities);
        entities.set(i, entity);
        *self = World { entities, next_id: self.next_id };
    }

    /// Makes the tile at position `i` show `texture_index`.
    pub fn set_texture_index(&mut self, i: usize, texture_index: u32)
        requires
            i < old(self)@.entities.len(),
        ensures
            final(self)@ == old(self)@.with_texture_index(i as int, texture_index),
    {
        proof {
            use_type_invariant(&*self);
        }
        let mut entity = self.entities[i];
        entity.components.texture_index = texture_index;
        proof {
            lemma_update_keeps_order(self.entities@, i as int, entity);
        }
        let mut entities: Vec<Entity> = Vec::new();
        std::mem::swap(&mut entities, &mut self.entities);
        entities.set(i, entity);
        *self = World { entities, next_id: self.next_id };
    }

    /// The position of the one entity that `query` selects.
    pub fn single(&self, query: Query) -> (i: usize)
        requires
            has_single(self@.entities, query),
        ensures
            is_single(self@.entities, query, i as int),
            i == single_index(self@.entities, query),
    {
        let ghost target = single_index(self@.entities, query);
        let mut i: usize = 0;
        while i < self.entities.len()
            invariant
                i <= target < self.entities.len(),
                is_single(self@.entities, query, target),
                self@.entities == self.entities@,
            decreases self.entities.len() - i,
        {
            if self.entities[i].matches(query) {
                return i;
            }
            i += 1;
        }
        i
    }

    /// The identities of the entities that `query` selects, oldest first.
    pub fn query(&self, query: Query) -> (ids: Vec<u64>)
        ensures
            ids@ == selected_ids(self@.entities, query),
            self@.wf(),
    {
        proof {
            use_type_invariant(self);
        }
        let mut ids: Vec<u64> = Vec::new();
        let mut i: usize = 0;
        while i < self.entities.len()
            invariant
                i <= self.entities.len(),
                ids@ == selected_ids(self.entities@.take(i as int), query),
            decreases self.entities.len() - i,
        {
            proof {
                assert(self.entities@.take(i + 1).drop_last() =~= self.entities@.take(i as int));
            }
            if self.entities[i].matches(query) {
                ids.push(self.entities[i].id);
            }
            i += 1;
        }
        proof {
            assert(self.entities@.take(i as int) =~= self.entities@);
        }
        ids
    }

    /// Removes the entities whose identity is in `roots`, each with
    /// everything attached to it, however deep. An identity that no entity
    /// has is passed over.
    pub fn despawn_all_recursive(&mut self, roots: &Vec<u64>)
        ensures
            final(self)@.entities == survivors(old(self)@.entities, roots@.to_set()),
            final(self)@.next_id == old(self)@.next_id,
    {
        proof {
            use_type_invariant(&*self);
        }
        let ghost all = self.entities@;
        let ghost targets = roots@.to_set();
        let mut kept: Vec<Entity> = Vec::new();
        let mut gone: Vec<u64> = Vec::new();
        let mut i: usize = 0;
        while i < self.entities.len()
            invariant
                i <= self.entities.len(),
                self.entities@ == all,
                targets == roots@.to_set(),
                kept@ == survivors(all.take(i as int), targets),
                gone@.to_set() =~= removed_ids(all.take(i as int), targets),
            decreases self.entities.len() - i,
        {
            let entity = self.entities[i];
            proof {
                assert(all.take(i + 1).drop_last() =~= all.take(i as int));
                assert(all.take(i + 1).last() == entity);
            }
            let rooted = contains_id(roots, entity.id);
            let orphaned = match entity.parent {
                Some(parent) => contains_id(&gone, parent),
                None => false,
            };
            assert(rooted || orphaned <==> last_goes(all.take(i + 1), targets));
            if rooted || orphaned {
                let ghost before = gone@;
                gone.push(entity.id);
                assert(gone@.to_set() =~= before.to_set().insert(entity.id)) by {
                    assert forall|id: u64| gone@.contains(id) <==> before.to_set().insert(
                        entity.id,
                    ).contains(id) by {
                        if gone@.contains(id) {
                            let k = choose|k: int| 0 <= k < gone@.len() && gone@[k] == id;
                            if k < before.len() {
                                assert(before[k] == id);
                            }
                        }
                        if before.contains(id) {
                            let k = choose|k: int| 0 <= k < before.len() && before[k] == id;
                            assert(gone@[k] == id);
                        }
                        if id == entity.id {
                            assert(gone@[gone@.len() - 1] == id);
                        }
                    }
                }
            } else {
                kept.push(entity);
            }
            i += 1;
        }
        proof {
            assert(all.take(i as int) =~= all);
            lemma_despawn_wf(old(self)@, targets);
        }
        *self = World { entities: kept, next_id: self.next_id };
    }

    /// Removes the entity with identity `id` and everything attached to it.
    pub fn despawn_recursive(&mut self, id: u64)
        ensures
            final(self)@.entities == survivors(old(self)@.entities, set![id]),
            final(self)@.next_id == old(self)@.next_id,
    {
        let mut roots: Vec<u64> = Vec::new();
        roots.push(id);
        proof {
            assert(roots@ =~= seq![id]);
            assert(roots@.to_set() =~= set![id]) by {
                assert forall|x: u64| roots@.contains(x) <==> set![id].contains(x) by {
                    if x == id {
                        assert(roots@[0] == x);
                    }
                }
            }
        }
        self.despawn_all_recursive(&roots);
    }
}

/// Whether `id` occurs in `ids`.
fn contains_id(ids: &Vec<u64>, id: u64) -> (found: bool)
    ensures
        found == ids@.to_set().contains(id),
{
    let mut i: usize = 0;
    while i < ids.len()
        invariant
            i <= ids.len(),
            forall|k: int| 0 <= k < i ==> ids@[k] != id,
        decreases ids.len() - i,
    {
        if ids[i] == id {
            assert(ids@.contains(id));
            return true;
        }
        i += 1;
    }
    assert(!ids@.contains(id));
    false
}

/// Replacing an entity by one of the same identity and parent keeps the
/// list in order.
proof fn lemma_update_keeps_order(entities: Seq<Entity>, i: int, entity: Entity)
    requires
        0 <= i < entities.len(),
        entity.id == entities[i].id,
        entity.parent == entities[i].parent,
        ascending(entities),
        parents_precede(entities),
    ensures
        ascending(entities.update(i, entity)),
        parents_precede(entities.update(i, entity)),
{
    let after = entities.update(i, entity);
    assert forall|k: int| 0 <= k < after.len() implies #[trigger] parent_precedes(after, k) by {
        assert(parent_precedes(entities, k));
        if let Some(p) = entities[k].parent {
            let j = choose|j: int| 0 <= j < k && entities[j].id == p;
            assert(after[j].id == p);
        }
    }
}

} // verus!
