//! The decision engine: a fixed chain of evaluators, each of which either
//! answers with a priority and an action or hands over to the next.
use vstd::prelude::*;
use vstd::string::*;

use crate::broadcast::{decode_spec, does_need_help, should_respond_to_help};
use crate::inventory::{resource_name, Inventory, Resource};
use crate::levels::requirement_spec;
use crate::movement::Position;
use crate::server_event::{string_views, EventView, ServerEvent};
use crate::session::Session;
use crate::vision::{
    capped, food_seen, has_level_requirements, known_tiles, ready_to_rise, see_food, seen_count,
    tile_words,
};

verus! {

/// How urgent an action is; earlier variants are more urgent.
#[derive(Debug, Clone, Copy, PartialEq, Eq, Structural)]
pub enum Priority {
    Critical,
    High,
    Medium,
    Low,
}

/// What the agent sets out to do this cycle.
#[derive(Debug, Clone, Copy, PartialEq, Eq, Structural)]
pub enum Action {
    FindFood,
    CollectResource,
    LevelUp,
    Explore,
    HatchEgg,
    Wait,
    LayEgg,
    /// Answer a teammate's call to rise to `target_level` and go to it.
    JoinTeam { target_level: u32, position: Position },
}

/// What the evaluators look at: the agent's level and inventory, the tiles
/// of its last look, and its team.
#[derive(Debug, Clone)]
pub struct Observation {
    pub level: u32,
    pub inventory: Inventory,
    pub tiles: Vec<String>,
    pub team: String,
}

/// The food count of a look below which food comes first.
pub const FOOD_THRESHOLD: u64 = 4;

/// Answers when the known tiles hold too little food.
pub struct FoodNode {
    food_threshold: u64,
    next: Option<Box<DecisionNodeEnum>>,
}

/// Answers when a mineral the next level asks for is missing and in sight;
/// its list holds the minerals in the order they are looked for.
pub struct ResourceNode {
    resource_priority: Vec<Resource>,
    next: Option<Box<DecisionNodeEnum>>,
}

/// Answers when everything for the next elevation is at hand.
pub struct LevelUpNode {
    next: Option<Box<DecisionNodeEnum>>,
}

/// Takes the oldest waiting message, and answers when it is a call for
/// help that the agent can serve.
pub struct JoinNode {
    next: Option<Box<DecisionNodeEnum>>,
}

/// Always answers with laying an egg.
pub struct LayEggNode {
    next: Option<Box<DecisionNodeEnum>>,
}

/// One link of the chain.
pub enum DecisionNodeEnum {
    Food(FoodNode),
    Resource(ResourceNode),
    LevelUp(LevelUpNode),
    Join(JoinNode),
}

/// The chain of evaluators, from its first link.
pub struct DecisionTree {
    root: Box<DecisionNodeEnum>,
}

/// What a link of the chain checks.
pub enum NodeKind {
    Food { threshold: u64 },
    Resource { priority: Seq<Resource> },
    LevelUp,
    Join,
}

/// The kinds of the links from `node` to the end of the chain.
pub closed spec fn chain_kinds(node: DecisionNodeEnum) -> Seq<NodeKind>
    decreases node,
{
    match node {
        DecisionNodeEnum::Food(n) => seq![NodeKind::Food { threshold: n.food_threshold }]
            + match n.next {
            Some(b) => chain_kinds(*b),
            None => Seq::empty(),
        },
        DecisionNodeEnum::Resource(n) => seq![NodeKind::Resource { priority: n.resource_priority@ }]
            + match n.next {
            Some(b) => chain_kinds(*b),
            None => Seq::empty(),
        },
        DecisionNodeEnum::LevelUp(n) => seq![NodeKind::LevelUp] + match n.next {
            Some(b) => chain_kinds(*b),
            None => Seq::empty(),
        },
        DecisionNodeEnum::Join(n) => seq![NodeKind::Join] + match n.next {
            Some(b) => chain_kinds(*b),
            None => Seq::empty(),
        },
    }
}

/// Every mineral, in the order collection looks for them: the preferred
/// linemate, deraumere, sibur and phiras first, then the rest.
pub open spec fn collection_order() -> Seq<Resource> {
    seq![
        Resource::Linemate,
        Resource::Deraumere,
        Resource::Sibur,
        Resource::Phiras,
        Resource::Mendiane,
        Resource::Thystame,
    ]
}

/// Some mineral that the next level asks for is carried in too small a
/// number and lies on a known tile.
pub open spec fn mineral_missing_in_sight(obs: &Observation) -> bool {
    match requirement_spec(obs.level as int + 1) {
        Some(req) => exists|r: Resource|
            r != Resource::Food && req.resources.count(r) > obs.inventory.count(r) && #[trigger] seen_count(
                obs_tiles(obs),
                resource_name(r),
                known_tiles(obs_tiles(obs)),
            ) > 0,
        None => false,
    }
}

/// The collection check of the engine's chain looks at every mineral the
/// next level asks for, not only the preferred ones.
pub proof fn lemma_collection_covers_every_mineral(obs: &Observation)
    ensures
        lacking_in_sight(obs, collection_order()) == mineral_missing_in_sight(obs),
{
    let order = collection_order();
    if let Some(req) = requirement_spec(obs.level as int + 1) {
        if mineral_missing_in_sight(obs) {
            let r = choose|r: Resource|
                r != Resource::Food && req.resources.count(r) > obs.inventory.count(r) && #[trigger] seen_count(
                    obs_tiles(obs),
                    resource_name(r),
                    known_tiles(obs_tiles(obs)),
                ) > 0;
            let i: int = match r {
                Resource::Linemate => 0,
                Resource::Deraumere => 1,
                Resource::Sibur => 2,
                Resource::Phiras => 3,
                Resource::Mendiane => 4,
                _ => 5,
            };
            assert(order[i] == r);
        }
        if lacking_in_sight(obs, order) {
            let i = choose|i: int|
                0 <= i < order.len() && req.resources.count(#[trigger] order[i])
                    > obs.inventory.count(order[i]) && seen_count(
                    obs_tiles(obs),
                    resource_name(order[i]),
                    known_tiles(obs_tiles(obs)),
                ) > 0;
            assert(order[i] != Resource::Food);
        }
    }
}

/// The chain that the engine runs: food, then elevation readiness, then
/// collection, then calls for help.
pub open spec fn standard_kinds() -> Seq<NodeKind> {
    seq![
        NodeKind::Food { threshold: FOOD_THRESHOLD },
        NodeKind::LevelUp,
        NodeKind::Resource { priority: collection_order() },
        NodeKind::Join,
    ]
}

/// The tiles of the observation's look.
pub open spec fn obs_tiles(obs: &Observation) -> Seq<Seq<char>> {
    string_views(obs.tiles@)
}

/// One of `priority` is asked for by the next level beyond what the agent
/// carries, and lies on a known tile.
pub open spec fn lacking_in_sight(obs: &Observation, priority: Seq<Resource>) -> bool {
    match requirement_spec(obs.level as int + 1) {
        Some(req) => exists|i: int|
            0 <= i < priority.len() && req.resources.count(#[trigger] priority[i])
                > obs.inventory.count(priority[i]) && seen_count(
                obs_tiles(obs),
                resource_name(priority[i]),
                known_tiles(obs_tiles(obs)),
            ) > 0,
        None => false,
    }
}

/// The call for help in the waiting message `e` that the agent should
/// answer: one of its own team, for a level at most one above its own.
pub open spec fn help_in(e: EventView, obs: &Observation) -> Option<(u32, Position)> {
    match e {
        EventView::Message(_, payload) => match decode_spec(payload, "HELP"@, obs.team@) {
            Some((l, p)) => if obs.level as int >= l as int - 1 {
                Some((l, p))
            } else {
                None
            },
            None => None,
        },
        _ => None,
    }
}

/// The answer of the chain `kinds` on `obs` with the messages `q` waiting,
/// and the messages left waiting. The first link that answers decides; with
/// none, the agent explores.
pub open spec fn run_chain(kinds: Seq<NodeKind>, obs: &Observation, q: Seq<EventView>) -> (
    Priority,
    Action,
    Seq<EventView>,
)
    decreases kinds.len(),
{
    if kinds.len() == 0 {
        (Priority::Low, Action::Explore, q)
    } else {
        let rest = kinds.drop_first();
        match kinds[0] {
            NodeKind::Food { threshold } => if capped(food_seen(obs_tiles(obs))) < threshold {
                (Priority::High, Action::FindFood, q)
            } else {
                run_chain(rest, obs, q)
            },
            NodeKind::LevelUp => if ready_to_rise(
                obs.level as int,
                obs.inventory,
                tile_words(obs_tiles(obs), 0),
            ) == Some(true) {
                (Priority::Critical, Action::LevelUp, q)
            } else {
                run_chain(rest, obs, q)
            },
            NodeKind::Resource { priority } => if lacking_in_sight(obs, priority) {
                (Priority::High, Action::CollectResource, q)
            } else {
                run_chain(rest, obs, q)
            },
            NodeKind::Join => if q.len() == 0 {
                run_chain(rest, obs, q)
            } else {
                match help_in(q[0], obs) {
                    Some((l, p)) => (
                        Priority::High,
                        Action::JoinTeam { target_level: l, position: p },
                        q.drop_first(),
                    ),
                    None => run_chain(rest, obs, q.drop_first()),
                }
            },
        }
    }
}

/// The engine's decision on `obs` with the messages `q` waiting.
pub open spec fn decide(obs: &Observation, q: Seq<EventView>) -> (Priority, Action, Seq<EventView>) {
    run_chain(standard_kinds(), obs, q)
}

/// Whatever else holds, too little food in sight is answered first: the
/// food evaluator heads the chain.
pub proof fn lemma_food_comes_first(obs: &Observation, q: Seq<EventView>)
    requires
        food_seen(obs_tiles(obs)) < FOOD_THRESHOLD,
    ensures
        decide(obs, q) == (Priority::High, Action::FindFood, q),
{
}

fn lacking_in_sight_exec(obs: &Observation, priority: &Vec<Resource>) -> (r: bool)
    ensures
        r == lacking_in_sight(obs, priority@),
{
    if obs.level >= 8 {
        return false;
    }
    let req = match crate::levels::requirement_for_level(obs.level + 1) {
        Some(q) => q,
        None => {
            return false;
        },
    };
    let mut i: usize = 0;
    while i < priority.len()
        invariant
            requirement_spec(obs.level as int + 1) == Some(req),
            i <= priority@.len(),
            forall|j: int|
                0 <= j < i ==> !(req.resources.count(#[trigger] priority@[j])
                    > obs.inventory.count(priority@[j]) && seen_count(
                    obs_tiles(obs),
                    resource_name(priority@[j]),
                    known_tiles(obs_tiles(obs)),
                ) > 0),
        decreases priority@.len() - i,
    {
        let r = priority[i];
        if req.resources.count_of(r) > obs.inventory.count_of(r) {
            let name = r.to_string();
            let seen = crate::vision::count_on_tiles(&obs.tiles, name.as_str());
            if seen > 0 {
                return true;
            }
        }
        i = i + 1;
    }
    false
}

fn help_of(e: &ServerEvent, obs: &Observation) -> (r: Option<(u32, Position)>)
    ensures
        r == help_in(e@, obs),
{
    match e {
        ServerEvent::Message(_, payload) => match does_need_help(payload.as_str(), obs.team.as_str()) {
            Some((l, p)) => if should_respond_to_help(obs.level, l) {
                Some((l, p))
            } else {
                None
            },
            None => None,
        },
        _ => None,
    }
}

proof fn lemma_first_link(k: NodeKind, rest: Seq<NodeKind>)
    ensures
        (seq![k] + rest).len() > 0,
        (seq![k] + rest)[0] == k,
        (seq![k] + rest).drop_first() == rest,
{
    assert((seq![k] + rest).drop_first() =~= rest);
}

/// The kinds of the links after a link whose successor is `next`.
pub closed spec fn next_kinds(next: Option<Box<DecisionNodeEnum>>) -> Seq<NodeKind> {
    match next {
        Some(b) => chain_kinds(*b),
        None => Seq::empty(),
    }
}

impl DecisionNodeEnum {
    /// Runs the chain from this link.
    pub fn evaluate(&self, obs: &Observation, session: &mut Session) -> (r: (Priority, Action))
        ensures
            (r.0, r.1, final(session).waiting()) == run_chain(
                chain_kinds(*self),
                obs,
                old(session).waiting(),
            ),
        decreases *self,
    {
        proof {
            match self {
                DecisionNodeEnum::Food(n) => lemma_first_link(
                    NodeKind::Food { threshold: n.food_threshold },
                    next_kinds(n.next),
                ),
                DecisionNodeEnum::Resource(n) => lemma_first_link(
                    NodeKind::Resource { priority: n.resource_priority@ },
                    next_kinds(n.next),
                ),
                DecisionNodeEnum::LevelUp(n) => lemma_first_link(NodeKind::LevelUp, next_kinds(n.next)),
                DecisionNodeEnum::Join(n) => lemma_first_link(NodeKind::Join, next_kinds(n.next)),
            }
        }
        match self {
            DecisionNodeEnum::Food(n) => {
                if see_food(&obs.tiles) < n.food_threshold {
                    (Priority::High, Action::FindFood)
                } else {
                    Self::evaluate_next(&n.next, obs, session)
                }
            },
            DecisionNodeEnum::LevelUp(n) => {
                match has_level_requirements(obs.level, &obs.inventory, &obs.tiles) {
                    Ok(true) => (Priority::Critical, Action::LevelUp),
                    _ => Self::evaluate_next(&n.next, obs, session),
                }
            },
            DecisionNodeEnum::Resource(n) => {
                if lacking_in_sight_exec(obs, &n.resource_priority) {
                    (Priority::High, Action::CollectResource)
                } else {
                    Self::evaluate_next(&n.next, obs, session)
                }
            },
            DecisionNodeEnum::Join(n) => {
                match session.take_next_async() {
                    Some(e) => match help_of(&e, obs) {
                        Some((l, p)) => (
                            Priority::High,
                            Action::JoinTeam { target_level: l, position: p },
                        ),
                        None => Self::evaluate_next(&n.next, obs, session),
                    },
                    None => Self::evaluate_next(&n.next, obs, session),
                }
            },
        }
    }

    fn evaluate_next(next: &Option<Box<DecisionNodeEnum>>, obs: &Observation, session: &mut Session) -> (r: (
        Priority,
        Action,
    ))
        ensures
            (r.0, r.1, final(session).waiting()) == run_chain(
                next_kinds(*next),
                obs,
                old(session).waiting(),
            ),
        decreases *next,
    {
        match next {
            Some(b) => b.evaluate(obs, session),
            None => (Priority::Low, Action::Explore),
        }
    }
}

impl LayEggNode {
    pub fn evaluate(&self) -> (r: (Priority, Action))
        ensures
            r == (Priority::High, Action::LayEgg),
    {
        (Priority::High, Action::LayEgg)
    }
}

impl DecisionTree {
    /// The kinds of the chain's links, in order.
    pub closed spec fn kinds(&self) -> Seq<NodeKind> {
        chain_kinds(*self.root)
    }

    /// The engine's chain (see `standard_kinds`).
    pub fn new() -> (r: Self)
        ensures
            r.kinds() == standard_kinds(),
    {
        let join_node = DecisionNodeEnum::Join(JoinNode { next: None });
        let mut priority: Vec<Resource> = Vec::new();
        priority.push(Resource::Linemate);
        priority.push(Resource::Deraumere);
        priority.push(Resource::Sibur);
        priority.push(Resource::Phiras);
        priority.push(Resource::Mendiane);
        priority.push(Resource::Thystame);
        let resource_node = DecisionNodeEnum::Resource(
            ResourceNode { resource_priority: priority, next: Some(Box::new(join_node)) },
        );
        let level_node = DecisionNodeEnum::LevelUp(
            LevelUpNode { next: Some(Box::new(resource_node)) },
        );
        let food_node = DecisionNodeEnum::Food(
            FoodNode { food_threshold: FOOD_THRESHOLD, next: Some(Box::new(level_node)) },
        );
        let r = DecisionTree { root: Box::new(food_node) };
        assert(priority@ =~= collection_order());
        assert(r.kinds() =~= standard_kinds()) by {
            reveal_with_fuel(chain_kinds, 5);
        }
        r
    }

    /// One cycle's decision: runs the chain on `obs`, taking at most one
    /// waiting message from `session`.
    pub fn evaluate(&self, obs: &Observation, session: &mut Session) -> (r: (Priority, Action))
        ensures
            (r.0, r.1, final(session).waiting()) == run_chain(self.kinds(), obs, old(session).waiting()),
    {
        self.root.evaluate(obs, session)
    }
}

} // verus!
