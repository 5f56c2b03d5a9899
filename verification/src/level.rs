//! The participant lifecycle and the lobby/arena setup scans.
//!
//! A participant waits in the lobby until they step into one of four
//! class-trigger regions; the class is assigned exactly once, the
//! participant is moved to the arena spawn, and a short grace window
//! pins them in place while their view of the arena streams in. The
//! setup scans derive the trigger regions and the sign labels from the
//! lobby world and register the destructible floor cells of the arena.

use crate::area::Area;
use crate::block::{Block, WoolColor};
use crate::classes::ClassKind;
use crate::geom::{spec_cell_of, LatticePos, Vec3Milli};
use crate::grid::VoxelGrid;
use crate::nbt::Nbt;
use crate::player::{
    ChunksLoading, CombatState, KeepPosition, Player, Stage, LOADING_TICKS,
};
use vstd::pervasive::VecAdditionalExecFns;
use vstd::prelude::*;

verus! {

/// One class-selection trigger: stepping into `area` while in the
/// lobby assigns `class`.
#[derive(Clone, Copy, Debug, PartialEq, Eq, Structural)]
pub struct ClassTrigger {
    pub area: Area,
    pub class: ClassKind,
}

/// The arena spawn point participants are teleported to.
pub open spec fn spec_arena_spawn() -> Vec3Milli {
    Vec3Milli { x: 0, y: 61000, z: 0 }
}

/// What one trigger does to one participant: a lobby participant whose
/// containing cell lies in the trigger region leaves the lobby with
/// the trigger's class, a fresh combat state and the fresh-class
/// marker; everyone else is untouched.
pub open spec fn spec_trigger_step(p: Player, t: ClassTrigger) -> Player {
    if p.stage == Stage::Lobby && t.area.spec_contains(spec_cell_of(p.pos)) {
        Player {
            stage: Stage::ClassPicked,
            class: Some(t.class),
            fresh_class: true,
            combat: Some(CombatState { last_attacked_tick: 0 }),
            ..p
        }
    } else {
        p
    }
}

/// Runs one class trigger over the roster.
pub fn do_class_triggers(players: &mut Vec<Player>, trigger: &ClassTrigger)
    requires
        forall|i: int|
            0 <= i < old(players)@.len() && (#[trigger] old(players)@[i]).stage
                == Stage::Lobby ==> crate::geom::in_lattice_range(old(players)@[i].pos),
    ensures
        final(players)@.len() == old(players)@.len(),
        forall|i: int|
            0 <= i < old(players)@.len() ==> final(players)@[i] == spec_trigger_step(
                #[trigger] old(players)@[i],
                *trigger,
            ),
{
    let n = players.len();
    let mut i: usize = 0;
    while i < n
        invariant
            n == players@.len(),
            n == old(players)@.len(),
            0 <= i <= n,
            forall|j: int|
                0 <= j < n && (#[trigger] old(players)@[j]).stage == Stage::Lobby
                    ==> crate::geom::in_lattice_range(old(players)@[j].pos),
            forall|j: int|
                0 <= j < i ==> players@[j] == spec_trigger_step(
                    #[trigger] old(players)@[j],
                    *trigger,
                ),
            forall|j: int| i <= j < n ==> players@[j] == old(players)@[j],
        decreases n - i,
    {
        let p = players[i];
        if matches!(p.stage, Stage::Lobby) {
            let cell = crate::geom::cell_of(p.pos);
            if trigger.area.contains(cell) {
                players.set(
                    i,
                    Player {
                        stage: Stage::ClassPicked,
                        class: Some(trigger.class),
                        fresh_class: true,
                        combat: Some(CombatState { last_attacked_tick: 0 }),
                        ..p
                    },
                );
            }
        }
        i = i + 1;
    }
}

/// A trigger never touches a participant who already left the lobby.
pub proof fn lemma_trigger_only_lobby(p: Player, t: ClassTrigger)
    requires
        p.stage != Stage::Lobby,
    ensures
        spec_trigger_step(p, t) == p,
{
}

/// A class is assigned exactly once: when a trigger fires for a lobby
/// participant, the class is the trigger's class, and no later trigger
/// overlap reassigns it.
pub proof fn lemma_trigger_assigns_once(p: Player, t1: ClassTrigger, t2: ClassTrigger)
    ensures
        spec_trigger_step(p, t1) != p ==> spec_trigger_step(p, t1).class == Some(t1.class),
        spec_trigger_step(p, t1) != p ==> spec_trigger_step(
            spec_trigger_step(p, t1),
            t2,
        ) == spec_trigger_step(p, t1),
{
}

/// The later lifecycle passes never change an assigned class.
pub proof fn lemma_class_stable(p: Player, c: ClassKind)
    ensures
        spec_move_step(p).class == p.class,
        crate::classes::spec_apply_loadout(p, c).class == p.class,
        crate::classes::spec_tick_cooldown(p).class == p.class,
        spec_loading_tick(p).class == p.class,
        spec_keep_position_step(p).class == p.class,
        spec_inventory_step(p).class == p.class,
{
}

/// What the arena move does to one participant: a participant whose
/// class was just picked switches to the arena layer at the arena
/// spawn, with the grace-window timer and the position pin attached.
pub open spec fn spec_move_step(p: Player) -> Player {
    if p.stage == Stage::ClassPicked {
        Player {
            stage: Stage::Arena,
            pos: spec_arena_spawn(),
            loading: Some(ChunksLoading { timer: LOADING_TICKS }),
            keep_position: Some(KeepPosition(spec_arena_spawn())),
            ..p
        }
    } else {
        p
    }
}

/// The chat notices the arena move produces, in roster order: one per
/// moved participant, carrying their id and picked class.
pub open spec fn spec_move_notices(s: Seq<Player>) -> Seq<(u64, ClassKind)>
    decreases s.len(),
{
    if s.len() == 0 {
        Seq::empty()
    } else {
        let rest = spec_move_notices(s.drop_last());
        if s.last().stage == Stage::ClassPicked {
            rest.push((s.last().id, s.last().class->Some_0))
        } else {
            rest
        }
    }
}

proof fn lemma_move_notices_step(s: Seq<Player>, i: int)
    requires
        0 <= i < s.len(),
    ensures
        spec_move_notices(s.take(i + 1)) == if s[i].stage == Stage::ClassPicked {
            spec_move_notices(s.take(i)).push((s[i].id, s[i].class->Some_0))
        } else {
            spec_move_notices(s.take(i))
        },
{
    assert(s.take(i + 1).drop_last() =~= s.take(i));
    assert(s.take(i + 1).last() == s[i]);
}

/// Moves every freshly classed participant to the arena: the visible
/// layer switches, the position resets to the arena spawn, and the
/// grace window opens. Returns one notice per moved participant for
/// the host to greet them with their picked class.
pub fn move_to_arena(players: &mut Vec<Player>) -> (notices: Vec<(u64, ClassKind)>)
    requires
        forall|i: int|
            0 <= i < old(players)@.len() && (#[trigger] old(players)@[i]).stage
                == Stage::ClassPicked ==> old(players)@[i].class is Some,
    ensures
        final(players)@.len() == old(players)@.len(),
        forall|i: int|
            0 <= i < old(players)@.len() ==> final(players)@[i] == spec_move_step(
                #[trigger] old(players)@[i],
            ),
        notices@ == spec_move_notices(old(players)@),
{
    let n = players.len();
    let mut notices: Vec<(u64, ClassKind)> = Vec::new();
    let mut i: usize = 0;
    while i < n
        invariant
            n == players@.len(),
            n == old(players)@.len(),
            0 <= i <= n,
            forall|j: int|
                0 <= j < n && (#[trigger] old(players)@[j]).stage == Stage::ClassPicked
                    ==> old(players)@[j].class is Some,
            notices@ == spec_move_notices(old(players)@.take(i as int)),
            forall|j: int|
                0 <= j < i ==> players@[j] == spec_move_step(#[trigger] old(players)@[j]),
            forall|j: int| i <= j < n ==> players@[j] == old(players)@[j],
        decreases n - i,
    {
        proof {
            lemma_move_notices_step(old(players)@, i as int);
        }
        let p = players[i];
        if matches!(p.stage, Stage::ClassPicked) {
            let spawn = Vec3Milli { x: 0, y: 61000, z: 0 };
            let class = match p.class {
                Some(c) => c,
                None => ClassKind::Warrior,
            };
            notices.push((p.id, class));
            players.set(
                i,
                Player {
                    stage: Stage::Arena,
                    pos: spawn,
                    loading: Some(ChunksLoading { timer: LOADING_TICKS }),
                    keep_position: Some(KeepPosition(spawn)),
                    ..p
                },
            );
        }
        i = i + 1;
    }
    proof {
        assert(old(players)@.take(n as int) =~= old(players)@);
    }
    notices
}

/// One grace-window tick for one participant: the timer counts down,
/// and on reaching zero the timer and the position pin come off
/// together, releasing normal movement.
pub open spec fn spec_loading_tick(p: Player) -> Player {
    match p.loading {
        None => p,
        Some(t) => if t.timer - 1 <= 0 {
            Player { loading: None, keep_position: None, ..p }
        } else {
            Player { loading: Some(ChunksLoading { timer: (t.timer - 1) as i64 }), ..p }
        },
    }
}

/// Counts every open grace window down by one tick, detaching the
/// timer and the position pin atomically when it runs out.
pub fn update_changed_chunk_layer_timer(players: &mut Vec<Player>)
    requires
        forall|i: int|
            0 <= i < old(players)@.len() && (#[trigger] old(players)@[i]).loading is Some
                ==> old(players)@[i].loading->Some_0.timer > i64::MIN,
    ensures
        final(players)@.len() == old(players)@.len(),
        forall|i: int|
            0 <= i < old(players)@.len() ==> final(players)@[i] == spec_loading_tick(
                #[trigger] old(players)@[i],
            ),
{
    let n = players.len();
    let mut i: usize = 0;
    while i < n
        invariant
            n == players@.len(),
            n == old(players)@.len(),
            0 <= i <= n,
            forall|j: int|
                0 <= j < n && (#[trigger] old(players)@[j]).loading is Some ==> old(
                    players,
                )@[j].loading->Some_0.timer > i64::MIN,
            forall|j: int|
                0 <= j < i ==> players@[j] == spec_loading_tick(#[trigger] old(players)@[j]),
            forall|j: int| i <= j < n ==> players@[j] == old(players)@[j],
        decreases n - i,
    {
        let p = players[i];
        if let Some(t) = p.loading {
            let left = t.timer - 1;
            if left <= 0 {
                players.set(i, Player { loading: None, keep_position: None, ..p });
            } else {
                players.set(
                    i,
                    Player { loading: Some(ChunksLoading { timer: left }), ..p },
                );
            }
        }
        i = i + 1;
    }
}

/// While the grace window is open, the participant's position snaps
/// back to the pinned target.
pub open spec fn spec_keep_position_step(p: Player) -> Player {
    if p.loading is Some && p.keep_position is Some {
        Player { pos: p.keep_position->Some_0.0, ..p }
    } else {
        p
    }
}

/// Pins every loading participant to their pinned target, preventing
/// physics drift while their chunks stream in.
pub fn keep_position_while_chunks_loading(players: &mut Vec<Player>)
    ensures
        final(players)@.len() == old(players)@.len(),
        forall|i: int|
            0 <= i < old(players)@.len() ==> final(players)@[i] == spec_keep_position_step(
                #[trigger] old(players)@[i],
            ),
{
    let n = players.len();
    let mut i: usize = 0;
    while i < n
        invariant
            n == players@.len(),
            n == old(players)@.len(),
            0 <= i <= n,
            forall|j: int|
                0 <= j < i ==> players@[j] == spec_keep_position_step(
                    #[trigger] old(players)@[j],
                ),
            forall|j: int| i <= j < n ==> players@[j] == old(players)@[j],
        decreases n - i,
    {
        let p = players[i];
        if p.loading.is_some() {
            if let Some(k) = p.keep_position {
                players.set(i, Player { pos: k.0, ..p });
            }
        }
        i = i + 1;
    }
}

/// While the grace window is open, the participant's whole inventory
/// is marked dirty so the host resends it in full.
pub open spec fn spec_inventory_step(p: Player) -> Player {
    if p.loading is Some {
        Player { inventory_changed: u64::MAX, ..p }
    } else {
        p
    }
}

/// Marks every loading participant's inventory fully dirty.
pub fn update_inventory_while_chunks_loading(players: &mut Vec<Player>)
    ensures
        final(players)@.len() == old(players)@.len(),
        forall|i: int|
            0 <= i < old(players)@.len() ==> final(players)@[i] == spec_inventory_step(
                #[trigger] old(players)@[i],
            ),
{
    let n = players.len();
    let mut i: usize = 0;
    while i < n
        invariant
            n == players@.len(),
            n == old(players)@.len(),
            0 <= i <= n,
            forall|j: int|
                0 <= j < i ==> players@[j] == spec_inventory_step(
                    #[trigger] old(players)@[j],
                ),
            forall|j: int| i <= j < n ==> players@[j] == old(players)@[j],
        decreases n - i,
    {
        let p = players[i];
        if p.loading.is_some() {
            players.set(i, Player { inventory_changed: u64::MAX, ..p });
        }
        i = i + 1;
    }
}

/// The reserved marker material of each class's trigger region in the
/// lobby floor.
pub open spec fn spec_marker_color(c: ClassKind) -> WoolColor {
    match c {
        ClassKind::Warrior => WoolColor::LightGray,
        ClassKind::Archer => WoolColor::Orange,
        ClassKind::Mage => WoolColor::Red,
        ClassKind::Rogue => WoolColor::LightBlue,
    }
}

/// The bounding box of the marker cells of one colour among the first
/// `k` grid entries that lie in the scanned region: each marker cell
/// is merged in as a one-cell box.
pub open spec fn spec_marker_box(
    entries: Seq<(LatticePos, Block)>,
    area: Area,
    color: WoolColor,
    k: int,
) -> Option<Area>
    decreases k,
{
    if k <= 0 {
        None
    } else {
        let prev = spec_marker_box(entries, area, color, k - 1);
        if area.spec_contains(entries[k - 1].0) && entries[k - 1].1 == Block::Wool(color) {
            let cell = Area { min: entries[k - 1].0, max: entries[k - 1].0 };
            match prev {
                None => Some(cell),
                Some(a) => Some(a.spec_merge(cell)),
            }
        } else {
            prev
        }
    }
}

/// A marker box is well formed and stays inside the scanned region's
/// vertical extent.
proof fn lemma_marker_box_wf(
    entries: Seq<(LatticePos, Block)>,
    area: Area,
    color: WoolColor,
    k: int,
)
    ensures
        spec_marker_box(entries, area, color, k) matches Some(a) ==> a.wf() && a.max.y
            <= area.max.y,
    decreases k,
{
    if k > 0 {
        lemma_marker_box_wf(entries, area, color, k - 1);
    }
}

/// Derives the four class triggers from the lobby world: the marker
/// cells of each reserved colour are merged into their bounding box
/// and the box is expanded three units upward. Returns nothing when
/// any of the four markers is absent, which is fatal at startup.
pub fn create_class_trigger(grid: &VoxelGrid, area: &Area) -> (r: Option<Vec<ClassTrigger>>)
    requires
        grid.wf(),
        area.max.y <= i32::MAX - 3,
    ensures
        ({
            let n = grid.entries().len() as int;
            let up = LatticePos { x: 0, y: 3, z: 0 };
            let w = spec_marker_box(grid.entries(), *area, WoolColor::LightGray, n);
            let a = spec_marker_box(grid.entries(), *area, WoolColor::Orange, n);
            let m = spec_marker_box(grid.entries(), *area, WoolColor::Red, n);
            let g = spec_marker_box(grid.entries(), *area, WoolColor::LightBlue, n);
            match r {
                Some(v) => w is Some && a is Some && m is Some && g is Some && v@.len() == 4
                    && v@[0] == (ClassTrigger {
                    area: w->Some_0.spec_expand(up),
                    class: ClassKind::Warrior,
                }) && v@[1] == (ClassTrigger {
                    area: a->Some_0.spec_expand(up),
                    class: ClassKind::Archer,
                }) && v@[2] == (ClassTrigger {
                    area: m->Some_0.spec_expand(up),
                    class: ClassKind::Mage,
                }) && v@[3] == (ClassTrigger {
                    area: g->Some_0.spec_expand(up),
                    class: ClassKind::Rogue,
                }),
                None => !(w is Some && a is Some && m is Some && g is Some),
            }
        }),
{
    let n = grid.cell_count();
    let mut warrior_box: Option<Area> = None;
    let mut archer_box: Option<Area> = None;
    let mut mage_box: Option<Area> = None;
    let mut rogue_box: Option<Area> = None;
    let mut i: usize = 0;
    while i < n
        invariant
            grid.wf(),
            n == grid.entries().len(),
            0 <= i <= n,
            warrior_box == spec_marker_box(
                grid.entries(),
                *area,
                WoolColor::LightGray,
                i as int,
            ),
            archer_box == spec_marker_box(grid.entries(), *area, WoolColor::Orange, i as int),
            mage_box == spec_marker_box(grid.entries(), *area, WoolColor::Red, i as int),
            rogue_box == spec_marker_box(
                grid.entries(),
                *area,
                WoolColor::LightBlue,
                i as int,
            ),
        decreases n - i,
    {
        let (p, b) = grid.entry_at(i);
        if area.contains(p) {
            if b == Block::Wool(WoolColor::LightGray) {
                warrior_box = Some(
                    match warrior_box {
                        None => Area::new(p, p),
                        Some(a) => a.merge(&Area::new(p, p)),
                    },
                );
            } else if b == Block::Wool(WoolColor::Orange) {
                archer_box = Some(
                    match archer_box {
                        None => Area::new(p, p),
                        Some(a) => a.merge(&Area::new(p, p)),
                    },
                );
            } else if b == Block::Wool(WoolColor::Red) {
                mage_box = Some(
                    match mage_box {
                        None => Area::new(p, p),
                        Some(a) => a.merge(&Area::new(p, p)),
                    },
                );
            } else if b == Block::Wool(WoolColor::LightBlue) {
                rogue_box = Some(
                    match rogue_box {
                        None => Area::new(p, p),
                        Some(a) => a.merge(&Area::new(p, p)),
                    },
                );
            }
        }
        i = i + 1;
    }
    match (warrior_box, archer_box, mage_box, rogue_box) {
        (Some(w), Some(a), Some(m), Some(g)) => {
            proof {
                lemma_marker_box_wf(grid.entries(), *area, WoolColor::LightGray, n as int);
                lemma_marker_box_wf(grid.entries(), *area, WoolColor::Orange, n as int);
                lemma_marker_box_wf(grid.entries(), *area, WoolColor::Red, n as int);
                lemma_marker_box_wf(grid.entries(), *area, WoolColor::LightBlue, n as int);
            }
            let up = LatticePos { x: 0, y: 3, z: 0 };
            let mut v: Vec<ClassTrigger> = Vec::new();
            v.push(ClassTrigger { area: w.expand(up), class: ClassKind::Warrior });
            v.push(ClassTrigger { area: a.expand(up), class: ClassKind::Archer });
            v.push(ClassTrigger { area: m.expand(up), class: ClassKind::Mage });
            v.push(ClassTrigger { area: g.expand(up), class: ClassKind::Rogue });
            Some(v)
        },
        _ => None,
    }
}

/// A floating class label spawned where a lobby sign stood.
#[derive(Clone, Copy, Debug, PartialEq, Eq, Structural)]
pub struct TextDisplay {
    /// Display position in milli-units: half a cell east and half a
    /// cell north of the sign's cell corner.
    pub pos: Vec3Milli,
    pub class: ClassKind,
}

/// The label text shown for a class.
pub fn class_display_text(c: ClassKind) -> (r: &'static str)
    ensures
        c == ClassKind::Warrior ==> r@ == "Warrior Class"@,
        c == ClassKind::Archer ==> r@ == "Archer Class"@,
        c == ClassKind::Mage ==> r@ == "Mage Class"@,
        c == ClassKind::Rogue ==> r@ == "Rogue Class"@,
{
    match c {
        ClassKind::Warrior => "Warrior Class",
        ClassKind::Archer => "Archer Class",
        ClassKind::Mage => "Mage Class",
        ClassKind::Rogue => "Rogue Class",
    }
}

/// The class named by a sign's front text, if any.
pub open spec fn spec_sign_class(txt: Seq<char>) -> Option<ClassKind> {
    if txt == "warrior"@ {
        Some(ClassKind::Warrior)
    } else if txt == "archer"@ {
        Some(ClassKind::Archer)
    } else if txt == "mage"@ {
        Some(ClassKind::Mage)
    } else if txt == "rogue"@ {
        Some(ClassKind::Rogue)
    } else {
        None
    }
}

/// Where a sign's floating label stands, in milli-units.
pub open spec fn spec_display_pos(p: LatticePos) -> Vec3Milli {
    Vec3Milli {
        x: (p.x * 1000 + 500) as i64,
        y: (p.y * 1000) as i64,
        z: (p.z * 1000 - 500) as i64,
    }
}

/// What one scanned sign does: a sign block inside the region whose
/// payload names a class is cleared to air and replaced by a floating
/// label; a malformed or unrelated payload is skipped silently.
pub open spec fn spec_sign_step(
    g: Map<LatticePos, Block>,
    outs: Seq<TextDisplay>,
    area: Area,
    pos: LatticePos,
    n: Nbt,
) -> (Map<LatticePos, Block>, Seq<TextDisplay>) {
    if !area.spec_contains(pos) {
        (g, outs)
    } else if !(g.dom().contains(pos) && g[pos] is Sign) {
        (g, outs)
    } else {
        match crate::nbt::spec_extract_text(n) {
            None => (g, outs),
            Some(txt) => match spec_sign_class(txt) {
                None => (g, outs),
                Some(c) => (
                    g.insert(pos, Block::Air),
                    outs.push(TextDisplay { pos: spec_display_pos(pos), class: c }),
                ),
            },
        }
    }
}

/// The sign scan over the first `k` scanned signs, in order.
pub open spec fn spec_sign_scan(
    g: Map<LatticePos, Block>,
    outs: Seq<TextDisplay>,
    area: Area,
    signs: Seq<(LatticePos, Nbt)>,
    k: int,
) -> (Map<LatticePos, Block>, Seq<TextDisplay>)
    decreases k,
{
    if k <= 0 {
        (g, outs)
    } else {
        let prev = spec_sign_scan(g, outs, area, signs, k - 1);
        spec_sign_step(prev.0, prev.1, area, signs[k - 1].0, signs[k - 1].1)
    }
}

/// Scans the lobby's signs: every sign in the region whose front text
/// names a class is cleared and replaced by a floating class label.
pub fn create_class_text(
    grid: &mut VoxelGrid,
    area: &Area,
    signs: &Vec<(LatticePos, Nbt)>,
) -> (outs: Vec<TextDisplay>)
    requires
        old(grid).wf(),
    ensures
        final(grid).wf(),
        final(grid)@ == spec_sign_scan(
            old(grid)@,
            Seq::empty(),
            *area,
            signs@,
            signs@.len() as int,
        ).0,
        outs@ == spec_sign_scan(
            old(grid)@,
            Seq::empty(),
            *area,
            signs@,
            signs@.len() as int,
        ).1,
{
    let warrior_txt: String = "warrior".to_owned();
    let archer_txt: String = "archer".to_owned();
    let mage_txt: String = "mage".to_owned();
    let rogue_txt: String = "rogue".to_owned();
    let n = signs.len();
    let mut outs: Vec<TextDisplay> = Vec::new();
    let mut i: usize = 0;
    while i < n
        invariant
            grid.wf(),
            n == signs@.len(),
            0 <= i <= n,
            warrior_txt@ == "warrior"@,
            archer_txt@ == "archer"@,
            mage_txt@ == "mage"@,
            rogue_txt@ == "rogue"@,
            grid@ == spec_sign_scan(old(grid)@, Seq::empty(), *area, signs@, i as int).0,
            outs@ == spec_sign_scan(old(grid)@, Seq::empty(), *area, signs@, i as int).1,
        decreases n - i,
    {
        let ghost pre = spec_sign_scan(old(grid)@, Seq::empty(), *area, signs@, i as int);
        let (pos, payload) = &signs[i];
        let pos = *pos;
        if area.contains(pos) {
            let is_sign = match grid.get(pos) {
                Some(Block::Sign) => true,
                _ => false,
            };
            if is_sign {
                match crate::nbt::extract_text_from_sign_nbt(payload) {
                    None => {},
                    Some(txt) => {
                        let class = if txt == warrior_txt {
                            Some(ClassKind::Warrior)
                        } else if txt == archer_txt {
                            Some(ClassKind::Archer)
                        } else if txt == mage_txt {
                            Some(ClassKind::Mage)
                        } else if txt == rogue_txt {
                            Some(ClassKind::Rogue)
                        } else {
                            None
                        };
                        match class {
                            None => {},
                            Some(c) => {
                                grid.set(pos, Block::Air);
                                outs.push(
                                    TextDisplay {
                                        pos: Vec3Milli {
                                            x: (pos.x as i64) * 1000 + 500,
                                            y: (pos.y as i64) * 1000,
                                            z: (pos.z as i64) * 1000 - 500,
                                        },
                                        class: c,
                                    },
                                );
                            },
                        }
                    },
                }
            }
        }
        proof {
            assert(spec_sign_scan(old(grid)@, Seq::empty(), *area, signs@, i + 1)
                == spec_sign_step(pre.0, pre.1, *area, signs@[i as int].0, signs@[i as int].1));
        }
        i = i + 1;
    }
    outs
}

} // verus!
