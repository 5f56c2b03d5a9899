//! The per-tick pipeline.
//!
//! One simulation tick advances all state through the passes in a
//! fixed dependency order: lifecycle and trigger checks first, then
//! ability firing over this tick's event batches, the cooldown
//! decrement, projectile collision strictly before motion, footstep
//! damage and destruction on the floor, the damage-stage broadcast,
//! and combat resolution last. The shared voxel grid is touched by
//! several passes; they run strictly sequentially, never concurrently.

use crate::block::Block;
use crate::classes::{
    archer_shoot, init_archer, init_mage, init_rogue, init_warrior, look_bounded,
    mage_shoot, spawned_projectile_ok, spec_apply_loadout, spec_dig_events,
    spec_fire_events, spec_loadout_due, spec_tick_cooldown, update_cooldown, warrior_dig,
    ClassKind, Cooldown, ARCHER_COOLDOWN_TICKS, MAGE_COOLDOWN_TICKS,
    WARRIOR_DIG_COOLDOWN_TICKS,
};
use crate::combat::{combat, combat_pos_bounded, spec_combat_events, TICK_LIMIT};
use crate::events::{
    DiggingEvent, InteractBlockEvent, InteractEntityEvent, InteractItemEvent,
};
use crate::floor::{
    break_blocks_under_player, count_standing, destroy_broken_blocks, send_breaking_state,
    spec_breaking_report, spec_destroy_grid, spec_surviving, spec_treads, BreakingState,
    DynamicBlocks, FloorCell,
};
use crate::geom::LatticePos;
use crate::grid::VoxelGrid;
use crate::level::{
    do_class_triggers, keep_position_while_chunks_loading, move_to_arena,
    spec_inventory_step, spec_keep_position_step, spec_loading_tick, spec_move_notices,
    spec_move_step, spec_trigger_step, update_changed_chunk_layer_timer,
    update_inventory_while_chunks_loading, ClassTrigger,
};
use crate::player::{ids_distinct, Player};
use crate::projectile::{
    arrow_intersection, arrow_movement, arrow_oob, fireball_intersection,
    fireball_movement, fireball_oob, grid_interior, lemma_arrow_pass_frame,
    lemma_fireball_pass_frame, lemma_trunc_div_bound, pos_bounded, purge_despawned,
    samples_in_range, spec_arrow_move, spec_arrow_oob, spec_arrow_pass,
    spec_fireball_move, spec_fireball_oob, spec_fireball_pass, spec_remaining,
    spec_sample_point, vel_bounded, Projectile, ProjectileKind,
};
use vstd::prelude::*;

verus! {

/// A participant the pipeline can carry through a whole tick: well
/// formed, inside the arena's coordinate band, with a unit look
/// vector, a bounded position pin, and timers away from the machine
/// edges.
pub open spec fn sim_player_ok(p: Player) -> bool {
    &&& p.wf()
    &&& combat_pos_bounded(p.pos)
    &&& look_bounded(p.look)
    &&& (p.keep_position matches Some(k) ==> combat_pos_bounded(k.0))
    &&& (p.loading matches Some(t) ==> t.timer > i64::MIN)
    &&& (p.combat matches Some(cs) ==> -TICK_LIMIT <= cs.last_attacked_tick <= TICK_LIMIT)
}

/// A projectile the pipeline can carry through a whole tick: close
/// enough to the arena that every collision sample quantises to a
/// representable lattice cell.
pub open spec fn sim_projectile_ok(q: Projectile) -> bool {
    &&& -2_000_000_000 <= q.pos.x <= 2_000_000_000
    &&& -2_000_000_000 <= q.pos.y <= 2_000_000_000
    &&& -2_000_000_000 <= q.pos.z <= 2_000_000_000
    &&& -100_000 <= q.vel.x <= 100_000
    &&& -100_000 <= q.vel.y <= 100_000
    &&& -100_000 <= q.vel.z <= 100_000
}

/// A pipeline-carried projectile satisfies every bound the collision
/// and motion passes ask for.
proof fn lemma_sim_projectile_ranges(q: Projectile)
    requires
        sim_projectile_ok(q),
    ensures
        vel_bounded(q.vel),
        pos_bounded(q.pos),
        crate::geom::in_lattice_range(q.pos),
        samples_in_range(q.pos, q.vel),
{
    assert forall|i: int|
        0 <= i < 10 implies crate::geom::in_lattice_range(
        #[trigger] spec_sample_point(q.pos, q.vel, i),
    ) by {
        assert(-900_000 <= q.vel.x * i <= 900_000) by (nonlinear_arith)
            requires
                0 <= i < 10,
                -100_000 <= q.vel.x <= 100_000,
        ;
        assert(-900_000 <= q.vel.y * i <= 900_000) by (nonlinear_arith)
            requires
                0 <= i < 10,
                -100_000 <= q.vel.y <= 100_000,
        ;
        assert(-900_000 <= q.vel.z * i <= 900_000) by (nonlinear_arith)
            requires
                0 <= i < 10,
                -100_000 <= q.vel.z <= 100_000,
        ;
        lemma_trunc_div_bound(q.vel.x * i, 200);
        lemma_trunc_div_bound(q.vel.y * i, 200);
        lemma_trunc_div_bound(q.vel.z * i, 200);
    }
}

/// The trigger passes over the roster, one trigger after the other.
pub open spec fn spec_triggers_pass(
    s: Seq<Player>,
    ts: Seq<ClassTrigger>,
    k: int,
) -> Seq<Player>
    decreases k,
{
    if k <= 0 {
        s
    } else {
        let prev = spec_triggers_pass(s, ts, k - 1);
        Seq::new(prev.len(), |i: int| spec_trigger_step(prev[i], ts[k - 1]))
    }
}

/// One loadout pass entry: equips the player if class `c` was just
/// assigned to them.
pub open spec fn spec_loadout_step(p: Player, c: ClassKind) -> Player {
    if spec_loadout_due(p, c) {
        spec_apply_loadout(p, c)
    } else {
        p
    }
}

/// The roster after the lifecycle passes: triggers, the arena move,
/// the four loadout passes, the position pin, the inventory resend
/// mark, and the grace-window countdown, in that order.
pub open spec fn spec_lifecycle_roster(s: Seq<Player>, ts: Seq<ClassTrigger>) -> Seq<
    Player,
> {
    let s1 = spec_triggers_pass(s, ts, ts.len() as int);
    let s2 = Seq::new(s1.len(), |i: int| spec_move_step(s1[i]));
    let s3 = Seq::new(s2.len(), |i: int| spec_loadout_step(s2[i], ClassKind::Warrior));
    let s4 = Seq::new(s3.len(), |i: int| spec_loadout_step(s3[i], ClassKind::Archer));
    let s5 = Seq::new(s4.len(), |i: int| spec_loadout_step(s4[i], ClassKind::Mage));
    let s6 = Seq::new(s5.len(), |i: int| spec_loadout_step(s5[i], ClassKind::Rogue));
    let s7 = Seq::new(s6.len(), |i: int| spec_keep_position_step(s6[i]));
    let s8 = Seq::new(s7.len(), |i: int| spec_inventory_step(s7[i]));
    Seq::new(s8.len(), |i: int| spec_loading_tick(s8[i]))
}

/// Lifecycle and trigger checks: class assignment, the arena move with
/// its notices, loadouts, and the grace window.
#[verifier::rlimit(100)]
#[verifier::spinoff_prover]
fn lifecycle_pass(players: &mut Vec<Player>, triggers: &Vec<ClassTrigger>) -> (notices: Vec<
    (u64, ClassKind),
>)
    requires
        ids_distinct(old(players)@),
        forall|i: int|
            0 <= i < old(players)@.len() ==> sim_player_ok(#[trigger] old(players)@[i]),
    ensures
        final(players)@ == spec_lifecycle_roster(old(players)@, triggers@),
        notices@ == spec_move_notices(
            spec_triggers_pass(old(players)@, triggers@, triggers@.len() as int),
        ),
        final(players)@.len() == old(players)@.len(),
        ids_distinct(final(players)@),
        forall|i: int|
            0 <= i < final(players)@.len() ==> sim_player_ok(#[trigger] final(players)@[i]),
{
    let ghost ps0 = players@;
    let tcount = triggers.len();
    let mut ti: usize = 0;
    while ti < tcount
        invariant
            tcount == triggers@.len(),
            0 <= ti <= tcount,
            players@ == spec_triggers_pass(ps0, triggers@, ti as int),
            players@.len() == ps0.len(),
            ids_distinct(players@),
            forall|i: int|
                0 <= i < players@.len() ==> sim_player_ok(#[trigger] players@[i]),
        decreases tcount - ti,
    {
        let ghost pre = players@;
        let trigger = triggers[ti];
        proof {
            assert forall|i: int|
                0 <= i < players@.len() && (#[trigger] players@[i]).stage
                    == crate::player::Stage::Lobby implies crate::geom::in_lattice_range(
                players@[i].pos,
            ) by {
                assert(sim_player_ok(players@[i]));
            }
        }
        do_class_triggers(players, &trigger);
        proof {
            assert(players@ =~= spec_triggers_pass(ps0, triggers@, ti + 1));
            assert forall|i: int|
                0 <= i < players@.len() implies sim_player_ok(#[trigger] players@[i]) by {
                assert(players@[i] == spec_trigger_step(pre[i], trigger));
                assert(sim_player_ok(pre[i]));
            }
            assert forall|a: int, b: int|
                0 <= a < b < players@.len() implies (#[trigger] players@[a]).id != (
                #[trigger] players@[b]).id by {
                assert(players@[a].id == pre[a].id && players@[b].id == pre[b].id);
            }
        }
        ti = ti + 1;
    }
    let ghost s1 = players@;

    let notices = move_to_arena(players);
    let ghost s2 = Seq::new(s1.len(), |i: int| spec_move_step(s1[i]));
    proof {
        assert(players@ =~= s2);
        assert forall|i: int|
            0 <= i < players@.len() implies sim_player_ok(#[trigger] players@[i]) by {
            assert(players@[i] == spec_move_step(s1[i]));
            assert(sim_player_ok(s1[i]));
        }
    }

    init_warrior(players);
    let ghost s3 = Seq::new(s2.len(), |i: int| spec_loadout_step(s2[i], ClassKind::Warrior));
    proof {
        assert(players@ =~= s3);
    }
    init_archer(players);
    let ghost s4 = Seq::new(s3.len(), |i: int| spec_loadout_step(s3[i], ClassKind::Archer));
    proof {
        assert(players@ =~= s4);
    }
    init_mage(players);
    let ghost s5 = Seq::new(s4.len(), |i: int| spec_loadout_step(s4[i], ClassKind::Mage));
    proof {
        assert(players@ =~= s5);
    }
    init_rogue(players);
    let ghost s6 = Seq::new(s5.len(), |i: int| spec_loadout_step(s5[i], ClassKind::Rogue));
    proof {
        assert(players@ =~= s6);
        assert forall|i: int|
            0 <= i < players@.len() implies sim_player_ok(#[trigger] players@[i]) by {
            assert(sim_player_ok(s2[i]));
            assert(s3[i] == spec_loadout_step(s2[i], ClassKind::Warrior));
            assert(s4[i] == spec_loadout_step(s3[i], ClassKind::Archer));
            assert(s5[i] == spec_loadout_step(s4[i], ClassKind::Mage));
            assert(players@[i] == spec_loadout_step(s5[i], ClassKind::Rogue));
        }
    }

    keep_position_while_chunks_loading(players);
    let ghost s7 = Seq::new(s6.len(), |i: int| spec_keep_position_step(s6[i]));
    proof {
        assert(players@ =~= s7);
    }
    update_inventory_while_chunks_loading(players);
    let ghost s8 = Seq::new(s7.len(), |i: int| spec_inventory_step(s7[i]));
    proof {
        assert(players@ =~= s8);
        assert forall|i: int|
            0 <= i < players@.len() implies sim_player_ok(#[trigger] players@[i]) by {
            assert(sim_player_ok(s6[i]));
            assert(s7[i] == spec_keep_position_step(s6[i]));
            assert(players@[i] == spec_inventory_step(s7[i]));
        }
    }
    update_changed_chunk_layer_timer(players);
    let ghost s9 = Seq::new(s8.len(), |i: int| spec_loading_tick(s8[i]));
    proof {
        assert(players@ =~= s9);
        assert forall|i: int|
            0 <= i < players@.len() implies sim_player_ok(#[trigger] players@[i]) by {
            assert(sim_player_ok(s8[i]));
            assert(players@[i] == spec_loading_tick(s8[i]));
        }
        assert forall|a: int, b: int|
            0 <= a < b < players@.len() implies (#[trigger] players@[a]).id != (
            #[trigger] players@[b]).id by {
            assert(players@[a].id == s2[a].id && players@[b].id == s2[b].id);
        }
    }
    notices
}

/// The roster, projectile set and grid after the ability passes: the
/// warrior digs, then the archers fire, then the mages, then every
/// attached cooldown counts down once.
pub open spec fn spec_ability_state(
    s: Seq<Player>,
    pj: Seq<Projectile>,
    g: Map<LatticePos, Block>,
    digging: Seq<DiggingEvent>,
    item_use: Seq<InteractItemEvent>,
    block_interact: Seq<InteractBlockEvent>,
) -> (Seq<Player>, Seq<Projectile>, Map<LatticePos, Block>) {
    let dug = spec_dig_events(s, g, Set::empty(), digging, digging.len() as int);
    let archer_clients = item_use.map_values(|e: InteractItemEvent| e.client);
    let shot = spec_fire_events(
        dug.0,
        pj,
        Set::empty(),
        archer_clients,
        ClassKind::Archer,
        archer_clients.len() as int,
    );
    let mage_clients = item_use.map_values(|e: InteractItemEvent| e.client)
        + block_interact.map_values(|e: InteractBlockEvent| e.client);
    let cast = spec_fire_events(
        shot.0,
        shot.1,
        Set::empty(),
        mage_clients,
        ClassKind::Mage,
        mage_clients.len() as int,
    );
    let s10 = Seq::new(cast.0.len(), |i: int| spec_tick_cooldown(cast.0[i]));
    (s10, cast.1, dug.1)
}

/// Ability firing over this tick's event batches, then the cooldown
/// decrement.
#[verifier::rlimit(100)]
#[verifier::spinoff_prover]
fn ability_pass(
    players: &mut Vec<Player>,
    projectiles: &mut Vec<Projectile>,
    grid: &mut VoxelGrid,
    digging: &Vec<DiggingEvent>,
    item_use: &Vec<InteractItemEvent>,
    block_interact: &Vec<InteractBlockEvent>,
)
    requires
        ids_distinct(old(players)@),
        forall|i: int|
            0 <= i < old(players)@.len() ==> sim_player_ok(#[trigger] old(players)@[i]),
        forall|j: int|
            0 <= j < old(projectiles)@.len() ==> sim_projectile_ok(
                #[trigger] old(projectiles)@[j],
            ),
        old(grid).wf(),
    ensures
        ({
            let r = spec_ability_state(
                old(players)@,
                old(projectiles)@,
                old(grid)@,
                digging@,
                item_use@,
                block_interact@,
            );
            final(players)@ == r.0 && final(projectiles)@ == r.1 && final(grid)@ == r.2
        }),
        final(players)@.len() == old(players)@.len(),
        ids_distinct(final(players)@),
        forall|i: int|
            0 <= i < final(players)@.len() ==> sim_player_ok(#[trigger] final(players)@[i]),
        forall|j: int|
            0 <= j < final(projectiles)@.len() ==> sim_projectile_ok(
                #[trigger] final(projectiles)@[j],
            ),
        final(grid).wf(),
        final(grid)@.dom() == old(grid)@.dom(),
{
    let ghost s9 = players@;
    let ghost pj0 = projectiles@;
    let ghost g0 = grid@;

    warrior_dig(players, grid, digging);
    let ghost dug = spec_dig_events(s9, g0, Set::empty(), digging@, digging@.len() as int);
    proof {
        crate::classes::lemma_dig_events_frame(
            s9,
            g0,
            Set::empty(),
            digging@,
            digging@.len() as int,
        );
        assert forall|i: int|
            0 <= i < players@.len() implies sim_player_ok(#[trigger] players@[i]) by {
            assert(sim_player_ok(s9[i]));
            assert(dug.0[i] == s9[i] || dug.0[i] == (Player {
                cooldown: Some(Cooldown(WARRIOR_DIG_COOLDOWN_TICKS)),
                ..s9[i]
            }));
        }
    }

    archer_shoot(players, projectiles, item_use);
    let ghost archer_clients = item_use@.map_values(|e: InteractItemEvent| e.client);
    let ghost shot = spec_fire_events(
        dug.0,
        pj0,
        Set::empty(),
        archer_clients,
        ClassKind::Archer,
        archer_clients.len() as int,
    );
    proof {
        crate::classes::lemma_fire_events_frame(
            dug.0,
            pj0,
            Set::empty(),
            archer_clients,
            ClassKind::Archer,
            archer_clients.len() as int,
        );
        assert forall|i: int|
            0 <= i < players@.len() implies sim_player_ok(#[trigger] players@[i]) by {
            assert(sim_player_ok(dug.0[i]));
            assert(shot.0[i] == dug.0[i] || shot.0[i] == (Player {
                cooldown: Some(Cooldown(ARCHER_COOLDOWN_TICKS)),
                ..dug.0[i]
            }));
        }
    }

    mage_shoot(players, projectiles, item_use, block_interact);
    let ghost mage_clients = item_use@.map_values(|e: InteractItemEvent| e.client)
        + block_interact@.map_values(|e: InteractBlockEvent| e.client);
    let ghost cast = spec_fire_events(
        shot.0,
        shot.1,
        Set::empty(),
        mage_clients,
        ClassKind::Mage,
        mage_clients.len() as int,
    );
    proof {
        crate::classes::lemma_fire_events_frame(
            shot.0,
            shot.1,
            Set::empty(),
            mage_clients,
            ClassKind::Mage,
            mage_clients.len() as int,
        );
        assert forall|i: int|
            0 <= i < players@.len() implies sim_player_ok(#[trigger] players@[i]) by {
            assert(sim_player_ok(shot.0[i]));
            assert(cast.0[i] == shot.0[i] || cast.0[i] == (Player {
                cooldown: Some(Cooldown(MAGE_COOLDOWN_TICKS)),
                ..shot.0[i]
            }));
        }
        assert forall|j: int|
            0 <= j < projectiles@.len() implies sim_projectile_ok(
            #[trigger] projectiles@[j],
        ) by {
            if j < pj0.len() {
                assert(shot.1[j] == pj0[j]);
                assert(cast.1[j] == shot.1[j]);
                assert(sim_projectile_ok(pj0[j]));
            } else if j < shot.1.len() {
                assert(cast.1[j] == shot.1[j]);
                assert(spawned_projectile_ok(shot.1[j]));
            } else {
                assert(spawned_projectile_ok(cast.1[j]));
            }
        }
        assert forall|i: int|
            0 <= i < players@.len() implies (#[trigger] players@[i]).wf() by {
            assert(sim_player_ok(players@[i]));
        }
    }

    update_cooldown(players);
    let ghost s10 = Seq::new(cast.0.len(), |i: int| spec_tick_cooldown(cast.0[i]));
    proof {
        assert(players@ =~= s10);
        assert forall|i: int|
            0 <= i < players@.len() implies sim_player_ok(#[trigger] players@[i]) by {
            assert(sim_player_ok(cast.0[i]));
            assert(players@[i] == spec_tick_cooldown(cast.0[i]));
        }
        assert forall|a: int, b: int|
            0 <= a < b < players@.len() implies (#[trigger] players@[a]).id != (
            #[trigger] players@[b]).id by {
            assert(players@[a].id == cast.0[a].id && players@[b].id == cast.0[b].id);
        }
    }
}

/// The grid and projectile set after the projectile passes: collision
/// strictly before motion, arrows first, fireballs second, then the
/// despawn marks are honoured.
pub open spec fn spec_projectile_state(
    g: Map<LatticePos, Block>,
    pj: Seq<Projectile>,
) -> (Map<LatticePos, Block>, Seq<Projectile>) {
    let arrows = spec_arrow_pass(g, pj, pj.len() as int);
    let p1 = Seq::new(arrows.1.len(), |i: int| spec_arrow_oob(arrows.1[i]));
    let p2 = Seq::new(p1.len(), |i: int| spec_arrow_move(p1[i]));
    let fireballs = spec_fireball_pass(arrows.0, p2, p2.len() as int);
    let p3 = Seq::new(fireballs.1.len(), |i: int| spec_fireball_oob(fireballs.1[i]));
    let p4 = Seq::new(p3.len(), |i: int| spec_fireball_move(p3[i]));
    (fireballs.0, spec_remaining(p4))
}

/// Projectile collision, out-of-bounds despawns and motion, for both
/// kinds, collision strictly first.
#[verifier::rlimit(100)]
#[verifier::spinoff_prover]
fn projectile_pass(projectiles: &mut Vec<Projectile>, grid: &mut VoxelGrid)
    requires
        old(grid).wf(),
        grid_interior(old(grid)@),
        forall|j: int|
            0 <= j < old(projectiles)@.len() ==> sim_projectile_ok(
                #[trigger] old(projectiles)@[j],
            ),
    ensures
        ({
            let r = spec_projectile_state(old(grid)@, old(projectiles)@);
            final(grid)@ == r.0 && final(projectiles)@ == r.1
        }),
        final(grid).wf(),
        final(grid)@.dom() == old(grid)@.dom(),
{
    let ghost g0 = grid@;
    let ghost pj0 = projectiles@;
    proof {
        assert forall|j: int|
            0 <= j < projectiles@.len() implies vel_bounded(
            (#[trigger] projectiles@[j]).vel,
        ) && samples_in_range(projectiles@[j].pos, projectiles@[j].vel)
            && crate::geom::in_lattice_range(projectiles@[j].pos) && pos_bounded(
            projectiles@[j].pos,
        ) by {
            lemma_sim_projectile_ranges(projectiles@[j]);
        }
    }
    arrow_intersection(projectiles, grid);
    let ghost arrows = spec_arrow_pass(g0, pj0, pj0.len() as int);
    proof {
        lemma_arrow_pass_frame(g0, pj0, pj0.len() as int);
        assert forall|j: int|
            0 <= j < projectiles@.len() implies sim_projectile_ok(
            #[trigger] projectiles@[j],
        ) by {
            assert(projectiles@[j].pos == pj0[j].pos && projectiles@[j].vel == pj0[j].vel);
            assert(sim_projectile_ok(pj0[j]));
        }
        assert forall|j: int|
            0 <= j < projectiles@.len() implies vel_bounded(
            (#[trigger] projectiles@[j]).vel,
        ) && samples_in_range(projectiles@[j].pos, projectiles@[j].vel)
            && crate::geom::in_lattice_range(projectiles@[j].pos) && pos_bounded(
            projectiles@[j].pos,
        ) by {
            lemma_sim_projectile_ranges(projectiles@[j]);
        }
    }
    arrow_oob(projectiles);
    let ghost p1 = Seq::new(arrows.1.len(), |i: int| spec_arrow_oob(arrows.1[i]));
    proof {
        assert(projectiles@ =~= p1);
        assert forall|j: int|
            0 <= j < projectiles@.len() implies sim_projectile_ok(
            #[trigger] projectiles@[j],
        ) by {
            assert(projectiles@[j] == spec_arrow_oob(arrows.1[j]));
            assert(sim_projectile_ok(arrows.1[j]));
        }
        assert forall|j: int|
            0 <= j < projectiles@.len() implies vel_bounded(
            (#[trigger] projectiles@[j]).vel,
        ) && pos_bounded(projectiles@[j].pos) by {
            lemma_sim_projectile_ranges(projectiles@[j]);
        }
    }
    arrow_movement(projectiles);
    let ghost p2 = Seq::new(p1.len(), |i: int| spec_arrow_move(p1[i]));
    proof {
        assert(projectiles@ =~= p2);
        // the arrow passes leave every fireball's motion state alone
        assert forall|j: int|
            0 <= j < projectiles@.len() && (#[trigger] projectiles@[j]).kind
                == ProjectileKind::Fireball implies vel_bounded(projectiles@[j].vel)
            && samples_in_range(projectiles@[j].pos, projectiles@[j].vel)
            && crate::geom::in_lattice_range(projectiles@[j].pos) && pos_bounded(
            projectiles@[j].pos,
        ) by {
            assert(p1[j] == spec_arrow_oob(arrows.1[j]));
            assert(projectiles@[j] == spec_arrow_move(p1[j]));
            assert(sim_projectile_ok(arrows.1[j]));
            lemma_sim_projectile_ranges(arrows.1[j]);
        }
        // the covered domain never changed, so every cell still sits
        // strictly inside the representable range
        assert forall|p: LatticePos| #[trigger]
            grid@.dom().contains(p) implies i32::MIN < p.x < i32::MAX && i32::MIN < p.y
            < i32::MAX && i32::MIN < p.z < i32::MAX by {
            assert(g0.dom().contains(p));
        }
    }
    fireball_intersection(projectiles, grid);
    let ghost fireballs = spec_fireball_pass(arrows.0, p2, p2.len() as int);
    proof {
        lemma_fireball_pass_frame(arrows.0, p2, p2.len() as int);
        assert forall|j: int|
            0 <= j < projectiles@.len() && (#[trigger] projectiles@[j]).kind
                == ProjectileKind::Fireball implies vel_bounded(projectiles@[j].vel)
            && crate::geom::in_lattice_range(projectiles@[j].pos) && pos_bounded(
            projectiles@[j].pos,
        ) by {
            assert(projectiles@[j].pos == p2[j].pos && projectiles@[j].vel == p2[j].vel
                && projectiles@[j].kind == p2[j].kind);
            assert(p1[j] == spec_arrow_oob(arrows.1[j]));
            assert(p2[j] == spec_arrow_move(p1[j]));
            assert(sim_projectile_ok(arrows.1[j]));
            lemma_sim_projectile_ranges(arrows.1[j]);
        }
    }
    fireball_oob(projectiles);
    let ghost p3 = Seq::new(fireballs.1.len(), |i: int| spec_fireball_oob(fireballs.1[i]));
    proof {
        assert(projectiles@ =~= p3);
        assert forall|j: int|
            0 <= j < projectiles@.len() && (#[trigger] projectiles@[j]).kind
                == ProjectileKind::Fireball implies vel_bounded(projectiles@[j].vel)
            && pos_bounded(projectiles@[j].pos) by {
            assert(projectiles@[j] == spec_fireball_oob(fireballs.1[j]));
            assert(fireballs.1[j].pos == p2[j].pos && fireballs.1[j].vel == p2[j].vel);
            assert(p1[j] == spec_arrow_oob(arrows.1[j]));
            assert(p2[j] == spec_arrow_move(p1[j]));
            assert(sim_projectile_ok(arrows.1[j]));
            lemma_sim_projectile_ranges(arrows.1[j]);
        }
    }
    fireball_movement(projectiles);
    let ghost p4 = Seq::new(p3.len(), |i: int| spec_fireball_move(p3[i]));
    proof {
        assert(projectiles@ =~= p4);
    }
    purge_despawned(projectiles);
}

/// The grid, tracker and report after the floor passes: footstep
/// damage, destruction of drained cells, then the damage-stage
/// broadcast that consumes the change marks.
pub open spec fn spec_floor_state(
    g: Map<LatticePos, Block>,
    cells: Seq<FloorCell>,
    s: Seq<Player>,
) -> (Map<LatticePos, Block>, Seq<FloorCell>, Seq<(LatticePos, u8)>) {
    let worn = Seq::new(
        cells.len(),
        |k: int|
            {
                let c = cells[k];
                let drained = count_standing(s, c.pos);
                FloorCell {
                    pos: c.pos,
                    state: BreakingState { hp: (c.state.hp - drained) as i32 },
                    changed: c.changed || drained > 0,
                }
            },
    );
    let kept = spec_surviving(worn);
    let cleared = Seq::new(kept.len(), |k: int| FloorCell { changed: false, ..kept[k] });
    (spec_destroy_grid(g, worn), cleared, spec_breaking_report(kept))
}

/// Footstep damage, destruction and the damage-stage broadcast.
#[verifier::rlimit(100)]
#[verifier::spinoff_prover]
fn floor_pass(
    players: &Vec<Player>,
    grid: &mut VoxelGrid,
    floor: &mut DynamicBlocks,
) -> (report: Vec<(LatticePos, u8)>)
    requires
        old(grid).wf(),
        old(floor).wf(),
        forall|i: int|
            0 <= i < players@.len() ==> sim_player_ok(#[trigger] players@[i]),
        forall|k: int|
            0 <= k < old(floor).cells().len() ==> (#[trigger] old(floor).cells()[k]).state.hp
                - players@.len() >= i32::MIN,
    ensures
        ({
            let r = spec_floor_state(old(grid)@, old(floor).cells(), players@);
            final(grid)@ == r.0 && final(floor).cells() == r.1 && report@ == r.2
        }),
{
    let ghost f0 = floor.cells();
    proof {
        assert forall|i: int|
            0 <= i < players@.len() && spec_treads(#[trigger] players@[i])
            implies players@[i].pos.y - 1000 >= i64::MIN && crate::geom::in_lattice_range(
            crate::floor::spec_below_point(players@[i]),
        ) by {
            assert(sim_player_ok(players@[i]));
        }
    }
    break_blocks_under_player(players, floor);
    let ghost worn = Seq::new(
        f0.len(),
        |k: int|
            {
                let c = f0[k];
                let drained = count_standing(players@, c.pos);
                FloorCell {
                    pos: c.pos,
                    state: BreakingState { hp: (c.state.hp - drained) as i32 },
                    changed: c.changed || drained > 0,
                }
            },
    );
    proof {
        assert(floor.cells() =~= worn);
    }
    destroy_broken_blocks(grid, floor);
    let report = send_breaking_state(floor);
    let ghost kept = spec_surviving(worn);
    let ghost cleared = Seq::new(kept.len(), |k: int| FloorCell { changed: false, ..kept[k] });
    proof {
        assert(floor.cells() =~= cleared);
    }
    report
}

/// Everything one tick produces: the roster, the projectiles in
/// flight, the voxel grid, the floor tracker's cells, the class-pick
/// notices, and the damage-stage report.
pub struct TickOutcome {
    pub players: Seq<Player>,
    pub projectiles: Seq<Projectile>,
    pub grid: Map<LatticePos, Block>,
    pub floor_cells: Seq<FloorCell>,
    pub notices: Seq<(u64, ClassKind)>,
    pub report: Seq<(LatticePos, u8)>,
}

/// The whole tick, pass by pass, in the fixed dependency order.
pub open spec fn spec_tick(
    players: Seq<Player>,
    projectiles: Seq<Projectile>,
    grid: Map<LatticePos, Block>,
    floor_cells: Seq<FloorCell>,
    triggers: Seq<ClassTrigger>,
    now: i64,
    digging: Seq<DiggingEvent>,
    item_use: Seq<InteractItemEvent>,
    block_interact: Seq<InteractBlockEvent>,
    melee: Seq<InteractEntityEvent>,
) -> TickOutcome {
    let lively = spec_lifecycle_roster(players, triggers);
    let notices = spec_move_notices(
        spec_triggers_pass(players, triggers, triggers.len() as int),
    );
    let abled = spec_ability_state(
        lively,
        projectiles,
        grid,
        digging,
        item_use,
        block_interact,
    );
    let flown = spec_projectile_state(abled.2, abled.1);
    let floored = spec_floor_state(flown.0, floor_cells, abled.0);
    let fought = spec_combat_events(abled.0, now, melee, melee.len() as int);
    TickOutcome {
        players: fought,
        projectiles: flown.1,
        grid: floored.0,
        floor_cells: floored.1,
        notices,
        report: floored.2,
    }
}

/// Runs one full simulation tick over the shared state, in the fixed
/// dependency order, and returns the class-pick notices and the
/// damage-stage report for the host to deliver.
#[verifier::rlimit(100)]
#[verifier::spinoff_prover]
pub fn tick(
    now: i64,
    players: &mut Vec<Player>,
    projectiles: &mut Vec<Projectile>,
    grid: &mut VoxelGrid,
    floor: &mut DynamicBlocks,
    triggers: &Vec<ClassTrigger>,
    digging: &Vec<DiggingEvent>,
    item_use: &Vec<InteractItemEvent>,
    block_interact: &Vec<InteractBlockEvent>,
    melee: &Vec<InteractEntityEvent>,
) -> (out: (Vec<(u64, ClassKind)>, Vec<(LatticePos, u8)>))
    requires
        ids_distinct(old(players)@),
        forall|i: int|
            0 <= i < old(players)@.len() ==> sim_player_ok(#[trigger] old(players)@[i]),
        forall|j: int|
            0 <= j < old(projectiles)@.len() ==> sim_projectile_ok(
                #[trigger] old(projectiles)@[j],
            ),
        old(grid).wf(),
        grid_interior(old(grid)@),
        old(floor).wf(),
        forall|k: int|
            0 <= k < old(floor).cells().len() ==> (#[trigger] old(floor).cells()[k]).state.hp
                - old(players)@.len() >= i32::MIN,
        -TICK_LIMIT <= now <= TICK_LIMIT,
    ensures
        ({
            let expected = spec_tick(
                old(players)@,
                old(projectiles)@,
                old(grid)@,
                old(floor).cells(),
                triggers@,
                now,
                digging@,
                item_use@,
                block_interact@,
                melee@,
            );
            &&& final(players)@ == expected.players
            &&& final(projectiles)@ == expected.projectiles
            &&& final(grid)@ == expected.grid
            &&& final(floor).cells() == expected.floor_cells
            &&& out.0@ == expected.notices
            &&& out.1@ == expected.report
        }),
{
    let ghost g0 = grid@;
    let notices = lifecycle_pass(players, triggers);
    ability_pass(players, projectiles, grid, digging, item_use, block_interact);
    proof {
        // the dig pass may clear covered cells but never changes the
        // covered domain, so the interior bound carries over
        assert forall|p: LatticePos| #[trigger]
            grid@.dom().contains(p) implies i32::MIN < p.x < i32::MAX && i32::MIN < p.y
            < i32::MAX && i32::MIN < p.z < i32::MAX by {
            assert(g0.dom().contains(p));
        }
    }
    let ghost abled = players@;
    projectile_pass(projectiles, grid);
    let report = floor_pass(players, grid, floor);
    proof {
        assert forall|i: int|
            0 <= i < players@.len() && (#[trigger] players@[i]).combat is Some
            implies combat_pos_bounded(players@[i].pos) && -TICK_LIMIT <= players@[
            i].combat->Some_0.last_attacked_tick <= TICK_LIMIT by {
            assert(sim_player_ok(players@[i]));
        }
    }
    combat(now, players, melee);
    (notices, report)
}

} // verus!