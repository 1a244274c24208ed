//! The per-tick driver: steering, then integration, then camera framing,
//! each stage completing fully before the next, and the fatal error type
//! they share.

use vstd::prelude::*;
use crate::agent::{flock_in_range, flock_view, Agent, AgentView};
use crate::camera::{
    frame_flock, framed_pose, limiting_sin, positions_in_range, positions_view, CameraPose,
};
use crate::config::{CameraParams, SimulationConfig};
use crate::motion::{integrate_flock, integrated, lean_of, lemma_integrated_position_bounds, LeanRotation};
use crate::steering::{steer_flock, steered_velocity};
use crate::vec::{Vec3Fx, Vec3i};
use crate::{DT_MAX, FLOCK_MAX};

verus! {

/// The fatal outcomes. The engine's arithmetic is exact on its fixed-point
/// domain, so where a floating-point engine would check for not-a-number it
/// checks the domain instead: state or geometry it has no sound answer for
/// stops the simulation rather than letting corruption propagate.
#[derive(Clone, Copy, PartialEq, Eq, Structural, Debug)]
pub enum SimError {
    /// An agent's state left the representable range (the counterpart of a
    /// velocity turning NaN).
    CorruptAgent,
    /// The required camera distance is undefined for the flock's geometry
    /// and the camera's projection (the counterpart of the distance turning
    /// NaN).
    CorruptCameraDistance,
}

/// What one tick hands back to the render layer: a banking rotation slot
/// per agent, and the camera's new pose if the flock was nonempty.
pub struct TickOutput {
    pub leans: Vec<Option<LeanRotation>>,
    pub camera: Option<CameraPose>,
}

/// One whole engine tick for one agent, as a mathematical function: the
/// steering rule commits a velocity computed from the snapshot, then
/// integration moves the agent by it.
pub open spec fn stepped(
    a: AgentView,
    flock: Seq<AgentView>,
    cfg: SimulationConfig,
    dt: int,
) -> AgentView {
    integrated(AgentView { velocity: steered_velocity(a, flock, cfg), ..a }, dt)
}

/// The banking rotation one tick derives for one agent.
pub open spec fn stepped_lean(
    a: AgentView,
    flock: Seq<AgentView>,
    cfg: SimulationConfig,
    dt: int,
) -> Option<LeanRotation> {
    lean_of(AgentView { velocity: steered_velocity(a, flock, cfg), ..a }, dt)
}

/// The positions of a flock, in store order.
pub open spec fn flock_positions(s: Seq<AgentView>) -> Seq<Vec3i> {
    s.map_values(|a: AgentView| a.position)
}

/// One simulation tick (executable): steer every agent from the snapshot
/// taken at entry, integrate every agent's motion, then reframe the camera
/// over the updated positions. State outside the engine's numeric domain is
/// fatal before anything moves; an undefined camera distance is fatal only
/// after the agents have moved, since framing is the last stage.
#[verifier::loop_isolation(false)]
pub fn tick(
    agents: &mut Vec<Agent>,
    cfg: &SimulationConfig,
    cam: &CameraParams,
    dt: i64,
) -> (result: Result<TickOutput, SimError>)
    requires
        cfg.wf(),
        cam.wf(),
        0 <= dt <= DT_MAX,
        old(agents)@.len() <= FLOCK_MAX,
    ensures
        !flock_in_range(flock_view(old(agents)@)) ==> result == Err::<TickOutput, SimError>(
            SimError::CorruptAgent,
        ) && final(agents)@ == old(agents)@,
        flock_in_range(flock_view(old(agents)@)) ==> {
            &&& final(agents)@.len() == old(agents)@.len()
            &&& forall|i: int|
                0 <= i < old(agents)@.len() ==> #[trigger] final(agents)@[i]@ == stepped(
                    old(agents)@[i]@,
                    flock_view(old(agents)@),
                    *cfg,
                    dt as int,
                )
            &&& match result {
                Ok(out) => {
                    &&& out.leans@.len() == old(agents)@.len()
                    &&& forall|i: int|
                        0 <= i < old(agents)@.len() ==> #[trigger] out.leans@[i] == stepped_lean(
                            old(agents)@[i]@,
                            flock_view(old(agents)@),
                            *cfg,
                            dt as int,
                        )
                    &&& old(agents)@.len() == 0 ==> out.camera is None
                    &&& old(agents)@.len() > 0 ==> limiting_sin(*cam) > 0 && out.camera == Some(
                        framed_pose(flock_positions(flock_view(final(agents)@)), *cam),
                    )
                },
                Err(e) => {
                    &&& e == SimError::CorruptCameraDistance
                    &&& old(agents)@.len() > 0
                    &&& limiting_sin(*cam) <= 0
                },
            }
        },
{
    let ghost orig = agents@;

    let mut i: usize = 0;
    while i < agents.len()
        invariant
            agents@ == orig,
            0 <= i <= orig.len(),
            forall|j: int| 0 <= j < i as int ==> #[trigger] flock_view(orig)[j].in_range(),
        decreases orig.len() - i,
    {
        let ok = agents[i].check_in_range();
        proof {
            assert(flock_view(orig)[i as int] == orig[i as int]@);
        }
        if !ok {
            return Err(SimError::CorruptAgent);
        }
        i = i + 1;
    }

    steer_flock(agents, cfg);
    let ghost steered = agents@;

    let leans = match integrate_flock(agents, dt) {
        Ok(leans) => leans,
        Err(e) => {
            proof {
                assert(flock_view(steered)[0].in_range() || flock_view(steered).len() == 0);
                assert(false);
            }
            return Err(e);
        },
    };

    proof {
        assert forall|i: int| 0 <= i < orig.len() implies #[trigger] agents@[i]@ == stepped(
            orig[i]@,
            flock_view(orig),
            *cfg,
            dt as int,
        ) by {
            assert(steered[i]@ == AgentView {
                velocity: steered_velocity(orig[i]@, flock_view(orig), *cfg),
                ..orig[i]@
            });
        }
        assert forall|i: int| 0 <= i < orig.len() implies #[trigger] leans@[i] == stepped_lean(
            orig[i]@,
            flock_view(orig),
            *cfg,
            dt as int,
        ) by {
            assert(steered[i]@ == AgentView {
                velocity: steered_velocity(orig[i]@, flock_view(orig), *cfg),
                ..orig[i]@
            });
        }
    }

    let mut positions: Vec<Vec3Fx> = Vec::new();
    let mut i: usize = 0;
    while i < agents.len()
        invariant
            0 <= i <= agents@.len(),
            positions@.len() == i as int,
            forall|j: int| 0 <= j < i as int ==> #[trigger] positions@[j] == agents@[j].position,
        decreases agents@.len() - i,
    {
        let p = agents[i].position;
        positions.push(p);
        i = i + 1;
    }
    proof {
        assert(positions_view(positions@) =~= flock_positions(flock_view(agents@)));
        assert forall|j: int| 0 <= j < positions_view(positions@).len() implies {
            &&& -crate::POS_LIMIT <= #[trigger] positions_view(positions@)[j].x <= crate::POS_LIMIT
            &&& -crate::POS_LIMIT <= positions_view(positions@)[j].y <= crate::POS_LIMIT
            &&& -crate::POS_LIMIT <= positions_view(positions@)[j].z <= crate::POS_LIMIT
        } by {
            assert(flock_view(steered)[j].in_range());
            lemma_integrated_position_bounds(steered[j]@, dt as int);
            assert(agents@[j]@ == integrated(steered[j]@, dt as int));
        }
        assert(positions_in_range(positions_view(positions@)));
    }

    let camera = match frame_flock(&positions, cam) {
        Ok(camera) => camera,
        Err(e) => {
            return Err(e);
        },
    };
    Ok(TickOutput { leans, camera })
}

} // verus!
