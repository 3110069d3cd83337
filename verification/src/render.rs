//! Frame layout.
//!
//! A frame is laid out as a fixed sequence of drawing commands, back to
//! front: a white background, the round simulation boundary, three guide
//! lines, the step label, then one unfilled circle per particle in record
//! order.  The canvas is 1024 pixels wide and 1024 plus the label band
//! high; coordinates are centered, with the origin in the canvas middle,
//! x growing rightward and y growing upward, as the drawing toolkit has
//! it.  The plan is a function of the frame state and the records alone.

use crate::frame::FrameState;
use crate::names::{step_digits, step_label};
use crate::record::{ParticleRecord, RecordModel};
use vstd::prelude::*;

verus! {

/// Width of the main square region, in pixels.
pub const MAIN_SIZE: u32 = 1024;

/// Stroke width of every outline and guide line, in pixels.
pub const STROKE_WEIGHT: u32 = 2;

/// Font size of the step label.
pub const LABEL_FONT_SIZE: u32 = 24;

/// The colors a frame uses: white for the background, black for the
/// boundary outline, green for the particles, and gray — neutral, and
/// distinct from both stroke colors — for the guide lines and the label.
#[derive(Clone, Copy, Debug, PartialEq, Eq, Structural)]
pub enum Color {
    White,
    Black,
    Gray,
    Green,
}

/// One drawing command.
#[derive(Clone, Debug, PartialEq, Eq)]
pub enum DrawCmd {
    /// Fill the whole canvas.
    Background { color: Color },
    /// An unfilled circle, stroke only.
    OutlineCircle { cx: i32, cy: i32, diameter: u32, color: Color, weight: u32 },
    /// A straight segment between two points.
    Segment { x1: i32, y1: i32, x2: i32, y2: i32, color: Color, weight: u32 },
    /// Text centered at a point.
    Text { text: String, cx: i32, cy: i32, font_size: u32, color: Color },
    /// An unfilled circle for one particle.  Its center is `(x, y + y_offset)`
    /// and its diameter twice `r`, where `x`, `y` and `r` stand for the
    /// record's literal coordinate texts, which the drawing layer evaluates.
    ParticleCircle {
        x_text: String,
        y_text: String,
        y_offset: u32,
        r_text: String,
        color: Color,
        weight: u32,
    },
}

/// The mathematical content of a drawing command.
pub enum DrawCmdModel {
    Background { color: Color },
    OutlineCircle { cx: int, cy: int, diameter: int, color: Color, weight: int },
    Segment { x1: int, y1: int, x2: int, y2: int, color: Color, weight: int },
    Text { text: Seq<char>, cx: int, cy: int, font_size: int, color: Color },
    ParticleCircle {
        x_text: Seq<char>,
        y_text: Seq<char>,
        y_offset: int,
        r_text: Seq<char>,
        color: Color,
        weight: int,
    },
}

impl View for DrawCmd {
    type V = DrawCmdModel;

    open spec fn view(&self) -> DrawCmdModel {
        match self {
            DrawCmd::Background { color } => DrawCmdModel::Background { color: *color },
            DrawCmd::OutlineCircle { cx, cy, diameter, color, weight } => {
                DrawCmdModel::OutlineCircle {
                    cx: *cx as int,
                    cy: *cy as int,
                    diameter: *diameter as int,
                    color: *color,
                    weight: *weight as int,
                }
            },
            DrawCmd::Segment { x1, y1, x2, y2, color, weight } => {
                DrawCmdModel::Segment {
                    x1: *x1 as int,
                    y1: *y1 as int,
                    x2: *x2 as int,
                    y2: *y2 as int,
                    color: *color,
                    weight: *weight as int,
                }
            },
            DrawCmd::Text { text, cx, cy, font_size, color } => {
                DrawCmdModel::Text {
                    text: text@,
                    cx: *cx as int,
                    cy: *cy as int,
                    font_size: *font_size as int,
                    color: *color,
                }
            },
            DrawCmd::ParticleCircle { x_text, y_text, y_offset, r_text, color, weight } => {
                DrawCmdModel::ParticleCircle {
                    x_text: x_text@,
                    y_text: y_text@,
                    y_offset: *y_offset as int,
                    r_text: r_text@,
                    color: *color,
                    weight: *weight as int,
                }
            },
        }
    }
}

/// The six fixed commands of a frame, back to front: background, boundary
/// circle, vertical centerline, the line atop the label band, the line
/// near the bottom of the main region, and the step label.
pub open spec fn spec_fixed_cmds(step: nat, label_height: int) -> Seq<DrawCmdModel> {
    let half = label_height / 2;
    seq![
        DrawCmdModel::Background { color: Color::White },
        DrawCmdModel::OutlineCircle {
            cx: 0,
            cy: half,
            diameter: 1024,
            color: Color::Black,
            weight: 2,
        },
        DrawCmdModel::Segment {
            x1: 0,
            y1: (1024 + label_height) / 2,
            x2: 0,
            y2: -((1024 + label_height) / 2),
            color: Color::Gray,
            weight: 2,
        },
        DrawCmdModel::Segment {
            x1: 512,
            y1: label_height,
            x2: -512,
            y2: label_height,
            color: Color::Gray,
            weight: 2,
        },
        DrawCmdModel::Segment {
            x1: -512,
            y1: -512 + half,
            x2: 512,
            y2: -512 + half,
            color: Color::Gray,
            weight: 2,
        },
        DrawCmdModel::Text {
            text: "step: "@ + step_digits(step),
            cx: 0,
            cy: -507,
            font_size: 24,
            color: Color::Gray,
        },
    ]
}

/// The command drawing one particle: an unfilled circle of diameter twice
/// the radius, centered at the particle's position lifted by half the
/// label band.
pub open spec fn spec_particle_cmd(label_height: int, m: RecordModel) -> DrawCmdModel {
    DrawCmdModel::ParticleCircle {
        x_text: m.x,
        y_text: m.y,
        y_offset: label_height / 2,
        r_text: m.r,
        color: Color::Green,
        weight: 2,
    }
}

/// The whole plan of a frame: the six fixed commands, then one particle
/// circle per record, in record order.
pub open spec fn spec_render_plan(state: FrameState, cells: Seq<RecordModel>) -> Seq<
    DrawCmdModel,
> {
    spec_fixed_cmds(state.step as nat, state.label_height as int) + cells.map_values(
        |m: RecordModel| spec_particle_cmd(state.label_height as int, m),
    )
}

/// Lays out one frame.  The plan equals `spec_render_plan` of the state
/// and the records, so it is deterministic: same state and records, same
/// commands, in the same order with the same colors and widths.
pub fn render_plan(state: &FrameState, cells: &Vec<ParticleRecord>) -> (plan: Vec<DrawCmd>)
    requires
        state.wf(),
        state.step >= 0,
    ensures
        plan@.len() == spec_render_plan(*state, cells@.map_values(|c: ParticleRecord| c@)).len(),
        forall|i: int|
            0 <= i < plan@.len() ==> plan@[i]@ == spec_render_plan(
                *state,
                cells@.map_values(|c: ParticleRecord| c@),
            )[i],
{
    let ghost models = cells@.map_values(|c: ParticleRecord| c@);
    let ghost goal = spec_render_plan(*state, models);
    let label = state.label_height as i32;
    let half = label / 2;
    let mut plan: Vec<DrawCmd> = Vec::new();
    plan.push(DrawCmd::Background { color: Color::White });
    plan.push(
        DrawCmd::OutlineCircle {
            cx: 0,
            cy: half,
            diameter: 1024,
            color: Color::Black,
            weight: 2,
        },
    );
    plan.push(
        DrawCmd::Segment {
            x1: 0,
            y1: (1024 + label) / 2,
            x2: 0,
            y2: -((1024 + label) / 2),
            color: Color::Gray,
            weight: 2,
        },
    );
    plan.push(
        DrawCmd::Segment {
            x1: 512,
            y1: label,
            x2: -512,
            y2: label,
            color: Color::Gray,
            weight: 2,
        },
    );
    plan.push(
        DrawCmd::Segment {
            x1: -512,
            y1: -512 + half,
            x2: 512,
            y2: -512 + half,
            color: Color::Gray,
            weight: 2,
        },
    );
    let text = step_label(state.step as u32);
    plan.push(
        DrawCmd::Text { text, cx: 0, cy: -507, font_size: 24, color: Color::Gray },
    );
    proof {
        assert(plan@.len() == 6);
        assert(forall|i: int| 0 <= i < 6 ==> plan@[i]@ == #[trigger] goal[i]);
    }
    let mut k: usize = 0;
    while k < cells.len()
        invariant
            state.wf(),
            state.step >= 0,
            models == cells@.map_values(|c: ParticleRecord| c@),
            goal == spec_render_plan(*state, models),
            k <= cells@.len(),
            plan@.len() == 6 + k,
            goal.len() == 6 + cells@.len(),
            forall|i: int| 0 <= i < plan@.len() ==> plan@[i]@ == #[trigger] goal[i],
        decreases cells@.len() - k,
    {
        let cell = &cells[k];
        plan.push(
            DrawCmd::ParticleCircle {
                x_text: cell.x.clone(),
                y_text: cell.y.clone(),
                y_offset: state.label_height / 2,
                r_text: cell.r.clone(),
                color: Color::Green,
                weight: 2,
            },
        );
        proof {
            assert(models[k as int] == cells@[k as int]@);
            assert(goal[6 + k as int] == spec_particle_cmd(
                state.label_height as int,
                models[k as int],
            ));
        }
        k = k + 1;
    }
    plan
}

/// Law: rendering is deterministic.  The drawing plan is a function of
/// the frame state and the records alone, so identical records and step
/// index always yield the identical command sequence — same draw order,
/// same fixed colors and stroke widths — and hence the identical canvas.
pub proof fn lemma_render_deterministic(
    s1: FrameState,
    s2: FrameState,
    c1: Seq<RecordModel>,
    c2: Seq<RecordModel>,
)
    requires
        s1 == s2,
        c1 == c2,
    ensures
        spec_render_plan(s1, c1) == spec_render_plan(s2, c2),
{
}

} // verus!
