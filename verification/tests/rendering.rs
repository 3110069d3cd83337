use create_image::frame::FrameState;
use create_image::parse::parse_file;
use create_image::render::{render_plan, Color, DrawCmd};

fn rendering_state(step: i32) -> FrameState {
    FrameState { step, max_step: 100, label_height: 30 }
}

#[test]
fn empty_frame_draws_the_six_fixed_commands() {
    let state = rendering_state(0);
    let plan = render_plan(&state, &Vec::new());
    assert_eq!(plan.len(), 6);
    assert_eq!(plan[0], DrawCmd::Background { color: Color::White });
    assert_eq!(
        plan[1],
        DrawCmd::OutlineCircle {
            cx: 0,
            cy: 15,
            diameter: 1024,
            color: Color::Black,
            weight: 2,
        }
    );
    assert_eq!(
        plan[2],
        DrawCmd::Segment { x1: 0, y1: 527, x2: 0, y2: -527, color: Color::Gray, weight: 2 }
    );
    assert_eq!(
        plan[3],
        DrawCmd::Segment { x1: 512, y1: 30, x2: -512, y2: 30, color: Color::Gray, weight: 2 }
    );
    assert_eq!(
        plan[4],
        DrawCmd::Segment {
            x1: -512,
            y1: -497,
            x2: 512,
            y2: -497,
            color: Color::Gray,
            weight: 2,
        }
    );
    assert_eq!(
        plan[5],
        DrawCmd::Text {
            text: String::from("step: 00000"),
            cx: 0,
            cy: -507,
            font_size: 24,
            color: Color::Gray,
        }
    );
}

#[test]
fn label_follows_the_step() {
    let state = rendering_state(37);
    let plan = render_plan(&state, &Vec::new());
    match &plan[5] {
        DrawCmd::Text { text, .. } => assert_eq!(text, "step: 00037"),
        other => panic!("expected the step label, got {:?}", other),
    }
}

#[test]
fn each_record_adds_one_particle_circle_in_order() {
    let input = "0\tA\t1.5\t-2.25\t0\t0\t0\t0\t4.5\t2\t[]\n\
                 1\tB\t-7.0\t8.0\t0\t0\t0\t0\t0.5\t0\t[]\n";
    let records = parse_file(input).expect("file should parse");
    let state = rendering_state(3);
    let plan = render_plan(&state, &records);
    assert_eq!(plan.len(), 8);
    assert_eq!(
        plan[6],
        DrawCmd::ParticleCircle {
            x_text: String::from("1.5"),
            y_text: String::from("-2.25"),
            y_offset: 15,
            r_text: String::from("4.5"),
            color: Color::Green,
            weight: 2,
        }
    );
    assert_eq!(
        plan[7],
        DrawCmd::ParticleCircle {
            x_text: String::from("-7.0"),
            y_text: String::from("8.0"),
            y_offset: 15,
            r_text: String::from("0.5"),
            color: Color::Green,
            weight: 2,
        }
    );
}

#[test]
fn rendering_is_deterministic() {
    let input = "0\tA\t1.5\t-2.25\t0\t0\t0\t0\t4.5\t2\t[]\n";
    let records_once = parse_file(input).expect("file should parse");
    let records_again = parse_file(input).expect("file should parse");
    let plan_once = render_plan(&rendering_state(9), &records_once);
    let plan_again = render_plan(&rendering_state(9), &records_again);
    assert_eq!(plan_once, plan_again);
}
