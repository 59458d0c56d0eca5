use yap::action::Action;
use yap::dispatch::{coalesce_batch, plan_steps, Step};

#[test]
fn many_renders_and_a_resize_cost_one_redraw_with_latest_dimensions() {
    let pending = vec![Action::Render, Action::Render, Action::Resize(80, 24)];
    let batch = coalesce_batch(&Action::Render, &pending);
    let (steps, stop) = plan_steps(&batch);
    assert!(!stop);
    assert_eq!(steps, vec![Step::Resize(80, 24), Step::Render]);
}

#[test]
fn later_resize_replaces_earlier_one() {
    let pending = vec![Action::Resize(10, 10), Action::Resize(120, 40)];
    let batch = coalesce_batch(&Action::Render, &pending);
    assert_eq!(batch.resize, Some((120, 40)));
}

#[test]
fn quit_stops_without_redraw() {
    let pending = vec![Action::Render, Action::Quit, Action::Resize(1, 1)];
    let batch = coalesce_batch(&Action::Render, &pending);
    let (steps, stop) = plan_steps(&batch);
    assert!(stop);
    assert!(steps.is_empty());
}

#[test]
fn resume_forces_a_single_render() {
    let batch = coalesce_batch(&Action::Resume, &Vec::new());
    let (steps, stop) = plan_steps(&batch);
    assert!(!stop);
    assert_eq!(steps, vec![Step::Resume, Step::Render]);
}

#[test]
fn suspend_and_resize_come_before_the_render() {
    let pending = vec![Action::Suspend, Action::Render];
    let batch = coalesce_batch(&Action::Resize(30, 10), &pending);
    let (steps, stop) = plan_steps(&batch);
    assert!(!stop);
    assert_eq!(steps, vec![Step::Resize(30, 10), Step::Suspend, Step::Render]);
}

#[test]
fn error_signals_do_not_trigger_a_redraw() {
    let batch = coalesce_batch(&Action::Error(String::from("boom")), &Vec::new());
    let (steps, stop) = plan_steps(&batch);
    assert!(!stop);
    assert!(steps.is_empty());
}
