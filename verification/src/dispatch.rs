//! Coalescing of queued signals into one batch per dispatch iteration.
//!
//! The dispatcher drains every signal already queued before acting, so a
//! burst of producers costs at most one redraw: the batch keeps one quit
//! flag, the most recent resize dimensions, the suspend and resume flags,
//! and one collapsed render flag.

use vstd::prelude::*;

use crate::action::Action;

verus! {

/// The summary of one drained burst of signals.
#[derive(Debug, Clone, Copy)]
pub struct Batch {
    pub quit: bool,
    pub resize: Option<(u16, u16)>,
    pub suspend: bool,
    pub resume: bool,
    pub render: bool,
}

/// The batch holding exactly one signal.
pub open spec fn batch_init(a: Action) -> Batch {
    Batch {
        quit: a is Quit,
        resize: if a is Resize {
            Some((a->Resize_0, a->Resize_1))
        } else {
            None
        },
        suspend: a is Suspend,
        resume: a is Resume,
        render: a is Render,
    }
}

/// Folding one more queued signal into the batch. After a quit nothing
/// further is examined; a later resize replaces an earlier one; error
/// signals do not take part in batching.
pub open spec fn batch_add(b: Batch, a: Action) -> Batch {
    if b.quit {
        b
    } else {
        match a {
            Action::Quit => Batch { quit: true, ..b },
            Action::Resize(w, h) => Batch { resize: Some((w, h)), ..b },
            Action::Suspend => Batch { suspend: true, ..b },
            Action::Resume => Batch { resume: true, ..b },
            Action::Render => Batch { render: true, ..b },
            Action::Error(_) => b,
        }
    }
}

/// The batch for a first signal followed by the queued `pending`, in
/// arrival order.
pub open spec fn coalesce(first: Action, pending: Seq<Action>) -> Batch
    decreases pending.len(),
{
    if pending.len() == 0 {
        batch_init(first)
    } else {
        batch_add(coalesce(first, pending.drop_last()), pending.last())
    }
}

fn add_action(b: Batch, a: &Action) -> (r: Batch)
    ensures
        r == batch_add(b, *a),
{
    if b.quit {
        b
    } else {
        match a {
            Action::Quit => Batch { quit: true, ..b },
            Action::Resize(w, h) => Batch { resize: Some((*w, *h)), ..b },
            Action::Suspend => Batch { suspend: true, ..b },
            Action::Resume => Batch { resume: true, ..b },
            Action::Render => Batch { render: true, ..b },
            Action::Error(_) => b,
        }
    }
}

fn init_action(a: &Action) -> (r: Batch)
    ensures
        r == batch_init(*a),
{
    let none: Option<(u16, u16)> = None;
    match a {
        Action::Quit => Batch {
            quit: true,
            resize: none,
            suspend: false,
            resume: false,
            render: false,
        },
        Action::Resize(w, h) => Batch {
            quit: false,
            resize: Some((*w, *h)),
            suspend: false,
            resume: false,
            render: false,
        },
        Action::Suspend => Batch {
            quit: false,
            resize: none,
            suspend: true,
            resume: false,
            render: false,
        },
        Action::Resume => Batch {
            quit: false,
            resize: none,
            suspend: false,
            resume: true,
            render: false,
        },
        Action::Render => Batch {
            quit: false,
            resize: none,
            suspend: false,
            resume: false,
            render: true,
        },
        Action::Error(_) => Batch {
            quit: false,
            resize: none,
            suspend: false,
            resume: false,
            render: false,
        },
    }
}

/// Reduces a first signal and everything already queued behind it to one
/// batch.
pub fn coalesce_batch(first: &Action, pending: &Vec<Action>) -> (b: Batch)
    ensures
        b == coalesce(*first, pending@),
{
    let mut b = init_action(first);
    let n = pending.len();
    for i in 0..n
        invariant
            n == pending@.len(),
            b == coalesce(*first, pending@.take(i as int)),
    {
        b = add_action(b, &pending[i]);
        proof {
            let prefix = pending@.take(i + 1 as int);
            assert(prefix.drop_last() =~= pending@.take(i as int));
            assert(prefix.last() == pending@[i as int]);
        }
    }
    proof {
        assert(pending@.take(n as int) =~= pending@);
    }
    b
}

/// One terminal operation the dispatcher performs while applying a batch.
/// `Render` is the only step that draws a frame.
#[derive(Debug, Clone, Copy, PartialEq, Eq, Structural)]
pub enum Step {
    Resize(u16, u16),
    Suspend,
    Resume,
    Render,
}

/// The steps a batch asks for, in the order they must run: resize first,
/// then suspend, then resume, then at most one draw. A resume forces the
/// draw. A quit batch asks for nothing.
pub open spec fn spec_plan(b: Batch) -> Seq<Step> {
    if b.quit {
        Seq::empty()
    } else {
        (match b.resize {
            Some((w, h)) => seq![Step::Resize(w, h)],
            None => Seq::empty(),
        }) + (if b.suspend {
            seq![Step::Suspend]
        } else {
            Seq::empty()
        }) + (if b.resume {
            seq![Step::Resume]
        } else {
            Seq::empty()
        }) + (if b.render || b.resume {
            seq![Step::Render]
        } else {
            Seq::empty()
        })
    }
}

/// Turns a batch into the steps to perform and whether the dispatch loop
/// must stop. On quit the loop stops with no further redraw.
pub fn plan_steps(b: &Batch) -> (r: (Vec<Step>, bool))
    ensures
        r.1 == b.quit,
        r.0@ == spec_plan(*b),
{
    let mut steps: Vec<Step> = Vec::new();
    if b.quit {
        proof {
            assert(steps@ =~= spec_plan(*b));
        }
        return (steps, true);
    }
    match b.resize {
        Some((w, h)) => steps.push(Step::Resize(w, h)),
        None => {}
    }
    if b.suspend {
        steps.push(Step::Suspend);
    }
    if b.resume {
        steps.push(Step::Resume);
    }
    if b.render || b.resume {
        steps.push(Step::Render);
    }
    proof {
        assert(steps@ =~= spec_plan(*b));
    }
    (steps, false)
}

/// How many of the steps draw a frame.
pub open spec fn render_count(steps: Seq<Step>) -> nat
    decreases steps.len(),
{
    if steps.len() == 0 {
        0
    } else {
        render_count(steps.drop_last()) + (if steps.last() is Render {
            1nat
        } else {
            0nat
        })
    }
}

/// Debounced rendering: however many producers fired in the drained
/// window, one dispatch iteration draws at most one frame, and draws
/// exactly one iff the batch was not a quit and asked for a render or a
/// resume.
pub proof fn lemma_one_render_per_batch(b: Batch)
    ensures
        render_count(spec_plan(b)) <= 1,
        render_count(spec_plan(b)) == 1 <==> (!b.quit && (b.render || b.resume)),
{
    let s = spec_plan(b);
    if b.quit {
        assert(render_count(s) == 0);
    } else {
        let head = (match b.resize {
            Some((w, h)) => seq![Step::Resize(w, h)],
            None => Seq::<Step>::empty(),
        }) + (if b.suspend {
            seq![Step::Suspend]
        } else {
            Seq::<Step>::empty()
        }) + (if b.resume {
            seq![Step::Resume]
        } else {
            Seq::<Step>::empty()
        });
        lemma_render_count_no_render(head);
        if b.render || b.resume {
            assert(s =~= head + seq![Step::Render]);
            assert(s.drop_last() =~= head);
        } else {
            assert(s =~= head);
        }
    }
}

/// A run of steps none of which draws, draws nothing.
proof fn lemma_render_count_no_render(steps: Seq<Step>)
    requires
        forall|i: int| 0 <= i < steps.len() ==> !(#[trigger] steps[i] is Render),
    ensures
        render_count(steps) == 0,
    decreases steps.len(),
{
    if steps.len() > 0 {
        lemma_render_count_no_render(steps.drop_last());
    }
}

/// A burst with no quit keeps the dimensions of its most recent resize:
/// whatever else was queued around it, the batch resizes to exactly those
/// dimensions.
pub proof fn lemma_latest_resize_wins(first: Action, pending: Seq<Action>, w: u16, h: u16)
    requires
        !(first is Quit),
        forall|i: int| 0 <= i < pending.len() ==> !(#[trigger] pending[i] is Quit),
        pending.len() > 0,
        pending.last() == Action::Resize(w, h),
    ensures
        coalesce(first, pending).resize == Some((w, h)),
{
    lemma_no_quit_stays_live(first, pending.drop_last());
}

/// A burst with no quit never sets the quit flag.
proof fn lemma_no_quit_stays_live(first: Action, pending: Seq<Action>)
    requires
        !(first is Quit),
        forall|i: int| 0 <= i < pending.len() ==> !(#[trigger] pending[i] is Quit),
    ensures
        !coalesce(first, pending).quit,
    decreases pending.len(),
{
    if pending.len() > 0 {
        lemma_no_quit_stays_live(first, pending.drop_last());
    }
}

} // verus!
