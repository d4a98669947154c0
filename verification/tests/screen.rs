use ratgames::session::screen::topmost_opaque_index;
use ratgames::session::{ScreenChange, ScreenStack};
use ratgames::ui::UiInput;

/// The test context: a log of `(screen id, event)` the screens append to.
type Ctx = Vec<(u32, &'static str)>;

#[derive(Debug, Clone, PartialEq)]
struct Fake {
    id: u32,
    opaque: bool,
}

impl Fake {
    fn new(id: u32, opaque: bool) -> Fake {
        Fake { id, opaque }
    }

    fn handle(&mut self, input: UiInput, ctx: &mut Ctx) -> ScreenChange<Fake> {
        ctx.push((self.id, "handle"));
        match input {
            UiInput::Confirm => ScreenChange::Push(Fake::new(self.id * 10, true)),
            UiInput::Cancel => ScreenChange::Pop,
            _ => ScreenChange::Stay,
        }
    }

    fn tick(&mut self, ctx: &mut Ctx) -> ScreenChange<Fake> {
        ctx.push((self.id, "tick"));
        ScreenChange::Stay
    }
}

fn handle(stack: &mut ScreenStack<Fake>, input: UiInput, ctx: &mut Ctx) {
    if let Some(mut top) = stack.take_top() {
        let change = top.handle(input, ctx);
        stack.settle(top, change);
    }
}

fn tick(stack: &mut ScreenStack<Fake>, ctx: &mut Ctx) {
    if let Some(mut top) = stack.take_top() {
        let change = top.tick(ctx);
        stack.settle(top, change);
    }
}

/// The ids of the screens that render, bottom first.
fn visible(stack: &ScreenStack<Fake>) -> Vec<u32> {
    let opaque: Vec<bool> = (0..stack.len()).map(|i| stack.screen(i).opaque).collect();
    let start = topmost_opaque_index(&opaque);
    (start..stack.len()).map(|i| stack.screen(i).id).collect()
}

#[test]
fn input_and_tick_reach_only_the_top() {
    let mut ctx: Ctx = Vec::new();
    let mut stack = ScreenStack::new(Fake::new(1, true));
    handle(&mut stack, UiInput::Confirm, &mut ctx); // 1 handles, pushes 10
    assert_eq!(stack.len(), 2);
    ctx.clear();
    tick(&mut stack, &mut ctx);
    assert_eq!(ctx, vec![(10, "tick")], "only the top ticks");
}

#[test]
fn handle_and_tick_thread_the_shared_context() {
    let mut ctx: Ctx = Vec::new();
    let mut stack = ScreenStack::new(Fake::new(1, true));
    handle(&mut stack, UiInput::Left, &mut ctx); // no transition, just records
    tick(&mut stack, &mut ctx);
    assert_eq!(ctx, vec![(1, "handle"), (1, "tick")]);
}

#[test]
fn push_pop_replace_move_the_stack() {
    let mut ctx: Ctx = Vec::new();
    let mut stack = ScreenStack::new(Fake::new(1, true));
    handle(&mut stack, UiInput::Confirm, &mut ctx); // push 10
    assert_eq!(stack.len(), 2);
    handle(&mut stack, UiInput::Cancel, &mut ctx); // top pops
    assert_eq!(stack.len(), 1);
    stack.push(Fake::new(2, true)); // app-driven push
    stack.pop();
    assert_eq!(stack.len(), 1);
}

#[test]
fn rendering_starts_at_the_topmost_opaque_screen() {
    let mut stack = ScreenStack::new(Fake::new(1, true));
    stack.push(Fake::new(2, false)); // transparent overlay
    stack.push(Fake::new(3, true)); // opaque, covers 1 and 2
    assert_eq!(visible(&stack).len(), 1, "only the topmost opaque screen renders");
    stack.pop(); // -> [opaque 1, transparent 2]
    assert_eq!(visible(&stack).len(), 2, "opaque base shows through the overlay");
}

#[test]
fn replace_swaps_the_top_and_keeps_the_screens_beneath() {
    let mut stack = ScreenStack::new(Fake::new(1, true));
    stack.push(Fake::new(2, true));
    let top = stack.take_top().expect("a screen on top");
    assert_eq!(top.id, 2);
    stack.settle(top, ScreenChange::Replace(Fake::new(7, false)));
    assert_eq!(stack.len(), 2);
    assert_eq!(stack.screen(0).id, 1);
    assert_eq!(stack.screen(1).id, 7);
    assert_eq!(visible(&stack), vec![1, 7]);
}

#[test]
fn an_empty_stack_has_no_top_and_renders_from_the_bottom() {
    let mut stack = ScreenStack::new(Fake::new(1, false));
    assert_eq!(visible(&stack), vec![1], "no opaque screen: start at the bottom");
    stack.pop();
    assert!(stack.is_empty());
    assert!(stack.take_top().is_none());
    stack.pop(); // popping an empty stack is harmless
    assert_eq!(stack.len(), 0);
    assert_eq!(topmost_opaque_index(&vec![]), 0);
    assert_eq!(topmost_opaque_index(&vec![true, false, true, false]), 2);
}
