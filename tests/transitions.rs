use omegaquad::modes::{DispatchMode, ModeLogo};
use omegaquad::color::hexcolor;
use omegaquad::transition::{GamemodeStack, Transition};

fn stack_of(n: u32) -> Vec<u32> {
    (0..n).collect()
}

#[test]
fn stay_changes_nothing() {
    let mut s = stack_of(2);
    let resumed = Transition::Stay.apply(&mut s);
    assert_eq!(s, vec![0, 1]);
    assert!(!resumed);
}

#[test]
fn push_grows_without_resume() {
    let mut s = stack_of(1);
    let resumed = Transition::Push(7).apply(&mut s);
    assert_eq!(s, vec![0, 7]);
    assert!(!resumed);
}

#[test]
fn swap_replaces_top() {
    let mut s = stack_of(2);
    let resumed = Transition::Swap(9).apply(&mut s);
    assert_eq!(s, vec![0, 9]);
    assert!(!resumed);
}

#[test]
fn pop_on_two_resumes() {
    let mut s = stack_of(2);
    let resumed = Transition::Pop.apply(&mut s);
    assert_eq!(s, vec![0]);
    assert!(resumed);
}

#[test]
fn pop_on_one_is_noop() {
    let mut s = stack_of(1);
    let resumed = Transition::Pop.apply(&mut s);
    assert_eq!(s, vec![0]);
    assert!(!resumed);
}

#[test]
fn pop_n_and_push_empty_on_three() {
    let mut s = stack_of(3);
    let resumed = Transition::PopNAndPush(2, vec![]).apply(&mut s);
    assert_eq!(s.len(), 1);
    assert_eq!(s, vec![0]);
    assert!(resumed);
}

#[test]
fn pop_n_and_push_two_on_three() {
    let mut s = stack_of(3);
    let resumed = Transition::PopNAndPush(2, vec![10, 11]).apply(&mut s);
    assert_eq!(s.len(), 3);
    assert_eq!(s, vec![0, 10, 11]);
    assert_eq!(*s.last().unwrap(), 11);
    assert!(!resumed);
}

#[test]
fn pop_n_clamps_to_one_when_nothing_pushed() {
    let mut s = stack_of(3);
    let resumed = Transition::PopNAndPush(50, vec![]).apply(&mut s);
    assert_eq!(s, vec![0]);
    assert!(resumed);
}

#[test]
fn pop_n_may_clear_below_new_modes() {
    let mut s = stack_of(3);
    let resumed = Transition::PopNAndPush(50, vec![4]).apply(&mut s);
    assert_eq!(s, vec![4]);
    assert!(!resumed);
}

#[test]
fn stack_never_empties_under_any_sequence() {
    let mut stack = GamemodeStack::new(0u32);
    let mut resumes = 0;
    let mut expected_resumes = 0;
    for i in 0..200u32 {
        let depth = stack.depth();
        let t = match i % 7 {
            0 => Transition::Pop,
            1 => Transition::PopNAndPush((i as usize) % 5, vec![]),
            2 => Transition::Push(i),
            3 => Transition::PopNAndPush(9, vec![i, i + 1]),
            4 => Transition::Swap(i),
            5 => Transition::Pop,
            _ => Transition::Stay,
        };
        let expect = match &t {
            Transition::Pop => depth >= 2,
            Transition::PopNAndPush(_, news) => news.is_empty(),
            _ => false,
        };
        if expect {
            expected_resumes += 1;
        }
        if stack.apply(t) {
            resumes += 1;
        }
        assert!(stack.depth() >= 1);
    }
    assert_eq!(resumes, expected_resumes);
}

#[test]
fn logo_swaps_to_demo_at_depth_one() {
    let logo = ModeLogo::new(7, -1800, hexcolor(0xffee83ff), hexcolor(0xfffab3ff));
    let mut stack = GamemodeStack::new(DispatchMode::ModeLogo(logo));
    assert_eq!(stack.depth(), 1);
    let next = DispatchMode::ModeLogo(ModeLogo::new(5, 1000, hexcolor(0), hexcolor(0)));
    let resumed = stack.advance(Transition::Swap(next));
    assert!(!resumed);
    assert_eq!(stack.depth(), 1);
    match stack.top() {
        DispatchMode::ModeLogo(m) => assert_eq!(m.blades, 5),
        _ => panic!("the swapped-in mode is not on top"),
    }
}

#[test]
fn advance_resumes_after_pop() {
    let logo = ModeLogo::new(7, 0, hexcolor(0), hexcolor(0));
    let mut stack = GamemodeStack::new(DispatchMode::ModeLogo(logo));
    stack.advance(Transition::Push(DispatchMode::ModeLogo(logo)));
    assert_eq!(stack.depth(), 2);
    assert!(stack.advance(Transition::Pop));
    assert_eq!(stack.depth(), 1);
    assert!(!stack.advance(Transition::Pop));
    assert_eq!(stack.depth(), 1);
}
