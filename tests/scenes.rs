use stage_engine::component::Component;
use stage_engine::game::Game;
use stage_engine::input::Keys;
use stage_engine::text::intro_style;
use stage_engine::two_choice::TwoChoice;
use stage_engine::tween::Tween;

const A: &str = "you awake in a strange world...";
const B: &str = "or at least that's how you feel...";
const C: &str = "exit bed?";
const D: &str = "you exited the bed, nothing of interest happened...";
const E: &str = "you rolled over and went back to sleep, nothing of interest happened...";

fn none() -> Keys {
    Keys { space: false, left: false, right: false }
}

fn space() -> Keys {
    Keys { space: true, left: false, right: false }
}

fn left() -> Keys {
    Keys { space: false, left: true, right: false }
}

fn bootstrap() -> Game {
    let mut g = Game::new();
    g.component(Component::Text(intro_style(A).next(B)));
    g.component(Component::Text(intro_style(B).next(C)));
    g.component(Component::TwoChoice(
        TwoChoice::new()
            .content(C)
            .text_tween(Tween::new(150))
            .alpha_tween(Tween::new(50))
            .next_one(D)
            .next_two(E),
    ));
    g.component(Component::Text(intro_style(D)));
    g.component(Component::Text(intro_style(E)));
    g
}

fn plain(content: &str) -> Component {
    Component::Text(intro_style(content))
}

#[test]
fn scenario_default_choice_reaches_exit() {
    let mut g = bootstrap();
    g.update(&none());
    assert_eq!(g.stage_ids(), vec![0]);
    g.update(&space());
    g.update(&none());
    assert_eq!(g.stage_ids(), vec![1]);
    g.update(&space());
    g.update(&none());
    assert_eq!(g.stage_ids(), vec![2]);
    g.update(&space());
    g.update(&none());
    assert_eq!(g.stage_ids(), vec![3]);
    assert!(!g.is_active(2));
}

#[test]
fn scenario_toggled_choice_reaches_sleep() {
    let mut g = bootstrap();
    g.update(&none());
    g.update(&space());
    g.update(&none());
    g.update(&space());
    g.update(&none());
    assert_eq!(g.stage_ids(), vec![2]);
    g.update(&left());
    match g.get(2) {
        Some(Component::TwoChoice(c)) => assert!(!c.selected),
        _ => panic!("node 2 is the prompt"),
    }
    g.update(&space());
    g.update(&none());
    assert_eq!(g.stage_ids(), vec![4]);
    assert!(!g.is_active(2));
}

#[test]
fn first_insert_is_staged_after_drain() {
    let mut g = Game::new();
    assert_eq!(g.component(plain("one")), 0);
    assert!(!g.is_active(0));
    assert_eq!(g.pending(), 1);
    g.apply_commands();
    assert!(g.is_active(0));
    assert_eq!(g.pending(), 0);
}

#[test]
fn later_inserts_are_not_staged() {
    let mut g = Game::new();
    g.component(plain("one"));
    assert_eq!(g.component(plain("two")), 1);
    assert_eq!(g.pending(), 1);
    g.apply_commands();
    assert_eq!(g.stage_ids(), vec![0]);
}

#[test]
fn insertion_keeps_earlier_nodes() {
    let mut g = Game::new();
    for i in 0..50 {
        let name = format!("node {}", i);
        assert_eq!(g.component(plain(&name)), i);
        for k in 0..=i {
            match g.get(k) {
                Some(Component::Text(t)) => assert_eq!(t.content, format!("node {}", k)),
                _ => panic!("every inserted node stays"),
            }
        }
    }
    assert_eq!(g.len(), 50);
    assert!(g.get(50).is_none());
}

#[test]
fn add_twice_stages_once() {
    let mut g = Game::new();
    g.component(plain("one"));
    g.component(plain("two"));
    g.apply_commands();
    g.add("default", &["two"]);
    g.add("default", &["two"]);
    g.apply_commands();
    assert_eq!(g.stage_ids(), vec![0, 1]);
}

#[test]
fn swap_resets_incoming_and_retires_current() {
    let mut g = Game::new();
    g.component(Component::Text(intro_style("x").next("y")));
    let mut y = intro_style("y");
    y.text_tween = Some(Tween { duration: 150, elapsed: 40 });
    y.alpha_tween = Some(Tween { duration: 50, elapsed: 50 });
    g.component(Component::Text(y));
    g.apply_commands();
    g.update(&space());
    assert_eq!(g.pending(), 1);
    g.update(&none());
    assert_eq!(g.stage_ids(), vec![1]);
    match g.get(1) {
        Some(Component::Text(t)) => {
            assert_eq!(t.text_tween, Some(Tween { duration: 150, elapsed: 0 }));
            assert_eq!(t.alpha_tween, Some(Tween { duration: 50, elapsed: 0 }));
        }
        _ => panic!("node 1 is text"),
    }
    assert_eq!(g.draw(), vec![1]);
    match g.get(1) {
        Some(Component::Text(t)) => assert_eq!(t.text_tween, Some(Tween { duration: 150, elapsed: 1 })),
        _ => panic!("node 1 is text"),
    }
}

#[test]
fn remove_of_unstaged_node_changes_nothing() {
    let mut g = Game::new();
    g.component(plain("one"));
    g.component(plain("two"));
    g.apply_commands();
    g.remove("default", &["two"]);
    g.apply_commands();
    assert_eq!(g.stage_ids(), vec![0]);
}

#[test]
fn remove_takes_a_node_off_the_stage() {
    let mut g = Game::new();
    g.component(plain("one"));
    g.component(plain("two"));
    g.add("default", &["two"]);
    g.remove("default", &["one"]);
    g.apply_commands();
    assert_eq!(g.stage_ids(), vec![1]);
}

#[test]
fn misses_change_nothing() {
    let mut g = Game::new();
    g.component(plain("one"));
    g.apply_commands();
    g.add("default", &["nowhere", "nothing"]);
    g.remove("other", &["one"]);
    assert_eq!(g.pending(), 2);
    g.apply_commands();
    assert_eq!(g.stage_ids(), vec![0]);
    assert_eq!(g.len(), 1);
}

#[test]
fn swap_outside_update_is_refused() {
    let mut g = Game::new();
    g.component(plain("one"));
    assert_eq!(g.current_id(), None);
    assert_eq!(g.swap_for("default", &["one"]), None);
    assert_eq!(g.pending(), 1);
}

#[test]
fn search_finds_lowest_identifier() {
    let mut g = Game::new();
    g.component(plain("a"));
    g.component(plain("b"));
    g.component(plain("b"));
    assert_eq!(g.search("default", "b"), Some(1));
    assert_eq!(g.search("default", "a"), Some(0));
    assert_eq!(g.search("default", "c"), None);
    assert_eq!(g.search("elsewhere", "a"), None);
}

#[test]
fn add_drops_unresolved_names() {
    let mut g = Game::new();
    g.component(plain("a"));
    g.component(plain("b"));
    g.component(plain("c"));
    g.apply_commands();
    g.add("default", &["c", "missing", "b"]);
    g.apply_commands();
    assert_eq!(g.stage_ids(), vec![0, 1, 2]);
}

#[test]
fn draw_advances_staged_nodes_only() {
    let mut g = bootstrap();
    g.apply_commands();
    assert_eq!(g.draw(), vec![0]);
    assert_eq!(g.draw(), vec![0]);
    match g.get(0) {
        Some(Component::Text(t)) => {
            assert_eq!(t.text_tween, Some(Tween { duration: 150, elapsed: 2 }));
            assert_eq!(t.alpha_tween, Some(Tween { duration: 50, elapsed: 2 }));
        }
        _ => panic!("node 0 is text"),
    }
    match g.get(1) {
        Some(Component::Text(t)) => assert_eq!(t.text_tween, Some(Tween { duration: 150, elapsed: 0 })),
        _ => panic!("node 1 is text"),
    }
}

#[test]
fn empty_game_has_nothing_to_do() {
    let mut g = Game::new();
    g.update(&space());
    assert_eq!(g.draw(), Vec::<usize>::new());
    assert_eq!(g.stage_ids(), Vec::<usize>::new());
    assert!(!g.is_active(0));
    assert_eq!(g.pending(), 0);
}

#[test]
fn ticks_count_frames() {
    let mut g = Game::new();
    assert_eq!(g.tick(), 0);
    g.add_tick();
    g.add_tick();
    assert_eq!(g.tick(), 2);
}
