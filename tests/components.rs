use stage_engine::component::Component;
use stage_engine::cursor_visible;
use stage_engine::input::{Color, Keys};
use stage_engine::text::{intro_style, Text};
use stage_engine::two_choice::TwoChoice;
use stage_engine::tween::Tween;

#[test]
fn tween_steps_and_stops_at_end() {
    let mut t = Tween::new(2);
    assert!(!t.completed());
    t.step();
    assert_eq!(t.elapsed, 1);
    t.step();
    t.step();
    assert_eq!(t.elapsed, 2);
    assert!(t.completed());
    t.reset();
    assert_eq!(t, Tween { duration: 2, elapsed: 0 });
}

#[test]
fn tween_past_its_end_is_clamped() {
    let mut t = Tween { duration: 3, elapsed: 9 };
    t.step();
    assert_eq!(t.elapsed, 3);
}

#[test]
fn cursor_blinks_every_seventy_frames() {
    assert!(cursor_visible(0));
    assert!(cursor_visible(34));
    assert!(!cursor_visible(35));
    assert!(!cursor_visible(69));
    assert!(cursor_visible(70));
    assert!(cursor_visible(u64::MAX - 15));
}

#[test]
fn text_defaults() {
    let t = Text::new();
    assert_eq!(t.content, "<empty>");
    assert_eq!(t.namespace, "default");
    assert_eq!((t.x, t.y, t.font_size), (10, 10, 20));
    assert_eq!(t.color, Color { r: 255, g: 255, b: 255, a: 255 });
    assert!(!t.cursor && !t.centered);
    assert_eq!(t.next_name, "");
}

#[test]
fn intro_style_settings() {
    let t = intro_style("hello");
    assert_eq!(t.content, "hello");
    assert_eq!((t.x, t.y, t.font_size), (400, 300, 20));
    assert!(t.centered && t.cursor);
    assert_eq!(t.text_tween, Some(Tween { duration: 150, elapsed: 0 }));
    assert_eq!(t.alpha_tween, Some(Tween { duration: 50, elapsed: 0 }));
}

#[test]
fn text_builders() {
    let t = Text::new()
        .content("c")
        .color(Color { r: 1, g: 2, b: 3, a: 4 })
        .position(-5, 7)
        .font_size(30)
        .cursor(true)
        .centered(true)
        .next("n");
    assert_eq!(t.content, "c");
    assert_eq!(t.color, Color { r: 1, g: 2, b: 3, a: 4 });
    assert_eq!((t.x, t.y, t.font_size), (-5, 7, 30));
    assert!(t.cursor && t.centered);
    assert_eq!(t.next_name, "n");
}

#[test]
fn text_update_requests_next_on_space() {
    let mut t = intro_style("a").next("b");
    assert!(t.update(&Keys { space: false, left: true, right: true }).is_none());
    let r = t.update(&Keys { space: true, left: false, right: false }).unwrap();
    assert_eq!(r.namespace, "default");
    assert_eq!(r.content, "b");
}

#[test]
fn text_search_matches_namespace_and_content() {
    let t = intro_style("a");
    assert!(t.search(&"default".to_string(), &"a".to_string()));
    assert!(!t.search(&"default".to_string(), &"b".to_string()));
    assert!(!t.search(&"other".to_string(), &"a".to_string()));
}

#[test]
fn text_layout() {
    let t = intro_style("a");
    assert_eq!(t.origin(101), (350, 290));
    assert_eq!(t.cursor_rect(101), (456, 290, 10, 20));
    let corner = Text::new().position(3, 4);
    assert_eq!(corner.origin(101), (3, 4));
    assert_eq!(intro_style("a").origin(-3), (401, 290));
}

#[test]
fn two_choice_defaults_and_builders() {
    let c = TwoChoice::new();
    assert_eq!(c.option1, "yes");
    assert_eq!(c.option2, "no");
    assert!(c.selected);
    assert_eq!(c.select_tween, Tween { duration: 150, elapsed: 0 });
    let c = c.options("left", "right").selected(false).next_one("p").next_two("q").content("?").font_size(10).cursor(true);
    assert_eq!((c.option1.as_str(), c.option2.as_str()), ("left", "right"));
    assert!(!c.selected);
    assert_eq!((c.next_name1.as_str(), c.next_name2.as_str()), ("p", "q"));
    assert_eq!(c.content, "?");
    assert_eq!(c.font_size, 10);
    assert!(c.cursor);
}

#[test]
fn two_choice_update_follows_selection_then_toggles() {
    let mut c = TwoChoice::new().next_one("one").next_two("two");
    let r = c.update(&Keys { space: true, left: true, right: false }).unwrap();
    assert_eq!(r.content, "one");
    assert!(!c.selected);
    let r = c.update(&Keys { space: true, left: false, right: false }).unwrap();
    assert_eq!(r.content, "two");
    assert!(!c.selected);
    assert!(c.update(&Keys { space: false, left: false, right: true }).is_none());
    assert!(c.selected);
}

#[test]
fn two_choice_reset_restarts_all_tweens() {
    let mut c = TwoChoice::new().alpha_tween(Tween { duration: 5, elapsed: 5 });
    c.select_tween = Tween { duration: 150, elapsed: 9 };
    c.text_tween = Some(Tween { duration: 7, elapsed: 3 });
    c.reset();
    assert_eq!(c.alpha_tween, Some(Tween { duration: 5, elapsed: 0 }));
    assert_eq!(c.text_tween, Some(Tween { duration: 7, elapsed: 0 }));
    assert_eq!(c.select_tween, Tween { duration: 150, elapsed: 0 });
}

#[test]
fn two_choice_layout() {
    let c = TwoChoice::new();
    assert_eq!(c.origin(60), (370, 190));
    assert_eq!(c.underline_rect(30, 20), (200, 473, 30, 4));
    assert_eq!(TwoChoice::new().selected(false).underline_rect(30, 20), (600, 473, 20, 4));
    assert_eq!(c.cursor_rect(60), (436, 190, 10, 20));
}

#[test]
fn component_dispatches_to_its_node() {
    let mut n = Component::TwoChoice(TwoChoice::new().content("q").next_one("a"));
    assert!(n.search(&"default".to_string(), &"q".to_string()));
    let r = n.update(&Keys { space: true, left: false, right: false }).unwrap();
    assert_eq!(r.content, "a");
    n.step();
    n.reset();
}
