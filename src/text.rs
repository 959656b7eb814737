use vstd::prelude::*;

use crate::input::{Color, Keys, Request};
use crate::tween::{reset_opt, reset_tween, step_opt, step_tween, Tween};

verus! {

/// A line of narrative text. On advance it asks to be replaced by the node
/// whose content is `next_name`.
pub struct Text {
    pub content: String,
    pub color: Color,
    pub x: i32,
    pub y: i32,
    pub font_size: i32,
    pub alpha_tween: Option<Tween>,
    pub text_tween: Option<Tween>,
    pub namespace: String,
    pub cursor: bool,
    pub centered: bool,
    pub next_ns: String,
    pub next_name: String,
}

impl Text {
    pub open spec fn reset_spec(self) -> Text {
        Text {
            alpha_tween: reset_opt(self.alpha_tween),
            text_tween: reset_opt(self.text_tween),
            ..self
        }
    }

    pub open spec fn step_spec(self) -> Text {
        Text {
            alpha_tween: step_opt(self.alpha_tween),
            text_tween: step_opt(self.text_tween),
            ..self
        }
    }

    /// What an update with `keys` asks for: on advance, the next node.
    pub open spec fn request_spec(self, keys: Keys) -> Option<(Seq<char>, Seq<char>)> {
        if keys.space {
            Some((self.next_ns@, self.next_name@))
        } else {
            None
        }
    }

    pub fn new() -> (r: Text)
        ensures
            r.content@ == "<empty>"@,
            r.color == Color::white_spec(),
            r.x == 10 && r.y == 10 && r.font_size == 20,
            r.alpha_tween is None && r.text_tween is None,
            r.namespace@ == "default"@,
            !r.cursor && !r.centered,
            r.next_ns@ == "default"@,
            r.next_name@ == Seq::<char>::empty(),
    {
        Text {
            content: "<empty>".to_owned(),
            color: Color::white(),
            x: 10,
            y: 10,
            font_size: 20,
            alpha_tween: None,
            text_tween: None,
            namespace: "default".to_owned(),
            cursor: false,
            centered: false,
            next_ns: "default".to_owned(),
            next_name: String::new(),
        }
    }

    pub fn content(self, src: &str) -> (r: Text)
        ensures
            r.content@ == src@,
            r == (Text { content: r.content, ..self }),
    {
        Text { content: src.to_owned(), ..self }
    }

    pub fn color(self, col: Color) -> (r: Text)
        ensures
            r == (Text { color: col, ..self }),
    {
        Text { color: col, ..self }
    }

    pub fn position(self, x: i32, y: i32) -> (r: Text)
        ensures
            r == (Text { x, y, ..self }),
    {
        Text { x, y, ..self }
    }

    pub fn font_size(self, size: i32) -> (r: Text)
        ensures
            r == (Text { font_size: size, ..self }),
    {
        Text { font_size: size, ..self }
    }

    pub fn alpha_tween(self, tween: Tween) -> (r: Text)
        ensures
            r == (Text { alpha_tween: Some(tween), ..self }),
    {
        Text { alpha_tween: Some(tween), ..self }
    }

    pub fn text_tween(self, tween: Tween) -> (r: Text)
        ensures
            r == (Text { text_tween: Some(tween), ..self }),
    {
        Text { text_tween: Some(tween), ..self }
    }

    pub fn cursor(self, enabled: bool) -> (r: Text)
        ensures
            r == (Text { cursor: enabled, ..self }),
    {
        Text { cursor: enabled, ..self }
    }

    pub fn centered(self, enabled: bool) -> (r: Text)
        ensures
            r == (Text { centered: enabled, ..self }),
    {
        Text { centered: enabled, ..self }
    }

    pub fn next(self, contents: &str) -> (r: Text)
        ensures
            r.next_name@ == contents@,
            r == (Text { next_name: r.next_name, ..self }),
    {
        Text { next_name: contents.to_owned(), ..self }
    }

    /// Does this node answer to `namespace` and `content`?
    pub fn search(&self, namespace: &String, content: &String) -> (r: bool)
        ensures
            r == (self.namespace@ == namespace@ && self.content@ == content@),
    {
        self.namespace == *namespace && self.content == *content
    }

    pub fn reset(&mut self)
        ensures
            *final(self) == old(self).reset_spec(),
    {
        reset_tween(&mut self.alpha_tween);
        reset_tween(&mut self.text_tween);
    }

    pub fn update(&mut self, keys: &Keys) -> (r: Option<Request>)
        ensures
            *final(self) == *old(self),
            match (r, old(self).request_spec(*keys)) {
                (Some(q), Some((ns, c))) => q.namespace@ == ns && q.content@ == c,
                (None, None) => true,
                _ => false,
            },
    {
        if keys.space {
            Some(Request { namespace: self.next_ns.clone(), content: self.next_name.clone() })
        } else {
            None
        }
    }

    /// The animation part of drawing: every tween advances by one step.
    pub fn step(&mut self)
        ensures
            *final(self) == old(self).step_spec(),
    {
        step_tween(&mut self.text_tween);
        step_tween(&mut self.alpha_tween);
    }

    /// Where the text is drawn, given its measured width: centred on
    /// `(x, y)` when `centered` is set, else with its corner there.
    pub fn origin(&self, width: i32) -> (r: (i64, i64))
        ensures
            self.centered ==> r.0 == self.x - half(width) && r.1 == self.y - half(self.font_size),
            !self.centered ==> r.0 == self.x && r.1 == self.y,
    {
        if self.centered {
            (self.x as i64 - (width / 2) as i64, self.y as i64 - (self.font_size / 2) as i64)
        } else {
            (self.x as i64, self.y as i64)
        }
    }

    /// The blinking cursor's rectangle (x, y, width, height), given the
    /// measured width of the text.
    pub fn cursor_rect(&self, width: i32) -> (r: (i64, i64, i64, i64))
        ensures
            r.0 == self.x + half(width) + 6,
            r.1 == self.y - half(self.font_size),
            r.2 == half(self.font_size),
            r.3 == self.font_size,
    {
        (
            self.x as i64 + (width / 2) as i64 + 6,
            self.y as i64 - (self.font_size / 2) as i64,
            (self.font_size / 2) as i64,
            self.font_size as i64,
        )
    }
}

/// Half of `v`, rounded toward zero as integer division does.
pub open spec fn half(v: i32) -> int {
    if v >= 0 {
        v / 2
    } else {
        -((-v) / 2)
    }
}

/// The style of the narrative lines: centred on an 800 by 600 window, white,
/// with a cursor, fading in over half a second and typing out over one and a
/// half.
pub fn intro_style(content: &str) -> (r: Text)
    ensures
        r.content@ == content@,
        r.font_size == 20,
        r.centered && r.cursor,
        r.x == 400 && r.y == 300,
        r.color == Color::white_spec(),
        r.text_tween == Some(Tween { duration: 150, elapsed: 0 }),
        r.alpha_tween == Some(Tween { duration: 50, elapsed: 0 }),
        r.namespace@ == "default"@,
        r.next_ns@ == "default"@,
        r.next_name@ == Seq::<char>::empty(),
{
    Text::new()
        .content(content)
        .font_size(20)
        .centered(true)
        .position(400, 300)
        .color(Color::white())
        .text_tween(Tween::new(150))
        .alpha_tween(Tween::new(50))
        .cursor(true)
}

} // verus!
