use vstd::prelude::*;

use crate::input::{Color, Keys, Request};
use crate::text::half;
use crate::tween::{reset_opt, reset_tween, step_opt, step_tween, Tween};

verus! {

/// A prompt with two options. Left or right flips the selection; advance
/// asks to be replaced by the node that the selected option leads to.
pub struct TwoChoice {
    pub content: String,
    pub option1: String,
    pub option2: String,
    pub selected: bool,
    pub color: Color,
    pub font_size: i32,
    pub alpha_tween: Option<Tween>,
    pub text_tween: Option<Tween>,
    pub select_tween: Tween,
    pub namespace: String,
    pub cursor: bool,
    pub next_ns1: String,
    pub next_name1: String,
    pub next_ns2: String,
    pub next_name2: String,
}

impl TwoChoice {
    pub open spec fn reset_spec(self) -> TwoChoice {
        TwoChoice {
            alpha_tween: reset_opt(self.alpha_tween),
            text_tween: reset_opt(self.text_tween),
            select_tween: self.select_tween.reset_spec(),
            ..self
        }
    }

    pub open spec fn step_spec(self) -> TwoChoice {
        TwoChoice {
            alpha_tween: step_opt(self.alpha_tween),
            text_tween: step_opt(self.text_tween),
            ..self
        }
    }

    /// What an update with `keys` asks for: on advance, the node of the
    /// option selected before the keys of this frame flip it.
    pub open spec fn request_spec(self, keys: Keys) -> Option<(Seq<char>, Seq<char>)> {
        if !keys.space {
            None
        } else if self.selected {
            Some((self.next_ns1@, self.next_name1@))
        } else {
            Some((self.next_ns2@, self.next_name2@))
        }
    }

    /// The state after an update with `keys`.
    pub open spec fn updated_spec(self, keys: Keys) -> TwoChoice {
        if keys.left || keys.right {
            TwoChoice { selected: !self.selected, ..self }
        } else {
            self
        }
    }

    pub fn new() -> (r: TwoChoice)
        ensures
            r.content@ == "<empty>"@,
            r.option1@ == "yes"@,
            r.option2@ == "no"@,
            r.selected,
            r.color == Color::white_spec(),
            r.font_size == 20,
            r.alpha_tween is None && r.text_tween is None,
            r.select_tween == (Tween { duration: 150, elapsed: 0 }),
            r.namespace@ == "default"@,
            !r.cursor,
            r.next_ns1@ == "default"@,
            r.next_name1@ == Seq::<char>::empty(),
            r.next_ns2@ == "default"@,
            r.next_name2@ == Seq::<char>::empty(),
    {
        TwoChoice {
            content: "<empty>".to_owned(),
            option1: "yes".to_owned(),
            option2: "no".to_owned(),
            selected: true,
            color: Color::white(),
            font_size: 20,
            alpha_tween: None,
            text_tween: None,
            select_tween: Tween::new(150),
            namespace: "default".to_owned(),
            cursor: false,
            next_ns1: "default".to_owned(),
            next_name1: String::new(),
            next_ns2: "default".to_owned(),
            next_name2: String::new(),
        }
    }

    pub fn options(self, first: &str, second: &str) -> (r: TwoChoice)
        ensures
            r.option1@ == first@,
            r.option2@ == second@,
            r == (TwoChoice { option1: r.option1, option2: r.option2, ..self }),
    {
        TwoChoice { option1: first.to_owned(), option2: second.to_owned(), ..self }
    }

    pub fn selected(self, selected: bool) -> (r: TwoChoice)
        ensures
            r == (TwoChoice { selected, ..self }),
    {
        TwoChoice { selected, ..self }
    }

    pub fn next_one(self, contents: &str) -> (r: TwoChoice)
        ensures
            r.next_name1@ == contents@,
            r == (TwoChoice { next_name1: r.next_name1, ..self }),
    {
        TwoChoice { next_name1: contents.to_owned(), ..self }
    }

    pub fn next_two(self, contents: &str) -> (r: TwoChoice)
        ensures
            r.next_name2@ == contents@,
            r == (TwoChoice { next_name2: r.next_name2, ..self }),
    {
        TwoChoice { next_name2: contents.to_owned(), ..self }
    }

    pub fn content(self, src: &str) -> (r: TwoChoice)
        ensures
            r.content@ == src@,
            r == (TwoChoice { content: r.content, ..self }),
    {
        TwoChoice { content: src.to_owned(), ..self }
    }

    pub fn color(self, col: Color) -> (r: TwoChoice)
        ensures
            r == (TwoChoice { color: col, ..self }),
    {
        TwoChoice { color: col, ..self }
    }

    pub fn font_size(self, size: i32) -> (r: TwoChoice)
        ensures
            r == (TwoChoice { font_size: size, ..self }),
    {
        TwoChoice { font_size: size, ..self }
    }

    pub fn alpha_tween(self, tween: Tween) -> (r: TwoChoice)
        ensures
            r == (TwoChoice { alpha_tween: Some(tween), ..self }),
    {
        TwoChoice { alpha_tween: Some(tween), ..self }
    }

    pub fn text_tween(self, tween: Tween) -> (r: TwoChoice)
        ensures
            r == (TwoChoice { text_tween: Some(tween), ..self }),
    {
        TwoChoice { text_tween: Some(tween), ..self }
    }

    pub fn cursor(self, enabled: bool) -> (r: TwoChoice)
        ensures
            r == (TwoChoice { cursor: enabled, ..self }),
    {
        TwoChoice { cursor: enabled, ..self }
    }

    /// Does this prompt answer to `namespace` and `content`?
    pub fn search(&self, namespace: &String, content: &String) -> (r: bool)
        ensures
            r == (self.namespace@ == namespace@ && self.content@ == content@),
    {
        self.namespace == *namespace && self.content == *content
    }

    pub fn reset(&mut self)
        ensures
            *final(self) == old(self).reset_spec(),
    {
        reset_tween(&mut self.alpha_tween);
        reset_tween(&mut self.text_tween);
        self.select_tween.reset();
    }

    pub fn update(&mut self, keys: &Keys) -> (r: Option<Request>)
        ensures
            *final(self) == old(self).updated_spec(*keys),
            match (r, old(self).request_spec(*keys)) {
                (Some(q), Some((ns, c))) => q.namespace@ == ns && q.content@ == c,
                (None, None) => true,
                _ => false,
            },
    {
        let mut r: Option<Request> = None;
        if keys.space {
            if self.selected {
                r = Some(Request { namespace: self.next_ns1.clone(), content: self.next_name1.clone() });
            } else {
                r = Some(Request { namespace: self.next_ns2.clone(), content: self.next_name2.clone() });
            }
        }
        if keys.left || keys.right {
            self.selected = !self.selected;
        }
        r
    }

    /// The animation part of drawing: the fade and the typing advance by one
    /// step.
    pub fn step(&mut self)
        ensures
            *final(self) == old(self).step_spec(),
    {
        step_tween(&mut self.text_tween);
        step_tween(&mut self.alpha_tween);
    }

    /// Where the question is drawn, given its measured width: centred at
    /// (400, 200).
    pub fn origin(&self, width: i32) -> (r: (i64, i64))
        ensures
            r.0 == 400 - half(width),
            r.1 == 200 - half(self.font_size),
    {
        (400 - (width / 2) as i64, 200 - (self.font_size / 2) as i64)
    }

    /// The bar under the selected option (x, y, width, height), given the
    /// measured widths of the two options.
    pub fn underline_rect(&self, width1: i32, width2: i32) -> (r: (i64, i64, i64, i64))
        ensures
            r.0 == (if self.selected { 200int } else { 600int }),
            r.1 == 450 + self.font_size + 3,
            r.2 == (if self.selected { width1 } else { width2 }),
            r.3 == 4,
    {
        let y = 450 + self.font_size as i64 + 3;
        if self.selected {
            (200, y, width1 as i64, 4)
        } else {
            (600, y, width2 as i64, 4)
        }
    }

    /// The blinking cursor's rectangle, given the measured width of the
    /// question.
    pub fn cursor_rect(&self, width: i32) -> (r: (i64, i64, i64, i64))
        ensures
            r.0 == 400 + half(width) + 6,
            r.1 == 200 - half(self.font_size),
            r.2 == half(self.font_size),
            r.3 == self.font_size,
    {
        (
            400 + (width / 2) as i64 + 6,
            200 - (self.font_size / 2) as i64,
            (self.font_size / 2) as i64,
            self.font_size as i64,
        )
    }
}

} // verus!
