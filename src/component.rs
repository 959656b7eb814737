use vstd::prelude::*;

use crate::input::{Keys, Request};
use crate::text::Text;
use crate::two_choice::TwoChoice;

verus! {

/// A node that can stand on the stage.
pub enum Component {
    Text(Text),
    TwoChoice(TwoChoice),
}

impl Component {
    pub open spec fn namespace_spec(self) -> Seq<char> {
        match self {
            Component::Text(t) => t.namespace@,
            Component::TwoChoice(c) => c.namespace@,
        }
    }

    pub open spec fn content_spec(self) -> Seq<char> {
        match self {
            Component::Text(t) => t.content@,
            Component::TwoChoice(c) => c.content@,
        }
    }

    /// The node answers to this namespace and content.
    pub open spec fn is_match(self, namespace: Seq<char>, content: Seq<char>) -> bool {
        self.namespace_spec() == namespace && self.content_spec() == content
    }

    pub open spec fn reset_spec(self) -> Component {
        match self {
            Component::Text(t) => Component::Text(t.reset_spec()),
            Component::TwoChoice(c) => Component::TwoChoice(c.reset_spec()),
        }
    }

    pub open spec fn step_spec(self) -> Component {
        match self {
            Component::Text(t) => Component::Text(t.step_spec()),
            Component::TwoChoice(c) => Component::TwoChoice(c.step_spec()),
        }
    }

    pub open spec fn request_spec(self, keys: Keys) -> Option<(Seq<char>, Seq<char>)> {
        match self {
            Component::Text(t) => t.request_spec(keys),
            Component::TwoChoice(c) => c.request_spec(keys),
        }
    }

    pub open spec fn updated_spec(self, keys: Keys) -> Component {
        match self {
            Component::Text(t) => self,
            Component::TwoChoice(c) => Component::TwoChoice(c.updated_spec(keys)),
        }
    }

    /// Pure predicate: does this node answer to `namespace` and `content`?
    pub fn search(&self, namespace: &String, content: &String) -> (r: bool)
        ensures
            r == self.is_match(namespace@, content@),
    {
        match self {
            Component::Text(t) => t.search(namespace, content),
            Component::TwoChoice(c) => c.search(namespace, content),
        }
    }

    /// Restart the node's transitions.
    pub fn reset(&mut self)
        ensures
            *final(self) == old(self).reset_spec(),
    {
        match self {
            Component::Text(t) => t.reset(),
            Component::TwoChoice(c) => c.reset(),
        }
    }

    /// One frame of logic with the keys pressed in it; the result is the
    /// node's request to be replaced, if it makes one.
    pub fn update(&mut self, keys: &Keys) -> (r: Option<Request>)
        ensures
            *final(self) == old(self).updated_spec(*keys),
            match (r, old(self).request_spec(*keys)) {
                (Some(q), Some((ns, c))) => q.namespace@ == ns && q.content@ == c,
                (None, None) => true,
                _ => false,
            },
    {
        match self {
            Component::Text(t) => t.update(keys),
            Component::TwoChoice(c) => c.update(keys),
        }
    }

    /// The animation part of drawing.
    pub fn step(&mut self)
        ensures
            *final(self) == old(self).step_spec(),
    {
        match self {
            Component::Text(t) => t.step(),
            Component::TwoChoice(c) => c.step(),
        }
    }
}

/// Resetting twice is resetting once.
pub proof fn lemma_reset_idempotent(c: Component)
    ensures
        c.reset_spec().reset_spec() == c.reset_spec(),
{
    match c {
        Component::Text(t) => {
            assert(crate::tween::reset_opt(crate::tween::reset_opt(t.alpha_tween)) == crate::tween::reset_opt(t.alpha_tween));
            assert(crate::tween::reset_opt(crate::tween::reset_opt(t.text_tween)) == crate::tween::reset_opt(t.text_tween));
        },
        Component::TwoChoice(t) => {
            assert(crate::tween::reset_opt(crate::tween::reset_opt(t.alpha_tween)) == crate::tween::reset_opt(t.alpha_tween));
            assert(crate::tween::reset_opt(crate::tween::reset_opt(t.text_tween)) == crate::tween::reset_opt(t.text_tween));
        },
    }
}

} // verus!
