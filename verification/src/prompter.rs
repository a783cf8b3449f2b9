//! The user-facing interaction surface that credential resolution prompts.
//!
//! The surface is a port: the transport engine may call back into the
//! resolver at unpredictable points, and every prompt goes through one shared
//! surface. The trait's contracts tie each call's result and the surface's
//! evolution to an abstract state, so callers can reason exactly about which
//! prompts, with which labels, were issued.

use crate::ssh_keys::str_views;
use vstd::prelude::*;

verus! {

/// The view of an optional prompt answer.
pub open spec fn opt_text(o: Option<String>) -> Option<Seq<char>> {
    match o {
        Some(s) => Some(s@),
        None => None,
    }
}

/// An interaction surface that can ask the user for a plaintext line or a
/// masked line. A `None` answer means the surface could not serve the prompt
/// (closed, non-interactive, or dismissed); that is a routine outcome, not a
/// fault.
pub trait Prompter: Sized {
    /// The abstract state of the surface, as far as prompting observes it.
    type StateView;

    /// The surface's current abstract state. An implementation outside the
    /// library that keeps the defaults claims nothing usable of itself.
    open spec fn state(&self) -> Self::StateView {
        arbitrary()
    }

    /// The answer a plaintext prompt with this label receives in this state.
    open spec fn plain_response(v: Self::StateView, label: Seq<char>) -> Option<Seq<char>> {
        None
    }

    /// The answer a masked prompt with this label receives in this state.
    open spec fn masked_response(v: Self::StateView, label: Seq<char>) -> Option<Seq<char>> {
        None
    }

    /// The state after a plaintext prompt with this label.
    open spec fn after_plain(v: Self::StateView, label: Seq<char>) -> Self::StateView {
        v
    }

    /// The state after a masked prompt with this label.
    open spec fn after_masked(v: Self::StateView, label: Seq<char>) -> Self::StateView {
        v
    }

    /// Asks for a plaintext line of input under the given label.
    fn prompt(&mut self, label: &str) -> (r: Option<String>)
        ensures
            opt_text(r) == Self::plain_response(old(self).state(), label@),
            final(self).state() == Self::after_plain(old(self).state(), label@),
    ;

    /// Asks for a masked line of input under the given label.
    fn prompt_password(&mut self, label: &str) -> (r: Option<String>)
        ensures
            opt_text(r) == Self::masked_response(old(self).state(), label@),
            final(self).state() == Self::after_masked(old(self).state(), label@),
    ;
}

/// The view of a scripted surface: the answers still pending (served from
/// the end) and the labels of the prompts served so far.
#[verifier::ext_equal]
pub struct ScriptView {
    pub plain: Seq<Option<Seq<char>>>,
    pub masked: Seq<Option<Seq<char>>>,
    pub plain_labels: Seq<Seq<char>>,
    pub masked_labels: Seq<Seq<char>>,
}

/// A surface that answers prompts from two prepared scripts and records the
/// label of every prompt it serves. An exhausted script answers `None`.
pub struct ScriptedPrompter {
    /// Pending plaintext answers, served from the end.
    pub plain_responses: Vec<Option<String>>,
    /// Pending masked answers, served from the end.
    pub masked_responses: Vec<Option<String>>,
    /// Labels of the plaintext prompts served, in order.
    pub plain_labels: Vec<String>,
    /// Labels of the masked prompts served, in order.
    pub masked_labels: Vec<String>,
}

impl ScriptedPrompter {
    /// A surface with both scripts empty and nothing served yet.
    pub fn new() -> (r: ScriptedPrompter)
        ensures
            r@.plain == Seq::<Option<Seq<char>>>::empty(),
            r@.masked == Seq::<Option<Seq<char>>>::empty(),
            r@.plain_labels == Seq::<Seq<char>>::empty(),
            r@.masked_labels == Seq::<Seq<char>>::empty(),
    {
        let r = ScriptedPrompter {
            plain_responses: Vec::new(),
            masked_responses: Vec::new(),
            plain_labels: Vec::new(),
            masked_labels: Vec::new(),
        };
        proof {
            assert(r@.plain =~= Seq::<Option<Seq<char>>>::empty());
            assert(r@.masked =~= Seq::<Option<Seq<char>>>::empty());
            assert(r@.plain_labels =~= Seq::<Seq<char>>::empty());
            assert(r@.masked_labels =~= Seq::<Seq<char>>::empty());
        }
        r
    }

    /// Appends a pending plaintext answer; the last one pushed is served
    /// first.
    pub fn push_plain(&mut self, answer: Option<String>)
        ensures
            final(self)@ == (ScriptView {
                plain: old(self)@.plain.push(opt_text(answer)),
                ..old(self)@
            }),
    {
        let ghost answer_view = opt_text(answer);
        self.plain_responses.push(answer);
        proof {
            assert(self@.plain =~= old(self)@.plain.push(answer_view));
            assert(self@ =~= (ScriptView { plain: old(self)@.plain.push(answer_view), ..old(
                self,
            )@ }));
        }
    }

    /// Appends a pending masked answer; the last one pushed is served first.
    pub fn push_masked(&mut self, answer: Option<String>)
        ensures
            final(self)@ == (ScriptView {
                masked: old(self)@.masked.push(opt_text(answer)),
                ..old(self)@
            }),
    {
        let ghost answer_view = opt_text(answer);
        self.masked_responses.push(answer);
        proof {
            assert(self@.masked =~= old(self)@.masked.push(answer_view));
            assert(self@ =~= (ScriptView { masked: old(self)@.masked.push(answer_view), ..old(
                self,
            )@ }));
        }
    }

    /// How many masked prompts have been served.
    pub fn masked_prompt_count(&self) -> (r: usize)
        ensures
            r == self@.masked_labels.len(),
    {
        self.masked_labels.len()
    }

    /// How many plaintext prompts have been served.
    pub fn plain_prompt_count(&self) -> (r: usize)
        ensures
            r == self@.plain_labels.len(),
    {
        self.plain_labels.len()
    }
}

impl View for ScriptedPrompter {
    type V = ScriptView;

    open spec fn view(&self) -> ScriptView {
        ScriptView {
            plain: self.plain_responses@.map_values(|o: Option<String>| opt_text(o)),
            masked: self.masked_responses@.map_values(|o: Option<String>| opt_text(o)),
            plain_labels: str_views(self.plain_labels@),
            masked_labels: str_views(self.masked_labels@),
        }
    }
}

impl Prompter for ScriptedPrompter {
    type StateView = ScriptView;

    open spec fn state(&self) -> ScriptView {
        self@
    }

    open spec fn plain_response(v: ScriptView, label: Seq<char>) -> Option<Seq<char>> {
        if v.plain.len() > 0 {
            v.plain.last()
        } else {
            None
        }
    }

    open spec fn masked_response(v: ScriptView, label: Seq<char>) -> Option<Seq<char>> {
        if v.masked.len() > 0 {
            v.masked.last()
        } else {
            None
        }
    }

    open spec fn after_plain(v: ScriptView, label: Seq<char>) -> ScriptView {
        ScriptView {
            plain: if v.plain.len() > 0 {
                v.plain.drop_last()
            } else {
                v.plain
            },
            plain_labels: v.plain_labels.push(label),
            ..v
        }
    }

    open spec fn after_masked(v: ScriptView, label: Seq<char>) -> ScriptView {
        ScriptView {
            masked: if v.masked.len() > 0 {
                v.masked.drop_last()
            } else {
                v.masked
            },
            masked_labels: v.masked_labels.push(label),
            ..v
        }
    }

    fn prompt(&mut self, label: &str) -> (r: Option<String>) {
        self.plain_labels.push(label.to_owned());
        let popped = self.plain_responses.pop();
        proof {
            assert(self@.plain_labels =~= old(self)@.plain_labels.push(label@));
            if old(self)@.plain.len() > 0 {
                assert(self@.plain =~= old(self)@.plain.drop_last());
            } else {
                assert(self@.plain =~= old(self)@.plain);
            }
            assert(self@ =~= Self::after_plain(old(self)@, label@));
        }
        match popped {
            Some(answer) => answer,
            None => None,
        }
    }

    fn prompt_password(&mut self, label: &str) -> (r: Option<String>) {
        self.masked_labels.push(label.to_owned());
        let popped = self.masked_responses.pop();
        proof {
            assert(self@.masked_labels =~= old(self)@.masked_labels.push(label@));
            if old(self)@.masked.len() > 0 {
                assert(self@.masked =~= old(self)@.masked.drop_last());
            } else {
                assert(self@.masked =~= old(self)@.masked);
            }
            assert(self@ =~= Self::after_masked(old(self)@, label@));
        }
        match popped {
            Some(answer) => answer,
            None => None,
        }
    }
}

} // verus!
