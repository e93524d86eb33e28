//! The state of one session: who takes part, where the outer loop stands, and
//! what has been written for display.

use std::collections::HashSet;
use vstd::prelude::*;

verus! {

/// One record of the output log.
#[derive(Debug)]
pub struct SceneOutput {
    content: String,
}

impl View for SceneOutput {
    type V = Seq<char>;

    closed spec fn view(&self) -> Seq<char> {
        self.content@
    }
}

impl SceneOutput {
    /// A record with the given text.
    pub fn new(content: &str) -> (record: SceneOutput)
        ensures
            record@ == content@,
    {
        SceneOutput { content: content.to_owned() }
    }

    pub fn content(&self) -> (content: &String)
        ensures
            content@ == self@,
    {
        &self.content
    }
}

impl Default for SceneOutput {
    /// The record without text.
    fn default() -> (record: SceneOutput)
        ensures
            record@ == Seq::<char>::empty(),
    {
        SceneOutput { content: String::new() }
    }
}

impl Clone for SceneOutput {
    fn clone(&self) -> (copy: SceneOutput)
        ensures
            copy@ == self@,
    {
        SceneOutput { content: self.content.clone() }
    }
}

/// The texts of a run of records.
pub open spec fn output_texts(records: Seq<SceneOutput>) -> Seq<Seq<char>> {
    records.map_values(|record: SceneOutput| record@)
}

/// Where the outer loop stands. The three states follow one another in a
/// fixed cycle, see [`SceneStatus::next`].
#[derive(Copy, Clone, PartialEq, Eq, Debug, Structural)]
pub enum SceneStatus {
    /// A driver queues actions for the actors that a person controls.
    RequireUserInput,
    /// A driver queues actions for the other actors.
    RequireAIInput,
    /// The queues are ready to be processed.
    Ready,
}

impl SceneStatus {
    /// The state that follows `self` in the cycle.
    pub open spec fn spec_next(self) -> SceneStatus {
        match self {
            SceneStatus::RequireUserInput => SceneStatus::RequireAIInput,
            SceneStatus::RequireAIInput => SceneStatus::Ready,
            SceneStatus::Ready => SceneStatus::RequireUserInput,
        }
    }

    /// The state that follows `self` in the cycle.
    #[verifier::when_used_as_spec(spec_next)]
    pub fn next(self) -> (following: SceneStatus)
        ensures
            following == self.spec_next(),
    {
        match self {
            SceneStatus::RequireUserInput => SceneStatus::RequireAIInput,
            SceneStatus::RequireAIInput => SceneStatus::Ready,
            SceneStatus::Ready => SceneStatus::RequireUserInput,
        }
    }
}

impl Default for SceneStatus {
    /// A session starts by waiting for the user.
    fn default() -> (status: SceneStatus)
        ensures
            status == SceneStatus::RequireUserInput,
    {
        SceneStatus::RequireUserInput
    }
}

/// Three steps along the cycle lead back to where they started, and no state
/// follows itself.
pub proof fn lemma_status_cycle(status: SceneStatus)
    ensures
        status.spec_next().spec_next().spec_next() == status,
        status.spec_next() != status,
        status.spec_next().spec_next() != status,
{
}

/// What a scene is to the contracts.
pub struct SceneView {
    pub actors: Set<usize>,
    pub status: SceneStatus,
    pub output: Seq<Seq<char>>,
}

impl SceneView {
    /// The scene with one more record at the end of its log.
    pub open spec fn push_output(self, text: Seq<char>) -> SceneView {
        SceneView { output: self.output.push(text), ..self }
    }

    /// The scene in another state of the outer loop.
    pub open spec fn with_status(self, status: SceneStatus) -> SceneView {
        SceneView { status, ..self }
    }

    /// The scene with one more participant.
    pub open spec fn add_actor(self, id: usize) -> SceneView {
        SceneView { actors: self.actors.insert(id), ..self }
    }
}

/// The participants, the state of the outer loop and the output log.
#[derive(Debug)]
pub struct Scene {
    actors: HashSet<usize>,
    status: SceneStatus,
    output: Vec<SceneOutput>,
}

impl View for Scene {
    type V = SceneView;

    closed spec fn view(&self) -> SceneView {
        SceneView {
            actors: self.actors@,
            status: self.status,
            output: output_texts(self.output@),
        }
    }
}

impl Default for Scene {
    /// A scene without participants and without output that waits for the
    /// user.
    fn default() -> (scene: Scene)
        ensures
            scene@ == (SceneView {
                actors: Set::empty(),
                status: SceneStatus::RequireUserInput,
                output: Seq::empty(),
            }),
    {
        let scene = Scene {
            actors: HashSet::new(),
            status: SceneStatus::RequireUserInput,
            output: Vec::new(),
        };
        assert(scene@.output =~= Seq::empty());
        scene
    }
}

impl Scene {
    /// The ids of the participants.
    pub fn actors(&self) -> (ids: &HashSet<usize>)
        ensures
            ids@ == self@.actors,
    {
        &self.actors
    }

    /// Makes `actor_id` a participant. Nothing changes where it is one.
    pub fn add_actor(&mut self, actor_id: usize)
        ensures
            final(self)@ == old(self)@.add_actor(actor_id),
    {
        self.actors.insert(actor_id);
    }

    /// The state of the outer loop.
    pub fn status(&self) -> (status: SceneStatus)
        ensures
            status == self@.status,
    {
        self.status
    }

    /// Puts the outer loop into the given state.
    pub fn set_status(&mut self, status: SceneStatus)
        ensures
            final(self)@ == old(self)@.with_status(status),
    {
        self.status = status;
    }

    /// The output log, oldest record first.
    pub fn output(&self) -> (records: &Vec<SceneOutput>)
        ensures
            output_texts(records@) == self@.output,
    {
        &self.output
    }

    /// Adds a record at the end of the output log.
    pub fn push_output(&mut self, record: SceneOutput)
        ensures
            final(self)@ == old(self)@.push_output(record@),
    {
        self.output.push(record);
        assert(output_texts(self.output@) =~= output_texts(old(self).output@).push(record@));
    }
}

} // verus!
