//! One call of the local backend, from the input image to the answer. The
//! call is a machine: it names the next step, takes in how the step went,
//! and ends with the answer, an error, or the placeholder. Reading files
//! and running a model are the caller's part.

use vstd::prelude::*;
use crate::backend::{
    blank_image, blank_view, infer_fallback, is_fallback_of, RgbPixels, RgbPixelsView,
};
use crate::inference::{CoreError, CoreErrorView, InferenceRequest, InferenceResult, ModelKind};
use crate::provider::ProviderChoice;
use crate::selection::{
    begun, select_strategy, strategy_for, Attempted, Selection, SelectionEnd, SelectionView,
    Strategy,
};

verus! {

/// What the caller is to do next.
#[derive(Debug, Clone, Copy, PartialEq, Eq, Structural)]
pub enum CallStep {
    /// Read and decode the input image.
    LoadImage,
    /// Find the weights file of the model.
    ResolveWeights,
    /// Look up the execution path remembered for the context of the call.
    Recall,
    /// Run the model on this execution path.
    Attempt(ProviderChoice),
    /// Nothing: the call is over.
    Done,
}

/// How a call is to end, once it is known.
#[derive(Debug)]
pub enum Ending {
    Answer(InferenceResult),
    Failure(CoreError),
    Placeholder(RgbPixels),
}

pub enum EndingView {
    Answer(InferenceResult),
    Failure(CoreErrorView),
    Placeholder(RgbPixelsView),
}

impl View for Ending {
    type V = EndingView;

    open spec fn view(&self) -> EndingView {
        match *self {
            Ending::Answer(result) => EndingView::Answer(result),
            Ending::Failure(error) => EndingView::Failure(error@),
            Ending::Placeholder(image) => EndingView::Placeholder(image@),
        }
    }
}

/// What a call ends with: the result for the caller, and the execution path
/// to remember for the context of the call, if one is to be remembered.
#[derive(Debug)]
pub struct CallEnd {
    pub result: Result<InferenceResult, CoreError>,
    pub persist: Option<ProviderChoice>,
}

/// One call in progress.
#[derive(Debug)]
pub struct InferenceCall {
    selected_model: ModelKind,
    width: u32,
    height: u32,
    placeholder_allowed: bool,
    strategy: Strategy,
    candidates: Vec<ProviderChoice>,
    recalling: bool,
    image: Option<RgbPixels>,
    selection: Option<Selection>,
    ending: Option<Ending>,
    persist: Option<ProviderChoice>,
}

pub struct CallView {
    pub selected_model: ModelKind,
    pub width: u32,
    pub height: u32,
    pub placeholder_allowed: bool,
    pub strategy: Strategy,
    pub candidates: Seq<ProviderChoice>,
    pub recalling: bool,
    pub image: Option<RgbPixelsView>,
    pub selection: Option<SelectionView>,
    pub ending: Option<EndingView>,
    pub persist: Option<ProviderChoice>,
}

impl View for InferenceCall {
    type V = CallView;

    closed spec fn view(&self) -> CallView {
        CallView {
            selected_model: self.selected_model,
            width: self.width,
            height: self.height,
            placeholder_allowed: self.placeholder_allowed,
            strategy: self.strategy,
            candidates: self.candidates@,
            recalling: self.recalling,
            image: match self.image {
                Some(image) => Some(image@),
                None => None,
            },
            selection: match self.selection {
                Some(selection) => Some(selection@),
                None => None,
            },
            ending: match self.ending {
                Some(ending) => Some(ending@),
                None => None,
            },
            persist: self.persist,
        }
    }
}

/// The text of the error for a call without candidates.
pub open spec fn no_candidates_text() -> Seq<char> {
    "no execution providers available"@
}

/// A call before its first step.
pub open spec fn call_begun(
    selected_model: ModelKind,
    width: u32,
    height: u32,
    placeholder_allowed: bool,
    strategy: Strategy,
    candidates: Seq<ProviderChoice>,
) -> CallView {
    CallView {
        selected_model,
        width,
        height,
        placeholder_allowed,
        strategy,
        candidates,
        recalling: false,
        image: None,
        selection: None,
        ending: None,
        persist: None,
    }
}

impl CallView {
    pub open spec fn well_formed(self) -> bool {
        &&& self.image is Some ==> self.image->0.well_formed()
        &&& self.recalling ==> {
            &&& self.ending is None
            &&& self.selection is None
            &&& self.image is Some
            &&& self.candidates.len() > 0
        }
        &&& self.selection is Some ==> {
            &&& self.ending is None
            &&& self.image is Some
            &&& self.selection->0.well_formed()
            &&& self.selection->0.pending() is Some
        }
        &&& self.ending is Some && self.ending->0 is Placeholder
            ==> self.ending->0->Placeholder_0.well_formed()
    }

    /// The next step: the image first, then the weights, then, unless the
    /// candidates are gone through strictly in order, the remembered path,
    /// then one attempt after the other; nothing once the end is known.
    pub open spec fn next(self) -> CallStep {
        if self.ending is Some {
            CallStep::Done
        } else if self.selection is Some {
            CallStep::Attempt(self.selection->0.pending()->0)
        } else if self.image is None {
            CallStep::LoadImage
        } else if self.recalling {
            CallStep::Recall
        } else {
            CallStep::ResolveWeights
        }
    }

    /// How a call that cannot go on ends: with the placeholder for the
    /// image at hand where the placeholder is switched on, and with the
    /// error where it is not, or where there is no image to make it from.
    /// Either way the call lets go of the image.
    pub open spec fn given_up(self, error: CoreErrorView, image: Option<RgbPixelsView>) -> CallView {
        if self.placeholder_allowed && image is Some {
            CallView {
                ending: Some(EndingView::Placeholder(image->0)),
                image: None,
                recalling: false,
                ..self
            }
        } else {
            CallView {
                ending: Some(EndingView::Failure(error)),
                image: None,
                recalling: false,
                ..self
            }
        }
    }

    /// The call after the image was loaded, or could not be: a loaded image
    /// is kept, and a failure gives the call up, with a black image of the
    /// stated size for the placeholder.
    pub open spec fn after_image(self, loaded: Result<RgbPixelsView, CoreErrorView>) -> CallView {
        match loaded {
            Ok(image) => CallView { image: Some(image), ..self },
            Err(error) => self.given_up(error, blank_view(self.width, self.height)),
        }
    }

    /// The call after the weights file was found, or was not: with the
    /// weights at hand the candidates are gone through, at once where they
    /// are gone through strictly in order and after the look for the
    /// remembered path otherwise, unless there is none, which fails the call
    /// whether or not the placeholder is switched on; without the weights
    /// the call is given up.
    pub open spec fn after_weights(self, resolved: Result<(), CoreErrorView>) -> CallView {
        match resolved {
            Ok(_) => if self.candidates.len() == 0 {
                CallView {
                    ending: Some(
                        EndingView::Failure(CoreErrorView::Backend(no_candidates_text())),
                    ),
                    ..self
                }
            } else if self.strategy == Strategy::Sequential {
                self.after_recall(None)
            } else {
                CallView { recalling: true, ..self }
            },
            Err(error) => self.given_up(error, self.image),
        }
    }

    /// The call after the look for the remembered path: the candidates are
    /// gone through, with the remembered path, if there is one.
    pub open spec fn after_recall(self, cached: Option<ProviderChoice>) -> CallView {
        CallView {
            recalling: false,
            selection: Some(begun(self.strategy, self.candidates, cached)),
            candidates: Seq::empty(),
            ..self
        }
    }

    /// The call after an attempt went as `outcome` says: the run through
    /// the candidates advances, and where it is over the call ends with its
    /// answer and the path to remember, or is given up with its error.
    pub open spec fn after_attempt(self, outcome: Result<Attempted, String>) -> CallView {
        let advanced = self.selection->0.advanced(outcome);
        if advanced.pending() is Some {
            CallView { selection: Some(advanced), ..self }
        } else {
            match advanced.end().result {
                Ok(result) => CallView {
                    selection: None,
                    ending: Some(EndingView::Answer(result)),
                    persist: advanced.end().persist,
                    ..self
                },
                Err(text) => CallView { selection: None, ..self }.given_up(
                    CoreErrorView::Backend(text),
                    self.image,
                ),
            }
        }
    }

    /// `end` is what the call ends with.
    pub open spec fn is_end(self, end: CallEnd) -> bool {
        &&& end.persist == self.persist
        &&& match self.ending->0 {
            EndingView::Answer(result) => end.result == Ok::<InferenceResult, CoreError>(result),
            EndingView::Failure(error) => end.result is Err && end.result->Err_0@ == error,
            EndingView::Placeholder(image) => is_fallback_of(end.result, self.selected_model, image),
        }
    }
}

impl InferenceCall {
    /// Starts the call for a request and its resolved model, with the
    /// candidates of the host and the switch of the placeholder.
    pub fn begin(
        request: &InferenceRequest,
        selected_model: ModelKind,
        placeholder_allowed: bool,
        candidates: Vec<ProviderChoice>,
    ) -> (call: InferenceCall)
        ensures
            call@ == call_begun(
                selected_model,
                request.width,
                request.height,
                placeholder_allowed,
                strategy_for(request.execution_provider, request.benchmark_provider),
                candidates@,
            ),
            call@.well_formed(),
    {
        InferenceCall {
            selected_model,
            width: request.width,
            height: request.height,
            placeholder_allowed,
            strategy: select_strategy(request),
            candidates,
            recalling: false,
            image: None,
            selection: None,
            ending: None,
            persist: None,
        }
    }

    /// The next step.
    pub fn next(&self) -> (step: CallStep)
        requires
            self@.well_formed(),
        ensures
            step == self@.next(),
    {
        if self.ending.is_some() {
            CallStep::Done
        } else {
            match &self.selection {
                Some(selection) => match selection.pending() {
                    Some(provider) => CallStep::Attempt(provider),
                    None => vstd::pervasive::unreached(),
                },
                None => {
                    if self.image.is_none() {
                        CallStep::LoadImage
                    } else if self.recalling {
                        CallStep::Recall
                    } else {
                        CallStep::ResolveWeights
                    }
                },
            }
        }
    }

    fn give_up(&mut self, error: CoreError, image: Option<RgbPixels>)
        requires
            old(self)@.well_formed(),
            old(self)@.selection is None,
            old(self)@.image is None,
            !old(self)@.recalling,
            image is Some ==> image->0.well_formed(),
        ensures
            final(self)@ == old(self)@.given_up(
                error@,
                match image {
                    Some(i) => Some(i@),
                    None => None,
                },
            ),
            final(self)@.well_formed(),
    {
        if self.placeholder_allowed {
            match image {
                Some(image) => {
                    self.ending = Some(Ending::Placeholder(image));
                },
                None => {
                    self.ending = Some(Ending::Failure(error));
                },
            }
        } else {
            self.ending = Some(Ending::Failure(error));
        }
    }

    /// Takes in the loaded image, or why it could not be loaded.
    pub fn image_loaded(&mut self, loaded: Result<RgbPixels, CoreError>)
        requires
            old(self)@.well_formed(),
            old(self)@.next() == CallStep::LoadImage,
            loaded is Ok ==> loaded->Ok_0.well_formed(),
        ensures
            final(self)@ == old(self)@.after_image(
                match loaded {
                    Ok(image) => Ok(image@),
                    Err(error) => Err(error@),
                },
            ),
            final(self)@.well_formed(),
    {
        match loaded {
            Ok(image) => {
                self.image = Some(image);
            },
            Err(error) => {
                let blank: Option<RgbPixels> = blank_image(self.width, self.height);
                self.give_up(error, blank);
            },
        }
    }

    /// Takes in that the weights file was found, or why it was not.
    pub fn weights_resolved(&mut self, resolved: Result<(), CoreError>)
        requires
            old(self)@.well_formed(),
            old(self)@.next() == CallStep::ResolveWeights,
        ensures
            final(self)@ == old(self)@.after_weights(
                match resolved {
                    Ok(_) => Ok(()),
                    Err(error) => Err(error@),
                },
            ),
            final(self)@.well_formed(),
    {
        match resolved {
            Ok(_) => {
                if self.candidates.len() == 0 {
                    self.ending = Some(
                        Ending::Failure(
                            CoreError::Backend("no execution providers available".to_string()),
                        ),
                    );
                } else {
                    match self.strategy {
                        Strategy::Sequential => {
                            self.recalling = true;
                            self.recalled(None);
                        },
                        _ => {
                            self.recalling = true;
                        },
                    }
                }
            },
            Err(error) => {
                let image: Option<RgbPixels> = self.image.take();
                self.give_up(error, image);
            },
        }
    }

    /// Takes in the execution path remembered for the context of the call,
    /// if there is one.
    pub fn recalled(&mut self, cached: Option<ProviderChoice>)
        requires
            old(self)@.well_formed(),
            old(self)@.next() == CallStep::Recall,
        ensures
            final(self)@ == old(self)@.after_recall(cached),
            final(self)@.well_formed(),
    {
        let mut candidates: Vec<ProviderChoice> = Vec::new();
        std::mem::swap(&mut self.candidates, &mut candidates);
        let selection: Selection = Selection::begin(self.strategy, candidates, cached);
        assert(selection@.pending() is Some);
        self.selection = Some(selection);
        self.recalling = false;
        assert(self.candidates@ =~= Seq::empty());
    }

    /// Takes in how the pending attempt went.
    pub fn attempted(&mut self, outcome: Result<Attempted, String>)
        requires
            old(self)@.well_formed(),
            old(self)@.next() is Attempt,
        ensures
            final(self)@ == old(self)@.after_attempt(outcome),
            final(self)@.well_formed(),
    {
        let mut selection: Selection = match self.selection.take() {
            Some(selection) => selection,
            None => vstd::pervasive::unreached(),
        };
        selection.record(outcome);
        if selection.pending().is_some() {
            self.selection = Some(selection);
        } else {
            let end: SelectionEnd = selection.finish();
            match end.result {
                Ok(result) => {
                    self.persist = end.persist;
                    self.ending = Some(Ending::Answer(result));
                },
                Err(error) => {
                    let image: Option<RgbPixels> = self.image.take();
                    self.give_up(error, image);
                },
            }
        }
    }

    /// Ends the call, once the next step is `Done`.
    pub fn finish(self) -> (end: CallEnd)
        requires
            self@.well_formed(),
            self@.next() == CallStep::Done,
        ensures
            self@.is_end(end),
    {
        let result: Result<InferenceResult, CoreError> = match self.ending {
            Some(Ending::Answer(result)) => Ok(result),
            Some(Ending::Failure(error)) => Err(error),
            Some(Ending::Placeholder(image)) => infer_fallback(self.selected_model, &image),
            None => vstd::pervasive::unreached(),
        };
        CallEnd { result, persist: self.persist }
    }
}

/// How calls end. The placeholder answers a call only where it is
/// switched on: with the switch off, a call that cannot load its image,
/// cannot find its weights, or runs out of candidates fails with exactly the
/// error that stopped it. A call without candidates fails whether or not the
/// switch is on. A failure of the run through the candidates is a backend
/// error, and a success ends the call with the answer of the run and the
/// path it names to be remembered.
pub proof fn lemma_how_calls_end(
    call: CallView,
    image: Result<RgbPixelsView, CoreErrorView>,
    weights: Result<(), CoreErrorView>,
    outcome: Result<Attempted, String>,
)
    requires
        call.well_formed(),
    ensures
        call.after_image(image).ending is Some && call.after_image(image).ending->0 is Placeholder
            ==> call.placeholder_allowed || (call.ending is Some && call.ending->0 is Placeholder),
        call.after_weights(weights).ending is Some && call.after_weights(weights).ending->0
            is Placeholder ==> call.placeholder_allowed || (call.ending is Some && call.ending->0
            is Placeholder),
        !call.placeholder_allowed && image is Err ==> call.after_image(image).ending == Some(
            EndingView::Failure(image->Err_0),
        ),
        !call.placeholder_allowed && weights is Err ==> call.after_weights(weights).ending == Some(
            EndingView::Failure(weights->Err_0),
        ),
        weights is Ok && call.candidates.len() == 0 ==> call.after_weights(weights).ending == Some(
            EndingView::Failure(CoreErrorView::Backend(no_candidates_text())),
        ),
        call.selection is Some && call.selection->0.advanced(outcome).pending() is None ==> {
            let end = call.selection->0.advanced(outcome).end();
            match end.result {
                Ok(result) => call.after_attempt(outcome).ending == Some(EndingView::Answer(result))
                    && call.after_attempt(outcome).persist == end.persist,
                Err(text) => call.after_attempt(outcome).ending == Some(
                    if call.placeholder_allowed && call.image is Some {
                        EndingView::Placeholder(call.image->0)
                    } else {
                        EndingView::Failure(CoreErrorView::Backend(text))
                    },
                ),
            }
        },
{
}

} // verus!
