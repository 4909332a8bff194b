//! The parse driver's decisions: what to do with each event of the main
//! document's load, and what a finished parse hands back.
use vstd::prelude::*;
use crate::builder::{ParserAction, TreeBuilder};
use crate::tree::Document;

verus! {

/// One event of the main document's load.
pub enum LoadEvent {
    /// A chunk of the document's bytes.
    Payload(Vec<u8>),
    /// The load ended: `true` on success, `false` on failure.
    Done(bool),
}

/// What the caller does next.
pub enum DriverAction {
    /// Hand these bytes to the tokenizer.
    Feed(Vec<u8>),
    /// Send the termination signal to both discovery coordinators.
    TerminateCoordinators,
    /// The load failed: abandon the parse.
    Abort,
    /// Nothing: the load already ended.
    Ignore,
}

/// Where the main load stands.
#[derive(Clone, Copy, Debug, PartialEq, Eq, Structural)]
pub enum LoadState {
    Loading,
    Loaded,
    Failed,
}

/// Why a parse produced no document.
#[derive(Clone, Copy, Debug, PartialEq, Eq, Structural)]
pub enum ParseError {
    /// The main document could not be loaded.
    LoadFailed,
    /// The main document has not finished loading.
    Incomplete,
}

/// A finished parse: the document and the requests it made, in order.
pub struct ParseOutput {
    pub document: Document,
    pub actions: Vec<ParserAction>,
}

/// The driver of one parse.
pub struct ParseDriver {
    state: LoadState,
}

impl ParseDriver {
    pub closed spec fn state(&self) -> LoadState {
        self.state
    }

    pub fn new() -> (r: ParseDriver)
        ensures
            r.state() == LoadState::Loading,
    {
        ParseDriver { state: LoadState::Loading }
    }

    /// Decides on one load event. Bytes are fed while loading; success
    /// terminates the coordinators; failure aborts; later events are ignored.
    pub fn on_event(&mut self, ev: LoadEvent) -> (r: DriverAction)
        ensures
            old(self).state() != LoadState::Loading ==> {
                &&& r is Ignore
                &&& final(self).state() == old(self).state()
            },
            old(self).state() == LoadState::Loading ==> match ev {
                LoadEvent::Payload(b) => r == DriverAction::Feed(b) && final(self).state()
                    == LoadState::Loading,
                LoadEvent::Done(true) => r is TerminateCoordinators && final(self).state()
                    == LoadState::Loaded,
                LoadEvent::Done(false) => r is Abort && final(self).state() == LoadState::Failed,
            },
    {
        if self.state != LoadState::Loading {
            return DriverAction::Ignore;
        }
        match ev {
            LoadEvent::Payload(b) => DriverAction::Feed(b),
            LoadEvent::Done(ok) => {
                if ok {
                    self.state = LoadState::Loaded;
                    DriverAction::TerminateCoordinators
                } else {
                    self.state = LoadState::Failed;
                    DriverAction::Abort
                }
            },
        }
    }

    /// The result of the parse. A failed load is the one abort: it hands back
    /// no document and none of the requests. A completed load hands back both.
    pub fn finish(self, builder: TreeBuilder) -> (r: Result<ParseOutput, ParseError>)
        ensures
            self.state() == LoadState::Failed <==> r == Err::<ParseOutput, ParseError>(
                ParseError::LoadFailed,
            ),
            self.state() == LoadState::Loading <==> r == Err::<ParseOutput, ParseError>(
                ParseError::Incomplete,
            ),
            self.state() == LoadState::Loaded <==> r.is_ok(),
            r.is_ok() ==> {
                &&& r.unwrap().document == builder.document()
                &&& r.unwrap().actions@.map_values(|a: ParserAction| a@) == builder.actions()
            },
    {
        match self.state {
            LoadState::Failed => Err(ParseError::LoadFailed),
            LoadState::Loading => Err(ParseError::Incomplete),
            LoadState::Loaded => {
                let mut builder = builder;
                let actions = builder.take_actions();
                Ok(ParseOutput { document: builder.into_document(), actions })
            },
        }
    }
}

} // verus!
