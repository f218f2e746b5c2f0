//! What the game reports as its rich presence state.

use vstd::prelude::*;
use crate::context::TextContext;
use crate::error::ResolutionError;
use crate::player::HistoryEntry;
use crate::templating::TemplatableString;

verus! {

/// Which text the game reports as its state.
#[derive(Debug, PartialEq, Eq, Clone, Copy, Structural)]
pub enum RichPresenceMode {
    /// The identifier of the prompt that the player is at.
    Id,
    /// A text that choices give. It is reported only where the choice has a
    /// presence detail and `fallback` is set, and it is the log line of the
    /// choice.
    Custom { fallback: bool },
}

/// A text that may be missing, as a plain value.
pub open spec fn text_of(text: Option<String>) -> Option<Seq<char>> {
    match text {
        Some(t) => Some(t@),
        None => None,
    }
}

impl RichPresenceMode {
    /// The state to report after a choice, where resolving it calls no
    /// script.
    pub open spec fn state(
        self,
        latest: HistoryEntry,
        drp: Option<TemplatableString>,
        log: Option<Seq<char>>,
    ) -> Option<Seq<char>> {
        match self {
            RichPresenceMode::Id => Some(latest.path.file@ + seq!['/'] + latest.path.prompt@),
            RichPresenceMode::Custom { fallback } => if drp is Some && fallback {
                log
            } else {
                None
            },
        }
    }

    /// The state to report after a choice was taken. `latest` is the entry
    /// that the choice added, `drp` the presence detail of the choice and
    /// `log` its resolved log line.
    ///
    /// In `Id` mode this is the path of the prompt jumped to. In `Custom`
    /// mode the presence detail is resolved, and a failure of that is
    /// handed on; the state is the log line where the choice has a detail
    /// and `fallback` is set, and none otherwise.
    pub fn get_state(
        &self,
        latest: &HistoryEntry,
        drp: Option<&TemplatableString>,
        log: Option<&str>,
        text_context: &TextContext,
    ) -> (r: Result<Option<String>, ResolutionError>)
        ensures
            (*self == RichPresenceMode::Id || drp is None || drp->0.script_free(text_context))
                ==> (r matches Ok(state) && text_of(state) == self.state(
                *latest,
                match drp {
                    Some(d) => Some(*d),
                    None => None,
                },
                match log {
                    Some(l) => Some(l@),
                    None => None,
                },
            )),
            r matches Ok(state) ==> text_of(state) == self.state(
                *latest,
                match drp {
                    Some(d) => Some(*d),
                    None => None,
                },
                match log {
                    Some(l) => Some(l@),
                    None => None,
                },
            ),
            r matches Err(e) ==> drp is Some && drp->0.fails_as(text_context, e),
    {
        match self {
            RichPresenceMode::Id => Ok(Some(latest.path.to_string())),
            RichPresenceMode::Custom { fallback } => match drp {
                Some(detail) => match detail.fill(text_context) {
                    Ok(_) => {
                        if *fallback {
                            match log {
                                Some(line) => Ok(Some(line.to_owned())),
                                None => Ok(None),
                            }
                        } else {
                            Ok(None)
                        }
                    },
                    Err(e) => Err(e),
                },
                None => Ok(None),
            },
        }
    }
}

} // verus!
