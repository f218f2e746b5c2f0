//! Sound actions and the names of the loaded sound resources.

use vstd::prelude::*;
use crate::context::TextContext;
use crate::error::{ResolutionError, SoundActionError, SoundError, SoundFailure};
use crate::notes::Notes;
use crate::parse::Templated;
use crate::strings::{str_eq, texts};
use crate::templating::{templatable, TemplatableString, TemplatableValue, ValueSource};

verus! {

/// What a sound action does to its channel.
#[derive(Debug, PartialEq, Eq, Clone, Copy, Structural)]
pub enum SoundActionMode {
    /// Queues a sound behind the one that is playing.
    Queue,
    /// Plays a sound at once, whatever is playing.
    Overwrite,
    /// Plays a sound only if none is playing.
    Passive,
    /// Skips the sound that is playing.
    Skip,
    /// Pauses the channel.
    Pause,
    /// Resumes the channel.
    Play,
}

impl Default for SoundActionMode {
    fn default() -> (mode: SoundActionMode)
        ensures
            mode == SoundActionMode::Passive,
    {
        SoundActionMode::Passive
    }
}

impl Templated for SoundActionMode {
    open spec fn from_text(text: Seq<char>) -> Option<SoundActionMode> {
        if text == "queue"@ {
            Some(SoundActionMode::Queue)
        } else if text == "overwrite"@ {
            Some(SoundActionMode::Overwrite)
        } else if text == "passive"@ {
            Some(SoundActionMode::Passive)
        } else if text == "skip"@ {
            Some(SoundActionMode::Skip)
        } else if text == "pause"@ {
            Some(SoundActionMode::Pause)
        } else if text == "play"@ {
            Some(SoundActionMode::Play)
        } else {
            None
        }
    }

    fn parse_text(text: &str) -> (r: Option<SoundActionMode>) {
        if str_eq(text, "queue") {
            Some(SoundActionMode::Queue)
        } else if str_eq(text, "overwrite") {
            Some(SoundActionMode::Overwrite)
        } else if str_eq(text, "passive") {
            Some(SoundActionMode::Passive)
        } else if str_eq(text, "skip") {
            Some(SoundActionMode::Skip)
        } else if str_eq(text, "pause") {
            Some(SoundActionMode::Pause)
        } else if str_eq(text, "play") {
            Some(SoundActionMode::Play)
        } else {
            None
        }
    }

    fn duplicate(&self) -> (r: SoundActionMode) {
        *self
    }
}

impl SoundActionMode {
    /// Whether this mode needs a sound file.
    pub open spec fn specific(self) -> bool {
        self is Queue || self is Overwrite || self is Passive
    }

    /// Whether this mode needs a sound file.
    pub fn is_specific(&self) -> (r: bool)
        ensures
            r == self.specific(),
    {
        match self {
            SoundActionMode::Queue | SoundActionMode::Overwrite | SoundActionMode::Passive => true,
            _ => false,
        }
    }
}

/// A request to change the playback of a sound channel.
#[derive(Debug)]
pub struct SoundAction {
    /// The sound file to submit. Only the specific modes need one.
    pub name: Option<TemplatableString>,
    /// The channel to act on.
    pub channel: TemplatableString,
    /// What to do to the channel.
    pub mode: TemplatableValue<SoundActionMode>,
    /// The point in the sound to start from, in milliseconds.
    pub seek: Option<TemplatableValue<u64>>,
    /// The playback multiplier, as it is written.
    pub speed: Option<TemplatableString>,
}

/// Sound actions, submitted in order.
pub type SoundActions = Vec<SoundAction>;

/// What a sound channel is doing at one moment.
#[derive(Debug, Clone)]
pub struct ChannelStatus {
    /// The name of the channel.
    pub name: String,
    /// Whether the channel is not paused.
    pub is_playing: bool,
    /// Whether a sound is playing on the channel.
    pub has_sound: bool,
    /// Whether a sound is queued behind the one that is playing.
    pub has_sound_queued: bool,
    /// The position in the playing sound and its duration, both in
    /// milliseconds.
    pub position: Option<(u64, u64)>,
}

/// The names of the sound channels and sound files that are loaded.
#[derive(Debug)]
pub struct Audio {
    pub channels: Vec<String>,
    pub sounds: Vec<String>,
}

/// The first position of `name` in `names`, if it occurs there.
fn position_of(names: &Vec<String>, name: &str) -> (r: Option<usize>)
    ensures
        match r {
            Some(i) => i < names.len() && names[i as int]@ == name@,
            None => !texts(names@).contains(name@),
        },
        r is Some == texts(names@).contains(name@),
{
    let mut i: usize = 0;
    while i < names.len()
        invariant
            i <= names.len(),
            forall|k: int| 0 <= k < i ==> names[k]@ != name@,
        decreases names.len() - i,
    {
        if str_eq(names[i].as_str(), name) {
            assert(texts(names@)[i as int] == name@);
            return Some(i);
        }
        i = i + 1;
    }
    assert forall|k: int| 0 <= k < texts(names@).len() implies texts(names@)[k] != name@ by {
        assert(texts(names@)[k] == names[k]@);
    }
    None
}

impl Audio {
    /// The position of the channel `channel` among the channels, or
    /// `InvalidChannel` if there is no such channel.
    pub fn get_player(&self, channel: &str) -> (r: Result<usize, SoundError>)
        ensures
            match r {
                Ok(i) => i < self.channels.len() && self.channels[i as int]@ == channel@,
                Err(e) => e == SoundError::InvalidChannel && !texts(self.channels@).contains(
                    channel@,
                ),
            },
            r is Ok == texts(self.channels@).contains(channel@),
    {
        match position_of(&self.channels, channel) {
            Some(i) => Ok(i),
            None => Err(SoundError::InvalidChannel),
        }
    }

    /// The position of the sound `name` among the sounds, or
    /// `InvalidSound` if no such sound is loaded.
    pub fn get_sound(&self, name: &str) -> (r: Result<usize, SoundError>)
        ensures
            match r {
                Ok(i) => i < self.sounds.len() && self.sounds[i as int]@ == name@,
                Err(e) => e == SoundError::InvalidSound && !texts(self.sounds@).contains(name@),
            },
            r is Ok == texts(self.sounds@).contains(name@),
    {
        match position_of(&self.sounds, name) {
            Some(i) => Ok(i),
            None => Err(SoundError::InvalidSound),
        }
    }
}

/// The first of `sounds`, from `from` on, that is invalid against `audio`.
pub open spec fn first_sound_error(sounds: Seq<SoundAction>, audio: &Audio, from: int) -> Option<
    SoundActionError,
>
    decreases sounds.len() - from,
{
    if from < 0 || from >= sounds.len() {
        None
    } else {
        match sounds[from].error(audio) {
            Some(cause) => Some(SoundActionError { index: (from + 1) as usize, cause }),
            None => first_sound_error(sounds, audio, from + 1),
        }
    }
}

impl SoundAction {
    /// What is wrong with this action, as far as it is known without
    /// resolving anything: the first of a sound that is not loaded, a
    /// channel that does not exist, and a mode that does not go with the
    /// presence of a sound name.
    pub open spec fn error(&self, audio: &Audio) -> Option<SoundError> {
        if self.name matches Some(n) && !templatable(n.content@) && !texts(audio.sounds@).contains(
            n.content@,
        ) {
            Some(SoundError::InvalidSound)
        } else if !templatable(self.channel.content@) && !texts(audio.channels@).contains(
            self.channel.content@,
        ) {
            Some(SoundError::InvalidChannel)
        } else if self.mode.source matches ValueSource::Value(mode) && mode.specific()
            && self.name is None {
            Some(SoundError::MissingName)
        } else if self.mode.source matches ValueSource::Value(mode) && !mode.specific()
            && self.name is Some {
            Some(SoundError::UnusedName)
        } else {
            None
        }
    }

    /// Checks this action against the loaded sounds and channels.
    pub fn validate(&self, audio: &Audio) -> (r: Result<(), SoundError>)
        ensures
            match r {
                Ok(_) => self.error(audio) is None,
                Err(e) => self.error(audio) == Some(e),
            },
    {
        if let Some(name) = &self.name {
            if let Some(sound) = name.content() {
                if audio.get_sound(sound).is_err() {
                    return Err(SoundError::InvalidSound);
                }
            }
        }
        if let Some(channel) = self.channel.content() {
            if audio.get_player(channel).is_err() {
                return Err(SoundError::InvalidChannel);
            }
        }
        if let Some(mode) = self.mode.static_value() {
            if mode.is_specific() && self.name.is_none() {
                return Err(SoundError::MissingName);
            } else if !mode.is_specific() && self.name.is_some() {
                return Err(SoundError::UnusedName);
            }
        }
        Ok(())
    }

    /// Checks `sounds` in order and reports the first invalid action.
    pub fn validate_all(sounds: &SoundActions, audio: &Audio) -> (r: Result<(), SoundActionError>)
        ensures
            match r {
                Ok(_) => first_sound_error(sounds@, audio, 0) is None,
                Err(e) => first_sound_error(sounds@, audio, 0) == Some(e),
            },
    {
        let mut i: usize = 0;
        while i < sounds.len()
            invariant
                i <= sounds.len(),
                first_sound_error(sounds@, audio, 0) == first_sound_error(sounds@, audio, i as int),
            decreases sounds.len() - i,
        {
            match sounds[i].validate(audio) {
                Ok(_) => {},
                Err(cause) => {
                    return Err(SoundActionError { index: i + 1, cause });
                },
            }
            i = i + 1;
        }
        Ok(())
    }
}

/// What to do to a sound channel, resolved: the positions of the channel
/// and of the sound among those loaded, where to start, what to do, and
/// the playback multiplier as it is written.
#[derive(Debug)]
pub struct SoundCommand {
    pub channel: usize,
    pub sound: Option<usize>,
    pub seek: Option<u64>,
    pub mode: SoundActionMode,
    pub speed: Option<String>,
}

impl SoundAction {
    /// Whether resolving the action calls no script.
    pub open spec fn script_free(&self, ctx: &TextContext) -> bool {
        &&& self.channel.script_free(ctx)
        &&& self.mode.script_free(ctx)
        &&& match self.name {
            Some(n) => n.script_free(ctx),
            None => true,
        }
        &&& match self.seek {
            Some(s) => s.script_free(ctx),
            None => true,
        }
        &&& match self.speed {
            Some(s) => s.script_free(ctx),
            None => true,
        }
    }

    /// Whether `e` is a failure that resolving the action can end in: a
    /// failure of filling the channel, the sound or the playback
    /// multiplier, or of getting the seek or the mode.
    pub open spec fn fails_as(&self, ctx: &TextContext, e: ResolutionError) -> bool {
        ||| self.channel.fails_as(ctx, e)
        ||| self.seek is Some && self.seek->0.fails_as(ctx, e)
        ||| self.mode.fails_as(ctx, e)
        ||| self.name is Some && self.name->0.fails_as(ctx, e)
        ||| self.speed is Some && self.speed->0.fails_as(ctx, e)
    }

    /// Whether the values of the action resolve, where resolving calls no
    /// script: the seek is a number and the mode is a mode.
    pub open spec fn values_resolve(&self, ctx: &TextContext) -> bool {
        &&& self.mode.resolved(ctx) is Some
        &&& match self.seek {
            Some(s) => s.resolved(ctx) is Some,
            None => true,
        }
    }
}

impl Audio {
    /// Each channel with whether the player has it enabled.
    pub fn channel_statuses(&self, enabled: &Notes) -> (statuses: Vec<(String, bool)>)
        ensures
            statuses.len() == self.channels.len(),
            forall|i: int|
                0 <= i < statuses.len() ==> (#[trigger] statuses[i]).0@ == self.channels[i]@
                    && statuses[i].1 == enabled@.contains(self.channels[i]@),
    {
        let mut statuses: Vec<(String, bool)> = Vec::new();
        let mut i: usize = 0;
        while i < self.channels.len()
            invariant
                i <= self.channels.len(),
                statuses.len() == i,
                forall|k: int|
                    0 <= k < i ==> (#[trigger] statuses[k]).0@ == self.channels[k]@ && statuses[k].1
                        == enabled@.contains(self.channels[k]@),
            decreases self.channels.len() - i,
        {
            let on = enabled.contains(self.channels[i].as_str());
            statuses.push((self.channels[i].clone(), on));
            i = i + 1;
        }
        statuses
    }

    /// Turns a sound action into the command to carry out, or into
    /// nothing where the player has the channel disabled.
    ///
    /// The channel is resolved first and must exist. Then, for an enabled
    /// channel, seek and mode are resolved, the sound is resolved and must
    /// be loaded, and the playback multiplier is resolved.
    pub fn accept(&self, enabled: &Notes, action: &SoundAction, text_context: &TextContext) -> (r: Result<
        Option<SoundCommand>,
        SoundFailure,
    >)
        ensures
            action.script_free(text_context) ==> {
                let channel = action.channel.plain(text_context);
                if !texts(self.channels@).contains(channel) {
                    r matches Err(SoundFailure::Sound(SoundError::InvalidChannel))
                } else if !enabled@.contains(channel) {
                    r matches Ok(None)
                } else if !action.values_resolve(text_context) {
                    r matches Err(SoundFailure::Resolution(e)) && e is Parse
                } else if action.name matches Some(n) && !texts(self.sounds@).contains(
                    n.plain(text_context),
                ) {
                    r matches Err(SoundFailure::Sound(SoundError::InvalidSound))
                } else {
                    r matches Ok(Some(_))
                }
            },
            r matches Ok(Some(command)) ==> {
                &&& command.channel < self.channels.len()
                &&& enabled@.contains(self.channels[command.channel as int]@)
                &&& action.channel.fills_to(text_context, self.channels[command.channel as int]@)
                &&& match command.sound {
                    Some(i) => action.name is Some && i < self.sounds.len() && action.name->0.fills_to(
                        text_context,
                        self.sounds[i as int]@,
                    ),
                    None => action.name is None,
                }
                &&& action.mode.gets(text_context, command.mode)
                &&& match command.seek {
                    Some(ms) => action.seek is Some && action.seek->0.gets(text_context, ms),
                    None => action.seek is None,
                }
                &&& match command.speed {
                    Some(text) => action.speed is Some && action.speed->0.fills_to(text_context, text@),
                    None => action.speed is None,
                }
            },
            r matches Ok(None) ==> exists|channel: Seq<char>| #[trigger]
                action.channel.fills_to(text_context, channel) && texts(self.channels@).contains(
                    channel,
                ) && !enabled@.contains(channel),
            r matches Err(SoundFailure::Resolution(e)) ==> action.fails_as(text_context, e),
            r matches Err(SoundFailure::Sound(e)) ==> match e {
                SoundError::InvalidChannel => exists|channel: Seq<char>| #[trigger]
                    action.channel.fills_to(text_context, channel) && !texts(self.channels@).contains(
                        channel,
                    ),
                SoundError::InvalidSound => action.name is Some && exists|name: Seq<char>| #[trigger]
                    action.name->0.fills_to(text_context, name) && !texts(self.sounds@).contains(name),
                _ => false,
            },
    {
        let channel = match action.channel.fill(text_context) {
            Ok(c) => c,
            Err(e) => {
                return Err(SoundFailure::Resolution(e));
            },
        };
        let channel_index = match self.get_player(channel.as_str()) {
            Ok(i) => i,
            Err(e) => {
                return Err(SoundFailure::Sound(e));
            },
        };
        if !enabled.contains(channel.as_str()) {
            return Ok(None);
        }
        let seek = match &action.seek {
            Some(ms) => match ms.get_value(text_context) {
                Ok(v) => Some(v),
                Err(e) => {
                    return Err(SoundFailure::Resolution(e));
                },
            },
            None => None,
        };
        let mode = match action.mode.get_value(text_context) {
            Ok(m) => m,
            Err(e) => {
                return Err(SoundFailure::Resolution(e));
            },
        };
        let sound = match &action.name {
            Some(name) => {
                let filled = match name.fill(text_context) {
                    Ok(f) => f,
                    Err(e) => {
                        return Err(SoundFailure::Resolution(e));
                    },
                };
                match self.get_sound(filled.as_str()) {
                    Ok(i) => Some(i),
                    Err(e) => {
                        return Err(SoundFailure::Sound(e));
                    },
                }
            },
            None => None,
        };
        let speed = match &action.speed {
            Some(s) => match s.fill(text_context) {
                Ok(text) => Some(text),
                Err(e) => {
                    return Err(SoundFailure::Resolution(e));
                },
            },
            None => None,
        };
        Ok(Some(SoundCommand { channel: channel_index, sound, seek, mode, speed }))
    }
}

} // verus!
