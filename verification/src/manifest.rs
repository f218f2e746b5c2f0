//! The game's manifest: what it is called, and how it is set up.

use vstd::prelude::*;
use vstd::string::StringExecFns;
use crate::context::TextContext;
use crate::error::{ManifestError, ResolutionError};
use crate::player::{Channels, HistoryEntry};
use crate::strings::{join, joined, texts};
use crate::templating::TemplatableString;
use crate::notes::Notes;
use crate::path::PathData;
use crate::display::{TextLines, TextSpeed};
use crate::templating::{TemplatableValue, ValueSource};
use crate::info::UnlockedInfoPages;
use crate::table::StringMap;
use crate::variables::Variables;
use crate::discord::RichPresenceMode;

verus! {

/// What identifies the game and its authors.
#[derive(Debug)]
pub struct Metadata {
    pub name: String,
    pub id: Option<String>,
    pub authors: Vec<String>,
    /// The game's version, as it is written.
    pub version: String,
    pub contact: Option<Vec<String>>,
}

impl Metadata {
    /// The game's identifier: its `id`, or its name where it has none.
    pub fn game_id(&self) -> (id: &str)
        ensures
            id@ == match self.id {
                Some(i) => i@,
                None => self.name@,
            },
    {
        match &self.id {
            Some(id) => id.as_str(),
            None => self.name.as_str(),
        }
    }
}

/// The engine's own version.
pub const NAGE_VERSION: &'static str = "0.1.0";

/// Whether `text` is a semantic version, as semver's `Version::parse`
/// decides it.
pub uninterp spec fn semver_version(text: Seq<char>) -> bool;

/// Whether `text` is a version requirement, as semver's `VersionReq::parse`
/// decides it.
pub uninterp spec fn semver_requirement(text: Seq<char>) -> bool;

/// Whether the version written `version` meets the requirement written
/// `requirement`, as semver's `VersionReq::matches` decides it for the two
/// parsed.
pub uninterp spec fn semver_matches(requirement: Seq<char>, version: Seq<char>) -> bool;

/// semver's `Version::parse`: whether `text` is a semantic version. The
/// answer depends on the text alone.
#[verifier::external_body]
fn is_version(text: &str) -> (r: bool)
    ensures
        r == semver_version(text@),
{
    semver::Version::parse(text).is_ok()
}

/// semver's `VersionReq::parse`: whether `text` is a version requirement.
/// The answer depends on the text alone.
#[verifier::external_body]
fn is_requirement(text: &str) -> (r: bool)
    ensures
        r == semver_requirement(text@),
{
    semver::VersionReq::parse(text).is_ok()
}

/// semver's `VersionReq::matches` on the two texts parsed: whether the
/// version meets the requirement. Both texts must parse. The answer
/// depends on the two texts alone.
#[verifier::external_body]
fn version_matches(requirement: &str, version: &str) -> (r: bool)
    requires
        semver_requirement(requirement@),
        semver_version(version@),
    ensures
        r == semver_matches(requirement@, version@),
{
    match (semver::VersionReq::parse(requirement), semver::Version::parse(version)) {
        (Ok(req), Ok(v)) => req.matches(&v),
        _ => false,
    }
}

/// The lines `lines`, each behind a dash.
pub open spec fn dashed(lines: Seq<Seq<char>>) -> Seq<Seq<char>> {
    lines.map_values(|line: Seq<char>| "- "@ + line)
}

impl Metadata {
    /// How to reach the developers: a heading and one dashed line for each
    /// contact, or nothing where no contact is given.
    pub open spec fn contact_text(&self) -> Option<Seq<char>> {
        match self.contact {
            Some(contact) => Some(
                "Contact the developers:\n"@ + joined(dashed(texts(contact@)), "\n"@),
            ),
            None => None,
        }
    }

    /// How to reach the developers: a heading and one dashed line for each
    /// contact, or nothing where no contact is given.
    pub fn game_contact(&self) -> (r: Option<String>)
        ensures
            crate::discord::text_of(r) == self.contact_text(),
    {
        match &self.contact {
            Some(info) => {
                let mut lines: Vec<String> = Vec::new();
                let mut i: usize = 0;
                while i < info.len()
                    invariant
                        i <= info.len(),
                        lines.len() == i,
                        forall|k: int| 0 <= k < i ==> lines[k]@ == "- "@ + info[k]@,
                    decreases info.len() - i,
                {
                    let mut line = String::from_str("- ");
                    line.append(info[i].as_str());
                    lines.push(line);
                    i = i + 1;
                }
                assert(texts(lines@) =~= dashed(texts(info@)));
                let mut out = String::from_str("Contact the developers:\n");
                let body = join(&lines, "\n");
                out.append(body.as_str());
                Some(out)
            },
            None => None,
        }
    }
}

/// The versions of the engine that the game asks for.
#[derive(Debug)]
pub struct Dependencies {
    /// The version requirement on the engine, as it is written.
    pub nage: Option<String>,
}

impl Dependencies {
    /// What the check of the requirement against the engine version
    /// `nage_version` finds wrong, if anything.
    pub open spec fn fault(&self, nage_version: Seq<char>) -> Option<ManifestError> {
        match self.nage {
            Some(requirement) => if !semver_version(nage_version) {
                Some(ManifestError::InvalidEngineVersion)
            } else if !semver_requirement(requirement@) {
                Some(ManifestError::InvalidRequirement)
            } else if semver_matches(requirement@, nage_version) {
                None
            } else {
                Some(ManifestError::UnmetDependency)
            },
            None => None,
        }
    }

    /// Checks the requirement on the engine, if there is one, against the
    /// engine version `nage_version`: the version must be one, the
    /// requirement must be one, and the version must meet it.
    pub fn check(&self, nage_version: &str) -> (r: Result<(), ManifestError>)
        ensures
            match r {
                Ok(_) => self.fault(nage_version@) is None,
                Err(e) => self.fault(nage_version@) == Some(e),
            },
    {
        match &self.nage {
            Some(requirement) => {
                if !is_version(nage_version) {
                    return Err(ManifestError::InvalidEngineVersion);
                }
                if !is_requirement(requirement.as_str()) {
                    return Err(ManifestError::InvalidRequirement);
                }
                if version_matches(requirement.as_str(), nage_version) {
                    Ok(())
                } else {
                    Err(ManifestError::UnmetDependency)
                }
            },
            None => Ok(()),
        }
    }
}

impl Default for Dependencies {
    fn default() -> (d: Dependencies)
        ensures
            d.nage is None,
    {
        Dependencies { nage: None }
    }
}

/// How the player's history behaves.
#[derive(Debug)]
pub struct HistorySettings {
    /// Whether a choice that says nothing of it is locked.
    pub locked: bool,
    /// How many entries the history keeps at most. Never zero in a
    /// validated manifest.
    pub size: usize,
}

impl Default for HistorySettings {
    fn default() -> (h: HistorySettings)
        ensures
            !h.locked,
            h.size == 5,
    {
        HistorySettings { locked: false, size: 5 }
    }
}

/// How text is shown.
#[derive(Debug)]
pub struct TextSettings {
    /// The speed at which text is printed where a text says nothing of it.
    pub speed: TextSpeed,
    /// How long to wait after each text, in milliseconds.
    pub wait: Option<u64>,
    /// The display language of a new player.
    pub lang: Option<String>,
}

impl Default for TextSettings {
    fn default() -> (t: TextSettings)
        ensures
            t.speed matches TextSpeed::Delay(delay) && delay.source == ValueSource::Value(5usize),
            t.wait is None,
            t.lang is None,
    {
        TextSettings { speed: TextSpeed::Delay(TemplatableValue::value(5)), wait: None, lang: None }
    }
}

impl TextSettings {
    /// The language used where none is set.
    pub const DEFAULT_LANG: &'static str = "en_us";

    /// The display language of a new player.
    pub fn lang(&self) -> (lang: String)
        ensures
            lang@ == match self.lang {
                Some(l) => l@,
                None => "en_us"@,
            },
    {
        match &self.lang {
            Some(l) => l.clone(),
            None => "en_us".to_owned(),
        }
    }
}

/// How the game shows up in rich presence.
#[derive(Debug)]
pub struct RichPresenceSettings {
    pub enabled: bool,
    pub icon: Option<String>,
    pub mode: RichPresenceMode,
}

impl Default for RichPresenceSettings {
    fn default() -> (s: RichPresenceSettings)
        ensures
            s.enabled,
            s.icon is None,
            s.mode == RichPresenceMode::Id,
    {
        RichPresenceSettings { enabled: true, icon: None, mode: RichPresenceMode::Id }
    }
}

impl RichPresenceSettings {
    /// The application under which the game reports its presence.
    pub const APP_ID: &'static str = "1086477002770489417";
}

/// The settings of a game.
#[derive(Debug)]
pub struct Settings {
    /// Whether the player is saved on quit.
    pub save: bool,
    /// Whether debug commands are allowed.
    pub debug: bool,
    /// The sound channels, each with whether it starts enabled.
    pub channels: Option<StringMap<bool>>,
    pub history: HistorySettings,
    pub text: TextSettings,
    pub drp: RichPresenceSettings,
}

impl Default for Settings {
    fn default() -> (s: Settings)
        ensures
            s.save,
            !s.debug,
            s.channels is None,
            !s.history.locked,
            s.history.size == 5,
    {
        Settings {
            save: true,
            debug: false,
            channels: None,
            history: HistorySettings::default(),
            text: TextSettings::default(),
            drp: RichPresenceSettings::default(),
        }
    }
}

impl Settings {
    /// Whether `name` is a channel that starts enabled.
    pub open spec fn channel_enabled(&self, name: Seq<char>) -> bool {
        match self.channels {
            Some(channels) => channels@.contains_key(name) && channels@[name],
            None => false,
        }
    }

    /// The names of the sound channels that start enabled.
    pub fn enabled_audio_channels(&self) -> (enabled: Channels)
        ensures
            forall|name: Seq<char>| enabled@.contains(name) == self.channel_enabled(name),
    {
        let mut enabled = Channels::new();
        if let Some(channels) = &self.channels {
            let n = channels.len();
            let mut i: usize = 0;
            let ghost all = channels.entries();
            while i < n
                invariant
                    i <= n,
                    n == all.len(),
                    all == channels.entries(),
                    self.channels == Some(*channels),
                    forall|name: Seq<char>|
                        enabled@.contains(name) ==> self.channel_enabled(name),
                    forall|j: int|
                        0 <= j < i && (#[trigger] all[j]).1 ==> enabled@.contains(all[j].0@),
                decreases n - i,
            {
                let key = channels.key_at(i);
                if *channels.value_at(i) {
                    enabled.insert(key.clone());
                }
                i = i + 1;
            }
            proof {
                assert forall|name: Seq<char>| self.channel_enabled(name) implies enabled@.contains(
                    name,
                ) by {
                    let j = channels.index_of(name)->0;
                    assert(all[j].0@ == name);
                    assert(all[j].1);
                }
            }
        }
        enabled
    }
}

/// A sound that starts with the game.
#[derive(Debug)]
pub struct EntrypointSoundAction {
    pub name: String,
    pub channel: String,
    pub seek: Option<u64>,
    /// The playback multiplier, as it is written.
    pub speed: Option<String>,
}

impl EntrypointSoundAction {
    /// This sound as a sound action: the sound played on the channel in
    /// the default mode, with nothing left to resolve in seek and mode.
    pub fn into(self) -> (action: crate::audio::SoundAction)
        ensures
            action.name matches Some(n) && n.content == self.name,
            action.channel.content == self.channel,
            action.mode.source == crate::templating::ValueSource::Value(
                crate::audio::SoundActionMode::Passive,
            ),
            match (action.seek, self.seek) {
                (Some(a), Some(s)) => a.source == crate::templating::ValueSource::Value(s),
                (None, None) => true,
                _ => false,
            },
            match (action.speed, self.speed) {
                (Some(a), Some(s)) => a.content == s,
                (None, None) => true,
                _ => false,
            },
    {
        crate::audio::SoundAction {
            name: Some(TemplatableString::new(self.name)),
            channel: TemplatableString::new(self.channel),
            mode: crate::templating::TemplatableValue::value(crate::audio::SoundActionMode::Passive),
            seek: match self.seek {
                Some(s) => Some(crate::templating::TemplatableValue::value(s)),
                None => None,
            },
            speed: match self.speed {
                Some(s) => Some(TemplatableString::new(s)),
                None => None,
            },
        }
    }
}

/// Where and how a new player starts.
#[derive(Debug)]
pub struct Entrypoint {
    pub path: PathData,
    pub background: Option<TextLines>,
    pub notes: Option<Notes>,
    pub variables: Option<Variables>,
    pub info_pages: Option<UnlockedInfoPages>,
    pub log: Option<Vec<String>>,
    pub sounds: Option<Vec<EntrypointSoundAction>>,
}

/// The manifest of a game.
#[derive(Debug)]
pub struct Manifest {
    pub metadata: Metadata,
    pub dependencies: Dependencies,
    pub settings: Settings,
    pub entry: Entrypoint,
}

impl Manifest {
    /// The name of the manifest file.
    pub const FILE: &'static str = "nage.yml";

    /// What is wrong with the manifest, if anything: a history that keeps
    /// no entry, an engine version that is none, or a requirement on the
    /// engine that is not met.
    pub open spec fn fault(&self) -> Option<ManifestError> {
        if self.settings.history.size == 0 {
            Some(ManifestError::ZeroHistorySize)
        } else if !semver_version(NAGE_VERSION@) {
            Some(ManifestError::InvalidEngineVersion)
        } else {
            self.dependencies.fault(NAGE_VERSION@)
        }
    }

    /// Checks the manifest: the history must keep at least one entry, and
    /// the engine must meet the game's requirement on it.
    pub fn validate(&self) -> (r: Result<(), ManifestError>)
        ensures
            match r {
                Ok(_) => self.fault() is None,
                Err(e) => self.fault() == Some(e),
            },
            r is Ok ==> self.settings.history.size >= 1,
    {
        if self.settings.history.size == 0 {
            return Err(ManifestError::ZeroHistorySize);
        }
        if !is_version(NAGE_VERSION) {
            return Err(ManifestError::InvalidEngineVersion);
        }
        self.dependencies.check(NAGE_VERSION)
    }

    /// The rich presence state to report after a choice, as the game's
    /// presence mode gives it.
    pub fn rich_presence_state(
        &self,
        latest: &HistoryEntry,
        drp: Option<&TemplatableString>,
        log: Option<&str>,
        text_context: &TextContext,
    ) -> (r: Result<Option<String>, ResolutionError>)
        ensures
            (self.settings.drp.mode == RichPresenceMode::Id || drp is None || drp->0.script_free(
                text_context,
            )) ==> (r matches Ok(state) && crate::discord::text_of(state)
                == self.settings.drp.mode.state(
                *latest,
                match drp {
                    Some(d) => Some(*d),
                    None => None,
                },
                match log {
                    Some(l) => Some(l@),
                    None => None,
                },
            )),
            r matches Ok(state) ==> crate::discord::text_of(state) == self.settings.drp.mode.state(
                *latest,
                match drp {
                    Some(d) => Some(*d),
                    None => None,
                },
                match log {
                    Some(l) => Some(l@),
                    None => None,
                },
            ),
            r matches Err(e) ==> drp is Some && drp->0.fails_as(text_context, e),
    {
        self.settings.drp.mode.get_state(latest, drp, log, text_context)
    }
}

} // verus!
