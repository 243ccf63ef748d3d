use vstd::prelude::*;
use crate::error::ProtocolError;
use crate::models::{Player, Players, StatusResponse, Version};

verus! {

/// `serde_json::Error`, which the encoder hands back when it writes no text. It is
/// carried to where it is turned into `SerializationFailure`, and never looked into.
#[verifier::external_type_specification]
#[verifier::external_body]
pub struct ExJsonError(serde_json::Error);

/// The JSON text that `serde_json` writes for a string: the string between quotes,
/// escaped as JSON asks. `None` where it writes none.
pub uninterp spec fn json_string_text(s: Seq<char>) -> Option<Seq<char>>;

/// The JSON text that `serde_json` writes for a 32-bit integer. `None` where it
/// writes none.
pub uninterp spec fn json_integer_text(n: int) -> Option<Seq<char>>;

/// `serde_json::to_string` on a string slice. Nothing is proved of it: the contract
/// only names its answer, `json_string_text` of the argument, and ties an error to
/// there being no such text.
#[verifier::external_body]
fn serialize_str(s: &str) -> (r: Result<String, serde_json::Error>)
    ensures
        match r {
            Ok(text) => json_string_text(s@) == Some(text@),
            Err(_) => json_string_text(s@) is None,
        },
{
    serde_json::to_string(s)
}

/// `serde_json::to_string` on an `i32`. Nothing is proved of it: the contract only
/// names its answer, `json_integer_text` of the argument, and ties an error to
/// there being no such text.
#[verifier::external_body]
fn serialize_i32(n: i32) -> (r: Result<String, serde_json::Error>)
    ensures
        match r {
            Ok(text) => json_integer_text(n as int) == Some(text@),
            Err(_) => json_integer_text(n as int) is None,
        },
{
    serde_json::to_string(&n)
}

/// The outcome of an encoder call, in the library's own terms: the text it wrote,
/// or `SerializationFailure`.
pub open spec fn encoded(r: Result<String, ProtocolError>, text: Option<Seq<char>>) -> bool {
    match r {
        Ok(written) => text == Some(written@),
        Err(e) => text is None && e == ProtocolError::SerializationFailure,
    }
}

/// A string as JSON text.
pub fn json_string(s: &str) -> (r: Result<String, ProtocolError>)
    ensures
        encoded(r, json_string_text(s@)),
{
    match serialize_str(s) {
        Ok(text) => Ok(text),
        Err(_) => Err(ProtocolError::SerializationFailure),
    }
}

/// An integer as JSON text.
pub fn json_integer(n: i32) -> (r: Result<String, ProtocolError>)
    ensures
        encoded(r, json_integer_text(n as int)),
{
    match serialize_i32(n) {
        Ok(text) => Ok(text),
        Err(_) => Err(ProtocolError::SerializationFailure),
    }
}

/// The texts of `items` in a row, with a comma between each two.
pub open spec fn comma_separated(items: Seq<Seq<char>>) -> Seq<char>
    decreases items.len(),
{
    if items.len() == 0 {
        Seq::empty()
    } else if items.len() == 1 {
        items[0]
    } else {
        comma_separated(items.drop_last()) + ","@ + items.last()
    }
}

/// A JSON array of values that are already JSON text.
pub open spec fn array_text(items: Seq<Seq<char>>) -> Seq<char> {
    "["@ + comma_separated(items) + "]"@
}

/// The object that announces a version.
pub open spec fn version_object(name: Seq<char>, protocol: Seq<char>) -> Seq<char> {
    "{\"name\":"@ + name + ",\"protocol\":"@ + protocol + "}"@
}

/// The object that lists one player.
pub open spec fn player_object(name: Seq<char>, id: Seq<char>) -> Seq<char> {
    "{\"name\":"@ + name + ",\"id\":"@ + id + "}"@
}

/// The object that announces the player counts; `sample` is left out when absent.
pub open spec fn players_object(
    max: Seq<char>,
    online: Seq<char>,
    sample: Option<Seq<char>>,
) -> Seq<char> {
    "{\"max\":"@ + max + ",\"online\":"@ + online + match sample {
        Some(list) => ",\"sample\":"@ + list,
        None => Seq::empty(),
    } + "}"@
}

/// The status document; members that are absent are left out.
pub open spec fn status_object(
    version: Seq<char>,
    players: Option<Seq<char>>,
    description: Option<Seq<char>>,
    favicon: Option<Seq<char>>,
) -> Seq<char> {
    "{\"version\":"@ + version + match players {
        Some(text) => ",\"players\":"@ + text,
        None => Seq::empty(),
    } + match description {
        Some(text) => ",\"description\":"@ + text,
        None => Seq::empty(),
    } + match favicon {
        Some(text) => ",\"favicon\":"@ + text,
        None => Seq::empty(),
    } + "}"@
}

/// The document that tells a client why it was disconnected.
pub open spec fn reason_object(text: Seq<char>) -> Seq<char> {
    "{\"text\":"@ + text + "}"@
}

/// The views of the strings of `items`, in order.
pub open spec fn texts(items: Seq<String>) -> Seq<Seq<char>> {
    Seq::new(items.len(), |i: int| items[i]@)
}

/// Writes a JSON array from values that are already JSON text.
pub fn write_array(items: &Vec<String>) -> (text: String)
    ensures
        text@ == array_text(texts(items@)),
{
    let mut text = String::from_str("[");
    let mut i: usize = 0;
    while i < items.len()
        invariant
            i <= items@.len(),
            text@ == "["@ + comma_separated(texts(items@).take(i as int)),
        decreases items@.len() - i,
    {
        let ghost before = texts(items@).take(i as int);
        let ghost after = texts(items@).take(i + 1);
        assert(after.drop_last() =~= before);
        if i > 0 {
            text.append(",");
        }
        text.append(items[i].as_str());
        i = i + 1;
    }
    assert(texts(items@).take(i as int) =~= texts(items@));
    text.append("]");
    text
}

/// Writes the object that announces a version, from JSON text for each member.
pub fn write_version_object(name: &str, protocol: &str) -> (text: String)
    ensures
        text@ == version_object(name@, protocol@),
{
    let mut text = String::from_str("{\"name\":");
    text.append(name);
    text.append(",\"protocol\":");
    text.append(protocol);
    text.append("}");
    text
}

/// Writes the object that lists one player, from JSON text for each member.
pub fn write_player_object(name: &str, id: &str) -> (text: String)
    ensures
        text@ == player_object(name@, id@),
{
    let mut text = String::from_str("{\"name\":");
    text.append(name);
    text.append(",\"id\":");
    text.append(id);
    text.append("}");
    text
}

/// Writes the object that announces the player counts, from JSON text for each
/// member. No `sample` member is written when `sample` is `None`.
pub fn write_players_object(max: &str, online: &str, sample: Option<&str>) -> (text: String)
    ensures
        text@ == players_object(
            max@,
            online@,
            match sample {
                Some(list) => Some(list@),
                None => None,
            },
        ),
{
    let mut text = String::from_str("{\"max\":");
    text.append(max);
    text.append(",\"online\":");
    text.append(online);
    if let Some(list) = sample {
        text.append(",\"sample\":");
        text.append(list);
    }
    text.append("}");
    text
}

/// The view of a text that may be absent.
pub open spec fn text_of(s: Option<&str>) -> Option<Seq<char>> {
    match s {
        Some(text) => Some(text@),
        None => None,
    }
}

/// Writes the status document, from JSON text for each member. A member that is
/// `None` is not written at all.
pub fn write_status_object(
    version: &str,
    players: Option<&str>,
    description: Option<&str>,
    favicon: Option<&str>,
) -> (text: String)
    ensures
        text@ == status_object(version@, text_of(players), text_of(description), text_of(favicon)),
{
    let mut text = String::from_str("{\"version\":");
    text.append(version);
    if let Some(member) = players {
        text.append(",\"players\":");
        text.append(member);
    }
    if let Some(member) = description {
        text.append(",\"description\":");
        text.append(member);
    }
    if let Some(member) = favicon {
        text.append(",\"favicon\":");
        text.append(member);
    }
    text.append("}");
    text
}

/// Writes the disconnect reason, from JSON text for the message.
pub fn write_reason_object(message: &str) -> (text: String)
    ensures
        text@ == reason_object(message@),
{
    let mut text = String::from_str("{\"text\":");
    text.append(message);
    text.append("}");
    text
}

impl Version {
    /// The version member of the status document sent to a client that speaks
    /// `client_protocol`.
    pub open spec fn json_text(&self, client_protocol: i32) -> Option<Seq<char>> {
        match (
            json_string_text(self.name_text()),
            json_integer_text(self.protocol_for(client_protocol) as int),
        ) {
            (Some(name), Some(protocol)) => Some(version_object(name, protocol)),
            _ => None,
        }
    }

    /// Writes the version member for a client that speaks `client_protocol`.
    pub fn to_json(&self, client_protocol: i32) -> (r: Result<String, ProtocolError>)
        ensures
            encoded(r, self.json_text(client_protocol)),
    {
        let name = match json_string(self.name()) {
            Ok(text) => text,
            Err(e) => { return Err(e); },
        };
        let protocol = match json_integer(self.protocol(client_protocol)) {
            Ok(text) => text,
            Err(e) => { return Err(e); },
        };
        Ok(write_version_object(name.as_str(), protocol.as_str()))
    }
}

impl Player {
    /// One entry of the player sample.
    pub open spec fn json_text(&self) -> Option<Seq<char>> {
        match (json_string_text(self.name@), json_string_text(self.id@)) {
            (Some(name), Some(id)) => Some(player_object(name, id)),
            _ => None,
        }
    }

    /// Writes this player as an entry of the sample.
    pub fn to_json(&self) -> (r: Result<String, ProtocolError>)
        ensures
            encoded(r, self.json_text()),
    {
        let name = match json_string(self.name.as_str()) {
            Ok(text) => text,
            Err(e) => { return Err(e); },
        };
        let id = match json_string(self.id.as_str()) {
            Ok(text) => text,
            Err(e) => { return Err(e); },
        };
        Ok(write_player_object(name.as_str(), id.as_str()))
    }
}

/// The entries of a player sample, in order; `None` if any of them has no text.
pub open spec fn sample_texts(sample: Seq<Player>) -> Option<Seq<Seq<char>>>
    decreases sample.len(),
{
    if sample.len() == 0 {
        Some(Seq::empty())
    } else {
        match (sample_texts(sample.drop_last()), sample.last().json_text()) {
            (Some(entries), Some(entry)) => Some(entries.push(entry)),
            _ => None,
        }
    }
}

/// Once an entry has no text, no longer sample has.
proof fn lemma_sample_texts_fail(sample: Seq<Player>, n: int)
    requires
        0 <= n <= sample.len(),
        sample_texts(sample.take(n)) is None,
    ensures
        sample_texts(sample) is None,
    decreases sample.len() - n,
{
    if n < sample.len() {
        assert(sample.take(n + 1).drop_last() =~= sample.take(n));
        lemma_sample_texts_fail(sample, n + 1);
    } else {
        assert(sample.take(n) =~= sample);
    }
}

/// Writes the player sample as a JSON array.
pub fn write_sample(sample: &Vec<Player>) -> (r: Result<String, ProtocolError>)
    ensures
        encoded(
            r,
            match sample_texts(sample@) {
                Some(entries) => Some(array_text(entries)),
                None => None,
            },
        ),
{
    let mut entries: Vec<String> = Vec::new();
    let mut i: usize = 0;
    while i < sample.len()
        invariant
            i <= sample@.len(),
            sample_texts(sample@.take(i as int)) == Some(texts(entries@)),
        decreases sample@.len() - i,
    {
        assert(sample@.take(i + 1).drop_last() =~= sample@.take(i as int));
        match sample[i].to_json() {
            Ok(entry) => {
                entries.push(entry);
            },
            Err(e) => {
                proof {
                    lemma_sample_texts_fail(sample@, i + 1);
                }
                return Err(e);
            },
        }
        i = i + 1;
    }
    assert(sample@.take(i as int) =~= sample@);
    Ok(write_array(&entries))
}

impl Players {
    /// The players member of the status document.
    pub open spec fn json_text(&self) -> Option<Seq<char>> {
        match (json_integer_text(self.max as int), json_integer_text(self.online as int)) {
            (Some(max), Some(online)) => match self.sample {
                None => Some(players_object(max, online, None)),
                Some(sample) => match sample_texts(sample@) {
                    Some(entries) => Some(players_object(max, online, Some(array_text(entries)))),
                    None => None,
                },
            },
            _ => None,
        }
    }

    /// Writes the players member.
    pub fn to_json(&self) -> (r: Result<String, ProtocolError>)
        ensures
            encoded(r, self.json_text()),
    {
        let max = match json_integer(self.max) {
            Ok(text) => text,
            Err(e) => { return Err(e); },
        };
        let online = match json_integer(self.online) {
            Ok(text) => text,
            Err(e) => { return Err(e); },
        };
        match &self.sample {
            None => Ok(write_players_object(max.as_str(), online.as_str(), None)),
            Some(sample) => match write_sample(sample) {
                Ok(list) => Ok(
                    write_players_object(max.as_str(), online.as_str(), Some(list.as_str())),
                ),
                Err(e) => Err(e),
            },
        }
    }
}

/// The JSON text of a string that may be absent: `Some(None)` for no string, `None`
/// for a string that has no text.
pub open spec fn optional_string_text(s: Option<String>) -> Option<Option<Seq<char>>> {
    match s {
        None => Some(None),
        Some(present) => match json_string_text(present@) {
            Some(text) => Some(Some(text)),
            None => None,
        },
    }
}

impl StatusResponse {
    /// The status document sent to a client that speaks `client_protocol`: the
    /// version with the protocol number that this client is owed, then the players,
    /// the message of the day as `description` and the favicon, each where present.
    pub open spec fn json_text(&self, client_protocol: i32) -> Option<Seq<char>> {
        match (
            self.version.json_text(client_protocol),
            match self.players {
                None => Some(None),
                Some(players) => match players.json_text() {
                    Some(text) => Some(Some(text)),
                    None => None,
                },
            },
            optional_string_text(self.motd),
            optional_string_text(self.favicon),
        ) {
            (Some(version), Some(players), Some(description), Some(favicon)) => Some(
                status_object(version, players, description, favicon),
            ),
            _ => None,
        }
    }

    /// Writes the status document for a client that speaks `client_protocol`.
    pub fn to_json(&self, client_protocol: i32) -> (r: Result<String, ProtocolError>)
        ensures
            encoded(r, self.json_text(client_protocol)),
    {
        let version = match self.version.to_json(client_protocol) {
            Ok(text) => text,
            Err(e) => { return Err(e); },
        };
        let players: Option<String> = match &self.players {
            None => None,
            Some(players) => match players.to_json() {
                Ok(text) => Some(text),
                Err(e) => { return Err(e); },
            },
        };
        let description: Option<String> = match &self.motd {
            None => None,
            Some(motd) => match json_string(motd.as_str()) {
                Ok(text) => Some(text),
                Err(e) => { return Err(e); },
            },
        };
        let favicon: Option<String> = match &self.favicon {
            None => None,
            Some(favicon) => match json_string(favicon.as_str()) {
                Ok(text) => Some(text),
                Err(e) => { return Err(e); },
            },
        };
        Ok(
            write_status_object(
                version.as_str(),
                borrowed(&players),
                borrowed(&description),
                borrowed(&favicon),
            ),
        )
    }
}

/// A text that may be absent, borrowed.
fn borrowed(s: &Option<String>) -> (r: Option<&str>)
    ensures
        text_of(r) == match *s {
            Some(text) => Some(text@),
            None => None,
        },
{
    match s {
        Some(text) => Some(text.as_str()),
        None => None,
    }
}

/// The document that tells a client it was disconnected, with `message` as its
/// text.
pub open spec fn disconnect_text(message: Seq<char>) -> Option<Seq<char>> {
    match json_string_text(message) {
        Some(text) => Some(reason_object(text)),
        None => None,
    }
}

/// Writes the disconnect reason for `message`.
pub fn disconnect_json(message: &str) -> (r: Result<String, ProtocolError>)
    ensures
        encoded(r, disconnect_text(message@)),
{
    match json_string(message) {
        Ok(text) => Ok(write_reason_object(text.as_str())),
        Err(e) => Err(e),
    }
}

} // verus!
