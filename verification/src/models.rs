use vstd::prelude::*;

verus! {

/// The version name that is announced when the template gives none.
pub const DEFAULT_VERSION_NAME: &'static str = "1.19.4";

/// The status document that is announced to clients, as configured.
#[derive(Clone)]
pub struct StatusResponse {
    /// The version that the server claims to run.
    pub version: Version,
    /// The player counts, if any are announced.
    pub players: Option<Players>,
    /// The message of the day; it is announced as the document's description.
    pub motd: Option<String>,
    /// The server icon, as a data URI.
    pub favicon: Option<String>,
}

/// The version part of the template.
#[derive(Clone)]
pub struct Version {
    /// A fixed name and protocol number.
    pub info: Option<VersionInfo>,
    /// Whether to answer every client with its own protocol number.
    pub same: Option<bool>,
}

/// A version by name and protocol number.
#[derive(Clone)]
pub struct VersionInfo {
    /// The name shown to the client.
    pub name: String,
    /// The protocol number, where one is fixed.
    pub protocol: Option<i32>,
}

/// The player counts, and the players shown on hover.
#[derive(Clone)]
pub struct Players {
    /// The number of slots.
    pub max: i32,
    /// The number of players said to be online.
    pub online: i32,
    /// The players listed by name.
    pub sample: Option<Vec<Player>>,
}

/// One listed player.
#[derive(Clone)]
pub struct Player {
    /// The player's name.
    pub name: String,
    /// The player's UUID.
    pub id: String,
}

impl Default for Version {
    /// No fixed version: every client is answered with its own protocol number.
    fn default() -> (version: Self)
        ensures
            version.info is None,
            version.same == Some(true),
    {
        Version { info: None, same: Some(true) }
    }
}

impl Version {
    /// Whether the protocol number is taken from the client: when the template asks
    /// for it, and when it fixes no number.
    pub open spec fn echoes_client(&self) -> bool {
        ||| self.same == Some(true)
        ||| self.info is None
        ||| self.info->0.protocol is None
    }

    /// The protocol number announced to a client that speaks `client_protocol`.
    pub open spec fn protocol_for(&self, client_protocol: i32) -> i32 {
        if self.echoes_client() {
            client_protocol
        } else {
            self.info->0.protocol->0
        }
    }

    /// The version name announced.
    pub open spec fn name_text(&self) -> Seq<char> {
        match self.info {
            Some(info) => info.name@,
            None => DEFAULT_VERSION_NAME@,
        }
    }

    /// The protocol number to announce to a client that speaks `client_protocol`:
    /// the client's own where the template echoes it, the configured one otherwise.
    pub fn protocol(&self, client_protocol: i32) -> (protocol: i32)
        ensures
            protocol == self.protocol_for(client_protocol),
    {
        match self.same {
            Some(true) => client_protocol,
            _ => match &self.info {
                Some(info) => match info.protocol {
                    Some(fixed) => fixed,
                    None => client_protocol,
                },
                None => client_protocol,
            },
        }
    }

    /// The version name to announce: the configured one, or the default.
    pub fn name(&self) -> (name: &str)
        ensures
            name@ == self.name_text(),
    {
        match &self.info {
            Some(info) => info.name.as_str(),
            None => DEFAULT_VERSION_NAME,
        }
    }
}

} // verus!
