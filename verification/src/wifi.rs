//! How the board configures its Wi-Fi from a scan, and when it counts the
//! Wi-Fi as up.

use vstd::prelude::*;
use vstd::string::StringExecFns;

verus! {

/// An access point found by a scan.
#[derive(Debug, PartialEq, Eq)]
pub struct AccessPointInfo {
    pub ssid: String,
    pub channel: u8,
}

/// The channel of the first access point in `aps` named `ssid`.
pub open spec fn channel_of(aps: Seq<AccessPointInfo>, ssid: Seq<char>) -> Option<u8>
    decreases aps.len(),
{
    if aps.len() == 0 {
        None
    } else if aps[0].ssid@ == ssid {
        Some(aps[0].channel)
    } else {
        channel_of(aps.drop_first(), ssid)
    }
}

proof fn lemma_channel_of_first_match(aps: Seq<AccessPointInfo>, ssid: Seq<char>, k: int)
    requires
        0 <= k < aps.len(),
        aps[k].ssid@ == ssid,
        forall|j: int| 0 <= j < k ==> #[trigger] aps[j].ssid@ != ssid,
    ensures
        channel_of(aps, ssid) == Some(aps[k].channel),
    decreases k,
{
    if k > 0 {
        let rest = aps.drop_first();
        assert(aps[0].ssid@ != ssid);
        assert forall|j: int| 0 <= j < k - 1 implies #[trigger] rest[j].ssid@ != ssid by {
            assert(rest[j] == aps[j + 1]);
        }
        assert(rest[k - 1] == aps[k]);
        lemma_channel_of_first_match(rest, ssid, k - 1);
    }
}

proof fn lemma_channel_of_none(aps: Seq<AccessPointInfo>, ssid: Seq<char>)
    requires
        forall|j: int| 0 <= j < aps.len() ==> #[trigger] aps[j].ssid@ != ssid,
    ensures
        channel_of(aps, ssid) is None,
    decreases aps.len(),
{
    if aps.len() > 0 {
        let rest = aps.drop_first();
        assert(aps[0].ssid@ != ssid);
        assert forall|j: int| 0 <= j < rest.len() implies #[trigger] rest[j].ssid@ != ssid by {
            assert(rest[j] == aps[j + 1]);
        }
        lemma_channel_of_none(rest, ssid);
    }
}

/// The channel chosen from a scan is that of the first access point named
/// `ssid`, whatever the names (empty ones included) of the others: when
/// entry `k` is named `ssid` and no entry before it is, the channel is
/// entry `k`'s; and there is no channel exactly when no entry is named
/// `ssid`.
pub proof fn law_channel_is_first_match(aps: Seq<AccessPointInfo>, ssid: Seq<char>)
    ensures
        forall|k: int|
            0 <= k < aps.len() && #[trigger] aps[k].ssid@ == ssid
                && (forall|j: int| 0 <= j < k ==> aps[j].ssid@ != ssid)
                ==> channel_of(aps, ssid) == Some(aps[k].channel),
        (channel_of(aps, ssid) is None) <==> (forall|j: int| 0 <= j < aps.len() ==> #[trigger] aps[j].ssid@ != ssid),
{
    assert forall|k: int|
        0 <= k < aps.len() && #[trigger] aps[k].ssid@ == ssid
            && (forall|j: int| 0 <= j < k ==> aps[j].ssid@ != ssid)
        implies channel_of(aps, ssid) == Some(aps[k].channel) by {
        lemma_channel_of_first_match(aps, ssid, k);
    }
    if forall|j: int| 0 <= j < aps.len() ==> #[trigger] aps[j].ssid@ != ssid {
        lemma_channel_of_none(aps, ssid);
    } else {
        let k0 = choose|k: int| 0 <= k < aps.len() && !(aps[k].ssid@ != ssid);
        let k = first_match_index(aps, ssid, k0);
        lemma_channel_of_first_match(aps, ssid, k);
    }
}

/// The least index at or below `k` whose entry is named `ssid`, given that
/// entry `k` is.
proof fn first_match_index(aps: Seq<AccessPointInfo>, ssid: Seq<char>, k: int) -> (r: int)
    requires
        0 <= k < aps.len(),
        aps[k].ssid@ == ssid,
    ensures
        0 <= r <= k,
        aps[r].ssid@ == ssid,
        forall|j: int| 0 <= j < r ==> #[trigger] aps[j].ssid@ != ssid,
    decreases k,
{
    if exists|j: int| 0 <= j < k && #[trigger] aps[j].ssid@ == ssid {
        let j = choose|j: int| 0 <= j < k && #[trigger] aps[j].ssid@ == ssid;
        first_match_index(aps, ssid, j)
    } else {
        k
    }
}

/// The channel of the first access point of the scan named `ssid`, if any.
pub fn find_channel(aps: &Vec<AccessPointInfo>, ssid: &String) -> (r: Option<u8>)
    ensures
        r == channel_of(aps@, ssid@),
{
    let mut i: usize = 0;
    assert(aps@.skip(0) =~= aps@);
    while i < aps.len()
        invariant
            i <= aps@.len(),
            channel_of(aps@, ssid@) == channel_of(aps@.skip(i as int), ssid@),
        decreases aps@.len() - i,
    {
        assert(aps@.skip(i as int).drop_first() =~= aps@.skip(i + 1));
        if aps[i].ssid == *ssid {
            return Some(aps[i].channel);
        }
        i = i + 1;
    }
    None
}

/// The station side of the configuration.
#[derive(Debug, PartialEq, Eq)]
pub struct ClientConfiguration {
    pub ssid: String,
    pub password: String,
    pub channel: Option<u8>,
}

/// The access-point side of the configuration.
#[derive(Debug, PartialEq, Eq)]
pub struct AccessPointConfiguration {
    pub ssid: String,
    pub channel: u8,
}

/// A mixed configuration: station and access point at once.
#[derive(Debug, PartialEq, Eq)]
pub struct WifiConfiguration {
    pub client: ClientConfiguration,
    pub access_point: AccessPointConfiguration,
}

/// The configuration chosen from a scan: join `ssid` on the channel where
/// the scan found it (any channel if it did not), and open the access point
/// "aptest" on that channel, or on channel 1.
pub fn wifi_configuration(aps: &Vec<AccessPointInfo>, ssid: &String, password: &String) -> (r: WifiConfiguration)
    ensures
        r.client.ssid@ == ssid@,
        r.client.password@ == password@,
        r.client.channel == channel_of(aps@, ssid@),
        r.access_point.ssid@ == "aptest"@,
        r.access_point.channel == match channel_of(aps@, ssid@) {
            Some(c) => c,
            None => 1u8,
        },
{
    let channel = find_channel(aps, ssid);
    let ap_channel: u8 = match channel {
        Some(c) => c,
        None => 1,
    };
    WifiConfiguration {
        client: ClientConfiguration { ssid: ssid.clone(), password: password.clone(), channel },
        access_point: AccessPointConfiguration { ssid: String::from_str("aptest"), channel: ap_channel },
    }
}

/// The IP state of the station.
#[derive(Debug, Clone, Copy, PartialEq, Eq)]
pub enum ClientIpStatus {
    Disabled,
    Waiting,
    /// An address was obtained.
    Done([u8; 4]),
}

/// The connection state of the station.
#[derive(Debug, Clone, Copy, PartialEq, Eq)]
pub enum ClientConnectionStatus {
    Disconnected,
    Connecting,
    Connected(ClientIpStatus),
}

/// The state of the station.
#[derive(Debug, Clone, Copy, PartialEq, Eq)]
pub enum ClientStatus {
    Stopped,
    Starting,
    Started(ClientConnectionStatus),
}

/// The IP state of the access point.
#[derive(Debug, Clone, Copy, PartialEq, Eq)]
pub enum ApIpStatus {
    Disabled,
    Waiting,
    Done,
}

/// The state of the access point.
#[derive(Debug, Clone, Copy, PartialEq, Eq)]
pub enum ApStatus {
    Stopped,
    Starting,
    Started(ApIpStatus),
}

/// The state of both sides.
#[derive(Debug, Clone, Copy, PartialEq, Eq)]
pub struct WifiStatus {
    pub client: ClientStatus,
    pub access_point: ApStatus,
}

/// Why the Wi-Fi is not counted as up.
#[derive(Debug, Clone, Copy, PartialEq, Eq)]
pub enum WifiError {
    /// The status after the wait is not the connected one.
    UnexpectedStatus(WifiStatus),
}

/// The Wi-Fi is up when the station is connected with an address and the
/// access point has its address: then the station's address is returned.
pub fn check_wifi_status(status: WifiStatus) -> (r: Result<[u8; 4], WifiError>)
    ensures
        match status {
            WifiStatus {
                client: ClientStatus::Started(ClientConnectionStatus::Connected(ClientIpStatus::Done(ip))),
                access_point: ApStatus::Started(ApIpStatus::Done),
            } => r == Ok::<[u8; 4], WifiError>(ip),
            _ => r == Err::<[u8; 4], WifiError>(WifiError::UnexpectedStatus(status)),
        },
{
    match status {
        WifiStatus {
            client: ClientStatus::Started(ClientConnectionStatus::Connected(ClientIpStatus::Done(ip))),
            access_point: ApStatus::Started(ApIpStatus::Done),
        } => Ok(ip),
        _ => Err(WifiError::UnexpectedStatus(status)),
    }
}

} // verus!
