//! Which address the sidecar may listen on, and which one its own probes dial.
//!
//! Looking an address up belongs to the process around this module. It looks up the
//! text that [`bind_text`] gives, as a literal address first and by name otherwise, and
//! hands in what it found.

use crate::error::{reports, Fault, SidecarError};
use crate::text::{
    chars_of, is_whitespace, law_trim, law_trim_undoes_padding, same_text, string_of, trim, trimmed,
};
use vstd::prelude::*;

verus! {

/// An address and a port. An address is the number that its octets or segments spell.
#[derive(Clone, Copy, Debug, PartialEq, Eq, Structural)]
pub enum SocketAddress {
    V4 { octets: u32, port: u16 },
    V6 { segments: u128, port: u16, flowinfo: u32, scope_id: u32 },
}

/// The IPv4 address 127.0.0.1.
pub const LOCALHOST_V4: u32 = 0x7f00_0001;

/// The IPv6 address ::1.
pub const LOCALHOST_V6: u128 = 1;

impl SocketAddress {
    /// The address that stands for every address of the host.
    pub open spec fn unspecified(self) -> bool {
        match self {
            SocketAddress::V4 { octets, .. } => octets == 0,
            SocketAddress::V6 { segments, .. } => segments == 0,
        }
    }

    /// An address that only the host itself can reach: 127.0.0.0/8 or ::1.
    pub open spec fn loopback(self) -> bool {
        match self {
            SocketAddress::V4 { octets, .. } => 0x7f00_0000 <= octets <= 0x7fff_ffff,
            SocketAddress::V6 { segments, .. } => segments == LOCALHOST_V6,
        }
    }

    pub open spec fn port_number(self) -> u16 {
        match self {
            SocketAddress::V4 { port, .. } => port,
            SocketAddress::V6 { port, .. } => port,
        }
    }

    pub fn is_unspecified(self) -> (b: bool)
        ensures
            b == self.unspecified(),
    {
        match self {
            SocketAddress::V4 { octets, .. } => octets == 0,
            SocketAddress::V6 { segments, .. } => segments == 0,
        }
    }

    pub fn is_loopback(self) -> (b: bool)
        ensures
            b == self.loopback(),
    {
        match self {
            SocketAddress::V4 { octets, .. } => 0x7f00_0000 <= octets && octets <= 0x7fff_ffff,
            SocketAddress::V6 { segments, .. } => segments == LOCALHOST_V6,
        }
    }

    pub fn port(self) -> (port: u16)
        ensures
            port == self.port_number(),
    {
        match self {
            SocketAddress::V4 { port, .. } => port,
            SocketAddress::V6 { port, .. } => port,
        }
    }
}

/// What looking up an address gave.
#[derive(Clone, Copy, Debug, PartialEq, Eq, Structural)]
pub enum AddressLookup {
    /// The literal address, or the first one that the name has.
    Found(SocketAddress),
    /// The name has no address.
    Missing,
    /// It is neither a literal address nor a name that can be looked up.
    Failed,
}

/// The text that is looked up for a configured address.
pub fn bind_text(raw: &str) -> (text: String)
    ensures
        text@ == trim(raw@),
{
    let chars = chars_of(raw);
    string_of(trimmed(chars.as_slice()))
}

/// Why a looked-up address cannot be used, where `raw` was configured. Blank text is
/// never looked up.
pub open spec fn socket_fault(raw: Seq<char>, lookup: AddressLookup) -> Option<Fault> {
    if trim(raw).len() == 0 {
        Some(Fault::UnresolvedBind(raw))
    } else {
        match lookup {
            AddressLookup::Found(_) => None,
            AddressLookup::Missing => Some(Fault::UnresolvedBind(trim(raw))),
            AddressLookup::Failed => Some(Fault::InvalidBind(trim(raw))),
        }
    }
}

fn parse_socket(raw: &str, lookup: AddressLookup) -> (outcome: Result<SocketAddress, SidecarError>)
    ensures
        reports(outcome, socket_fault(raw@, lookup)),
        outcome matches Ok(address) ==> lookup == AddressLookup::Found(address),
{
    let text = bind_text(raw);
    if text.as_str().is_empty() {
        return Err(SidecarError::UnresolvedBind { value: raw.to_owned() });
    }
    match lookup {
        AddressLookup::Found(address) => Ok(address),
        AddressLookup::Missing => Err(SidecarError::UnresolvedBind { value: text }),
        AddressLookup::Failed => Err(SidecarError::InvalidBind { value: text }),
    }
}

/// An address that may be listened on.
pub open spec fn bindable(address: SocketAddress, allow_non_loopback: bool) -> bool {
    !address.unspecified() && (address.loopback() || allow_non_loopback)
}

/// Why the sidecar may not listen on a configured address.
pub open spec fn bind_fault(
    raw: Seq<char>,
    allow_non_loopback: bool,
    lookup: AddressLookup,
) -> Option<Fault> {
    match socket_fault(trim(raw), lookup) {
        Some(fault) => Some(fault),
        None => if bindable(lookup->Found_0, allow_non_loopback) {
            None
        } else {
            Some(Fault::NonLoopbackBind(trim(raw)))
        },
    }
}

/// Admit the address to listen on. `lookup` is what looking up [`bind_text`] gave.
///
/// A public address needs `allow_non_loopback`; an unspecified one is refused in any
/// case.
pub fn parse_bind(raw: &str, allow_non_loopback: bool, lookup: AddressLookup) -> (outcome: Result<
    SocketAddress,
    SidecarError,
>)
    ensures
        reports(outcome, bind_fault(raw@, allow_non_loopback, lookup)),
        outcome matches Ok(address) ==> lookup == AddressLookup::Found(address),
{
    let text = bind_text(raw);
    let address = match parse_socket(text.as_str(), lookup) {
        Ok(address) => address,
        Err(error) => return Err(error),
    };
    if address.is_unspecified() || (!address.is_loopback() && !allow_non_loopback) {
        return Err(SidecarError::NonLoopbackBind { value: text });
    }
    Ok(address)
}

/// The loopback address of the same family, with the same port.
pub open spec fn loopback_of(address: SocketAddress) -> SocketAddress {
    match address {
        SocketAddress::V4 { port, .. } => SocketAddress::V4 { octets: LOCALHOST_V4, port },
        SocketAddress::V6 { port, .. } => SocketAddress::V6 {
            segments: LOCALHOST_V6,
            port,
            flowinfo: 0,
            scope_id: 0,
        },
    }
}

/// Address kubelet `exec` probes use: always loopback, same port as the configured one.
///
/// Kubernetes `httpGet` probes connect to the **pod IP** from the node. A
/// loopback listener is invisible to those probes. In-container `exec` of this
/// binary's `probe` command shares the pod network namespace and must dial
/// 127.0.0.1 / ::1, even if the configured text was `0.0.0.0:port`.
pub fn loopback_probe_addr(raw: &str, lookup: AddressLookup) -> (outcome: Result<
    SocketAddress,
    SidecarError,
>)
    ensures
        reports(outcome, socket_fault(raw@, lookup)),
        outcome matches Ok(address) ==> lookup is Found && address == loopback_of(lookup->Found_0),
{
    match parse_socket(raw, lookup) {
        Ok(SocketAddress::V4 { port, .. }) => Ok(
            SocketAddress::V4 { octets: LOCALHOST_V4, port },
        ),
        Ok(SocketAddress::V6 { port, .. }) => Ok(
            SocketAddress::V6 { segments: LOCALHOST_V6, port, flowinfo: 0, scope_id: 0 },
        ),
        Err(error) => Err(error),
    }
}

/// A setting that turns a switch on.
pub open spec fn switched_on(value: Option<Seq<char>>) -> bool {
    value matches Some(text) && {
        let bare = trim(text);
        bare == "1"@ || bare == "true"@ || bare == "TRUE"@ || bare == "yes"@ || bare == "YES"@
    }
}

/// Whether the environment allows a public address. `value` is the setting, where there
/// is one; whatever is not plainly on is off.
pub fn allow_non_loopback_from_env(value: Option<&str>) -> (allowed: bool)
    ensures
        allowed == switched_on(
            match value {
                Some(text) => Some(text@),
                None => None,
            },
        ),
{
    match value {
        Some(text) => {
            let bare = bind_text(text);
            same_text(bare.as_str(), "1") || same_text(bare.as_str(), "true") || same_text(
                bare.as_str(),
                "TRUE",
            ) || same_text(bare.as_str(), "yes") || same_text(bare.as_str(), "YES")
        },
        None => false,
    }
}

/// Without an explicit permission the sidecar listens on loopback addresses alone, and
/// even with one it never listens on an unspecified address.
pub proof fn law_public_addresses_need_permission(
    raw: Seq<char>,
    allow_non_loopback: bool,
    lookup: AddressLookup,
)
    requires
        bind_fault(raw, allow_non_loopback, lookup) is None,
    ensures
        lookup is Found,
        !lookup->Found_0.unspecified(),
        lookup->Found_0.loopback() || allow_non_loopback,
{
}

/// A probe always dials a loopback address, whatever was configured, and the port that
/// the listener has.
pub proof fn law_probes_stay_on_the_host(address: SocketAddress)
    ensures
        loopback_of(address).loopback(),
        !loopback_of(address).unspecified(),
        loopback_of(address).port_number() == address.port_number(),
        loopback_of(loopback_of(address)) == loopback_of(address),
{
}

/// An address that was found is admitted exactly where it is one that may be listened on. A
/// loopback address always is, in 127.0.0.0/8 or as ::1; the permission adds every other
/// address but 0.0.0.0 and ::, and takes none away.
pub proof fn law_permission_only_adds(
    raw: Seq<char>,
    address: SocketAddress,
    allow_non_loopback: bool,
)
    requires
        trim(raw).len() > 0,
    ensures
        ({
            let lookup = AddressLookup::Found(address);
            let (zero, local) = match address {
                SocketAddress::V4 { octets, .. } => (octets == 0, octets / 0x100_0000 == 127),
                SocketAddress::V6 { segments, .. } => (segments == 0, segments == 1),
            };
            &&& local ==> bind_fault(raw, allow_non_loopback, lookup) is None
            &&& !zero ==> bind_fault(raw, true, lookup) is None
            &&& zero ==> bind_fault(raw, allow_non_loopback, lookup) == Some(
                Fault::NonLoopbackBind(trim(raw)),
            )
            &&& !local ==> bind_fault(raw, false, lookup) == Some(
                Fault::NonLoopbackBind(trim(raw)),
            )
            &&& bind_fault(raw, false, lookup) is None ==> bind_fault(raw, true, lookup) is None
        }),
{
    lemma_trim_idempotent(raw);
}

proof fn lemma_trim_idempotent(s: Seq<char>)
    ensures
        trim(trim(s)) == trim(s),
{
    let none = Seq::<char>::empty();
    law_trim(s);
    law_trim_undoes_padding(none, trim(s), none);
    assert(none + trim(s) + none =~= trim(s));
}

/// Blank text is unresolved whatever was looked up, and a failed or empty lookup is reported
/// with the trimmed text, by listening and by probing alike.
pub proof fn law_failed_lookups_are_reported(
    raw: Seq<char>,
    allow_non_loopback: bool,
    lookup: AddressLookup,
)
    ensures
        trim(raw).len() == 0 ==> socket_fault(raw, lookup) == Some(Fault::UnresolvedBind(raw))
            && bind_fault(raw, allow_non_loopback, lookup) == Some(
            Fault::UnresolvedBind(trim(raw)),
        ),
        trim(raw).len() > 0 && lookup == AddressLookup::Missing ==> socket_fault(raw, lookup)
            == Some(Fault::UnresolvedBind(trim(raw))) && bind_fault(
            raw,
            allow_non_loopback,
            lookup,
        ) == Some(Fault::UnresolvedBind(trim(raw))),
        trim(raw).len() > 0 && lookup == AddressLookup::Failed ==> socket_fault(raw, lookup)
            == Some(Fault::InvalidBind(trim(raw))) && bind_fault(raw, allow_non_loopback, lookup)
            == Some(Fault::InvalidBind(trim(raw))),
        trim(raw).len() > 0 && lookup is Found ==> socket_fault(raw, lookup) is None,
{
    lemma_trim_idempotent(raw);
}

/// A probe dials 127.0.0.1 where the listener has an IPv4 address and ::1 where it has an
/// IPv6 address.
pub proof fn law_probes_dial_localhost(address: SocketAddress)
    ensures
        match (address, loopback_of(address)) {
            (SocketAddress::V4 { port, .. }, dialled) => dialled == (SocketAddress::V4 {
                octets: 0x7f00_0001,
                port,
            }),
            (SocketAddress::V6 { port, .. }, dialled) => dialled == (SocketAddress::V6 {
                segments: 1,
                port,
                flowinfo: 0,
                scope_id: 0,
            }),
        },
{
}

/// A switch is on where its setting is one of five words, with nothing but whitespace
/// around it, and off otherwise.
pub proof fn law_switches(before: Seq<char>, word: Seq<char>, after: Seq<char>)
    requires
        forall|k: int| 0 <= k < before.len() ==> is_whitespace(#[trigger] before[k]),
        forall|k: int| 0 <= k < after.len() ==> is_whitespace(#[trigger] after[k]),
        word.len() > 0 ==> !is_whitespace(word[0]) && !is_whitespace(word.last()),
    ensures
        switched_on(Some(before + word + after)) <==> {
            ||| word == "1"@
            ||| word == "true"@
            ||| word == "TRUE"@
            ||| word == "yes"@
            ||| word == "YES"@
        },
        !switched_on(None),
{
    law_trim_undoes_padding(before, word, after);
}

/// Two calls of [`parse_bind`] on one address, without and with permission: what the first one
/// admits the second one does, a loopback address passes both, and any address but the
/// unspecified one passes with permission. What is returned is the address that was found.
pub proof fn law_permission_never_refuses(
    raw: &str,
    address: SocketAddress,
    without: Result<SocketAddress, SidecarError>,
    with: Result<SocketAddress, SidecarError>,
)
    requires
        trim(raw@).len() > 0,
        call_ensures(parse_bind, (raw, false, AddressLookup::Found(address)), without),
        call_ensures(parse_bind, (raw, true, AddressLookup::Found(address)), with),
    ensures
        ({
            let (zero, local) = match address {
                SocketAddress::V4 { octets, .. } => (octets == 0, octets / 0x100_0000 == 127),
                SocketAddress::V6 { segments, .. } => (segments == 0, segments == 1),
            };
            &&& without is Ok <==> local
            &&& with is Ok <==> !zero
            &&& without is Ok ==> with == without
            &&& with is Ok ==> with->Ok_0 == address
        }),
{
    law_permission_only_adds(raw@, address, true);
    law_permission_only_adds(raw@, address, false);
}

} // verus!
