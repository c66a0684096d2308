//! Acting on one device or client, and authorizing a guest: what is refused,
//! what is previewed, and what is sent.

use vstd::prelude::*;
use vstd::string::*;

use crate::clients::{client_is_connected, connected_at, ActiveClient};
use crate::devices::DeviceDetail;
use crate::display::{mac_form, normalize_mac, normalize_option, opt_mac_form};
use crate::error::{invalid_params, is_invalid_params, ToolError};
use crate::rows::{find, first_where};
use crate::text::{chars_of, hex_digit, is_hex_digit, opt_string, same_text, texts};

verus! {

// ---------------------------------------------------------------------------
// Addresses
// ---------------------------------------------------------------------------

/// Whether a position of an address holds a colon.
pub open spec fn is_separator(at: int) -> bool {
    at % 3 == 2
}

/// Whether a hexadecimal digit is even.
pub open spec fn is_even_digit(c: char) -> bool {
    ||| c == '0'
    ||| c == '2'
    ||| c == '4'
    ||| c == '6'
    ||| c == '8'
    ||| c == 'a'
    ||| c == 'c'
    ||| c == 'e'
    ||| c == 'A'
    ||| c == 'C'
    ||| c == 'E'
}

/// Whether a text is six colon-separated octets of two hexadecimal digits.
pub open spec fn is_mac(text: Seq<char>) -> bool {
    &&& text.len() == 17
    &&& forall|i: int|
        0 <= i < 17 ==> if is_separator(i) {
            #[trigger] text[i] == ':'
        } else {
            is_hex_digit(text[i])
        }
}

/// Whether a text is the address of one client: a unicast address that is
/// not all zero. The low bit of the first octet marks a group address, and
/// the all-zero address is the placeholder a controller reports when it has
/// none; neither names one client.
pub open spec fn names_one_client(text: Seq<char>) -> bool {
    &&& is_mac(text)
    &&& is_even_digit(text[1])
    &&& exists|i: int| 0 <= i < 17 && !is_separator(i) && #[trigger] text[i] != '0'
}

fn even_digit(c: char) -> (result: bool)
    ensures
        result == is_even_digit(c),
{
    c == '0' || c == '2' || c == '4' || c == '6' || c == '8' || c == 'a' || c == 'c' || c == 'e'
        || c == 'A' || c == 'C' || c == 'E'
}

/// Whether a text is the address of one client.
pub fn is_client_address(value: &str) -> (result: bool)
    ensures
        result == names_one_client(value@),
{
    let chars = chars_of(value);
    if chars.len() != 17 {
        return false;
    }
    let mut i: usize = 0;
    let mut all_zero = true;
    while i < 17
        invariant
            i <= 17,
            chars@ == value@,
            chars@.len() == 17,
            forall|k: int|
                0 <= k < i ==> if is_separator(k) {
                    #[trigger] chars@[k] == ':'
                } else {
                    is_hex_digit(chars@[k])
                },
            all_zero == forall|k: int|
                0 <= k < i && !is_separator(k) ==> #[trigger] chars@[k] == '0',
        decreases 17 - i,
    {
        if i % 3 == 2 {
            if chars[i] != ':' {
                assert(is_separator(i as int) && value@[i as int] != ':');
                return false;
            }
        } else {
            if !hex_digit(chars[i]) {
                assert(!is_separator(i as int) && !is_hex_digit(value@[i as int]));
                return false;
            }
            if chars[i] != '0' {
                assert(!is_separator(i as int) && chars@[i as int] != '0');
                all_zero = false;
            }
        }
        i += 1;
    }
    even_digit(chars[1]) && !all_zero
}

/// The refusal of an address that names no client, for a guest.
pub open spec fn guest_address_message() -> Seq<char> {
    "client must be the unicast MAC address of one client, such as aa:bb:cc:dd:ee:ff, as clients.search reports it"@
}

/// The refusal of an address that names no client, for a client action.
pub open spec fn client_address_message() -> Seq<char> {
    "client must be the unicast MAC address of one client, such as aa:bb:cc:dd:ee:ff, as clients.search reports it; a group or broadcast address names no client"@
}

/// Neither the broadcast address, nor the all-zero placeholder, nor any
/// address of which the first octet is odd names a client.
pub proof fn law_group_addresses_name_no_client(text: Seq<char>)
    requires
        names_one_client(text),
    ensures
        text != "ff:ff:ff:ff:ff:ff"@,
        text != "00:00:00:00:00:00"@,
        is_even_digit(text[1]),
{
    reveal_strlit("ff:ff:ff:ff:ff:ff");
    reveal_strlit("00:00:00:00:00:00");
    assert("ff:ff:ff:ff:ff:ff"@[1] == 'f');
    if text == "00:00:00:00:00:00"@ {
        assert forall|i: int| 0 <= i < 17 && !is_separator(i) implies #[trigger] text[i]
            == '0' by {}
    }
}

// ---------------------------------------------------------------------------
// Guests
// ---------------------------------------------------------------------------

/// What authorizing a guest answers.
pub struct GuestsAuthorizeOutput {
    pub client: String,
    pub applied: bool,
    pub verifiable: bool,
    pub warnings: Vec<String>,
}

/// The consequence of authorizing a guest.
pub open spec fn guest_warning() -> Seq<char> {
    "the client gains access to the guest network until its authorization expires or is revoked on the controller"@
}

/// The comparable address of the client to authorize.
pub fn guest_address(client: &str) -> (result: Result<String, ToolError>)
    ensures
        result is Ok <==> names_one_client(mac_form(client@)),
        result matches Ok(address) ==> address@ == mac_form(client@),
        result matches Err(error) ==> is_invalid_params(error, guest_address_message()),
{
    let address = normalize_mac(client);
    if !is_client_address(address.as_str()) {
        return Err(
            invalid_params(
                "client must be the unicast MAC address of one client, such as aa:bb:cc:dd:ee:ff, as clients.search reports it",
            ),
        );
    }
    Ok(address)
}

/// What authorizing a guest answers: the effect cannot be read back, so it
/// says that it is not verifiable, applied or not.
pub fn guests_authorize(address: String, applied: bool) -> (output: GuestsAuthorizeOutput)
    ensures
        output.client == address,
        output.applied == applied,
        !output.verifiable,
        texts(output.warnings@) == seq![guest_warning()],
{
    let mut warnings: Vec<String> = Vec::new();
    warnings.push(
        "the client gains access to the guest network until its authorization expires or is revoked on the controller".to_owned(),
    );
    assert(texts(warnings@) =~= seq![guest_warning()]);
    GuestsAuthorizeOutput { client: address, applied, verifiable: false, warnings }
}

/// A request to authorize a guest.
pub struct GuestsAuthorizeInput {
    pub client: String,
    pub confirm: Option<bool>,
}

/// What follows a request to authorize a guest.
pub enum GuestStep {
    /// Answer with this; nothing is authorized.
    Answer(GuestsAuthorizeOutput),
    /// Authorize the client at this address.
    Authorize(String),
}

/// What follows a request to authorize a guest: its refusal, a description of
/// the action, or, only where the call was confirmed, the order to perform it.
pub fn guest_step(input: &GuestsAuthorizeInput) -> (result: Result<GuestStep, ToolError>)
    ensures
        result is Err <==> !names_one_client(mac_form(input.client@)),
        match result {
            Err(error) => is_invalid_params(error, guest_address_message()),
            Ok(GuestStep::Authorize(address)) => confirmed(input.confirm) && address@ == mac_form(
                input.client@,
            ),
            Ok(GuestStep::Answer(output)) => {
                &&& !confirmed(input.confirm)
                &&& output.client@ == mac_form(input.client@)
                &&& !output.applied
                &&& !output.verifiable
                &&& texts(output.warnings@) == seq![guest_warning()]
            },
        },
{
    match guest_address(input.client.as_str()) {
        Ok(address) => if is_confirmed(input.confirm) {
            Ok(GuestStep::Authorize(address))
        } else {
            Ok(GuestStep::Answer(guests_authorize(address, false)))
        },
        Err(error) => Err(error),
    }
}

/// A client as the integration API lists it.
pub struct KnownClient {
    pub id: String,
    pub mac_address: Option<String>,
}

/// The test for a client by comparable address.
pub open spec fn known_at(mac: Seq<char>) -> spec_fn(KnownClient) -> bool {
    |client: KnownClient| opt_mac_form(opt_string(client.mac_address)) == Some(mac)
}

/// The refusal where no client has an address: a scan that stopped short does
/// not claim that there is none.
pub open spec fn unknown_client_message(truncated: bool) -> Seq<char> {
    if truncated {
        "no client with that address was found, and the client scan stopped at its ceiling, so the address may exist beyond it; nothing was authorized"@
    } else {
        "no client with that address is known to the controller; clients.search lists them"@
    }
}

/// The controller's id for the client at one comparable address.
pub fn integration_client_id(clients: &Vec<KnownClient>, truncated: bool, mac: &str) -> (result: Result<
    String,
    ToolError,
>)
    ensures
        match first_where(clients@, known_at(mac@)) {
            Some(client) => result == Ok::<String, ToolError>(client.id),
            None => result is Err && is_invalid_params(
                result->Err_0,
                unknown_client_message(truncated),
            ),
        },
{
    let test = |client: &KnownClient| -> (answer: bool)
        ensures
            answer == (opt_mac_form(opt_string(client.mac_address)) == Some(mac@))
    {
        match normalize_option(&client.mac_address) {
            Some(form) => same_text(form.as_str(), mac),
            None => false,
        }
    };
    match find(clients, test, Ghost(known_at(mac@))) {
        Some(at) => Ok(clients[at].id.clone()),
        None => Err(
            if truncated {
                invalid_params(
                    "no client with that address was found, and the client scan stopped at its ceiling, so the address may exist beyond it; nothing was authorized",
                )
            } else {
                invalid_params(
                    "no client with that address is known to the controller; clients.search lists them",
                )
            },
        ),
    }
}

// ---------------------------------------------------------------------------
// Devices
// ---------------------------------------------------------------------------

/// What can be done to one adopted device.
#[derive(Debug, Clone, Copy, PartialEq, Eq, Structural)]
pub enum DeviceControl {
    /// Reboot the device. It is offline for a minute or two.
    Restart,
    /// Flash the locate LED.
    Locate,
    /// Stop flashing the locate LED.
    EndLocate,
    /// Power-cycle one switch port, which reboots whatever it powers.
    PortCycle,
}

impl DeviceControl {
    /// The word for an action.
    pub open spec fn name(self) -> &'static str {
        match self {
            DeviceControl::Restart => "restart",
            DeviceControl::Locate => "locate",
            DeviceControl::EndLocate => "endLocate",
            DeviceControl::PortCycle => "portCycle",
        }
    }

    /// The word for an action.
    pub fn word(self) -> (word: &'static str)
        ensures
            word == self.name(),
    {
        match self {
            DeviceControl::Restart => "restart",
            DeviceControl::Locate => "locate",
            DeviceControl::EndLocate => "endLocate",
            DeviceControl::PortCycle => "portCycle",
        }
    }

    /// The consequence of an action.
    pub open spec fn consequence(self) -> Seq<char> {
        match self {
            DeviceControl::Restart => "restarting takes the device offline for a minute or more, with everything it serves"@,
            DeviceControl::PortCycle => "power-cycling a port reboots whatever it powers, and drops any device connected to it"@,
            DeviceControl::Locate => "the device flashes its locate LED until locating is ended"@,
            DeviceControl::EndLocate => "the device stops flashing its locate LED"@,
        }
    }
}

/// Consequences an operator should see before confirming a device action.
pub fn device_control_warnings(action: DeviceControl) -> (warnings: Vec<String>)
    ensures
        texts(warnings@) == seq![action.consequence()],
{
    let warning: &'static str = match action {
        DeviceControl::Restart => "restarting takes the device offline for a minute or more, with everything it serves",
        DeviceControl::PortCycle => "power-cycling a port reboots whatever it powers, and drops any device connected to it",
        DeviceControl::Locate => "the device flashes its locate LED until locating is ended",
        DeviceControl::EndLocate => "the device stops flashing its locate LED",
    };
    let mut warnings: Vec<String> = Vec::new();
    warnings.push(warning.to_owned());
    assert(texts(warnings@) =~= seq![action.consequence()]);
    warnings
}

/// The refusal of a port, where it is refused.
pub open spec fn port_refusal(action: DeviceControl, port: Option<u32>) -> Option<Seq<char>> {
    if action == DeviceControl::PortCycle && port is None {
        Some("portCycle requires the port to cycle; devices.status lists a device's ports"@)
    } else if action != DeviceControl::PortCycle && port is Some {
        Some("port applies only to portCycle; omit it or choose portCycle"@)
    } else {
        None
    }
}

/// The port a `portCycle` needs, refusing a port on any other action.
pub fn validated_port(action: DeviceControl, port: Option<u32>) -> (result: Result<
    Option<u32>,
    ToolError,
>)
    ensures
        result is Err <==> port_refusal(action, port) is Some,
        result matches Err(error) ==> is_invalid_params(error, port_refusal(action, port)->Some_0),
        result matches Ok(accepted) ==> accepted == port,
{
    match (action, port) {
        (DeviceControl::PortCycle, Some(port)) => Ok(Some(port)),
        (DeviceControl::PortCycle, None) => Err(
            invalid_params(
                "portCycle requires the port to cycle; devices.status lists a device's ports",
            ),
        ),
        (_, Some(_)) => Err(
            invalid_params("port applies only to portCycle; omit it or choose portCycle"),
        ),
        (_, None) => Ok(None),
    }
}

/// What a device action asks for.
pub struct DevicesControlInput {
    pub device: String,
    pub action: DeviceControl,
    pub port: Option<u32>,
    pub confirm: Option<bool>,
}

/// What a device action answers.
pub struct DevicesControlOutput {
    pub device: String,
    pub name: Option<String>,
    pub action: &'static str,
    pub port: Option<u32>,
    pub applied: bool,
    pub state_before: Option<String>,
    pub state_after: Option<String>,
    pub warnings: Vec<String>,
}

/// What is sent for a device action.
pub enum DeviceCommand {
    /// Nothing: the action is only described.
    Preview,
    /// Restart the device.
    Restart,
    /// Power-cycle one of its ports.
    PowerCyclePort(u32),
    /// Switch the locate LED at this address.
    Locate { mac: String, flashing: bool },
}

/// Whether a call was confirmed.
pub open spec fn confirmed(confirm: Option<bool>) -> bool {
    confirm == Some(true)
}

/// Whether a call was confirmed.
pub fn is_confirmed(confirm: Option<bool>) -> (result: bool)
    ensures
        result == confirmed(confirm),
{
    match confirm {
        Some(flag) => flag,
        None => false,
    }
}

/// The refusal of a locate on a device without an address.
pub open spec fn no_address_message() -> Seq<char> {
    "the controller reports no hardware address for this device, so its locate LED cannot be addressed"@
}

/// What is sent for a device action, once the device was read. Nothing is
/// sent unless the call was confirmed.
pub fn device_command(input: &DevicesControlInput, detail: &DeviceDetail) -> (result: Result<
    DeviceCommand,
    ToolError,
>)
    ensures
        ({
            let refusal = port_refusal(input.action, input.port);
            if refusal is Some {
                result is Err && is_invalid_params(result->Err_0, refusal->Some_0)
            } else if !confirmed(input.confirm) {
                result == Ok::<DeviceCommand, ToolError>(DeviceCommand::Preview)
            } else {
                match input.action {
                    DeviceControl::Restart => result == Ok::<DeviceCommand, ToolError>(
                        DeviceCommand::Restart,
                    ),
                    DeviceControl::PortCycle => result == Ok::<DeviceCommand, ToolError>(
                        DeviceCommand::PowerCyclePort(input.port->Some_0),
                    ),
                    _ => match detail.mac_address {
                        Some(mac) => result == Ok::<DeviceCommand, ToolError>(
                            DeviceCommand::Locate {
                                mac,
                                flashing: input.action == DeviceControl::Locate,
                            },
                        ),
                        None => result is Err && is_invalid_params(
                            result->Err_0,
                            no_address_message(),
                        ),
                    },
                }
            }
        }),
{
    let port = match validated_port(input.action, input.port) {
        Ok(port) => port,
        Err(error) => {
            return Err(error);
        },
    };
    if !is_confirmed(input.confirm) {
        return Ok(DeviceCommand::Preview);
    }
    match (input.action, port) {
        (DeviceControl::Restart, _) => Ok(DeviceCommand::Restart),
        (DeviceControl::PortCycle, Some(port)) => Ok(DeviceCommand::PowerCyclePort(port)),
        (DeviceControl::PortCycle, None) => Err(
            invalid_params(
                "portCycle requires the port to cycle; devices.status lists a device's ports",
            ),
        ),
        (DeviceControl::Locate, _) | (DeviceControl::EndLocate, _) => match &detail.mac_address {
            Some(mac) => Ok(
                DeviceCommand::Locate {
                    mac: mac.clone(),
                    flashing: input.action == DeviceControl::Locate,
                },
            ),
            None => Err(
                invalid_params(
                    "the controller reports no hardware address for this device, so its locate LED cannot be addressed",
                ),
            ),
        },
    }
}

/// What a device action answers: the state before it, and where it was
/// applied the state read afterwards.
pub fn devices_control(input: DevicesControlInput, before: DeviceDetail, after: Option<DeviceDetail>) -> (output:
    DevicesControlOutput)
    ensures
        output.device == input.device,
        output.name == (match after {
            Some(detail) => detail.name,
            None => before.name,
        }),
        output.action == input.action.name(),
        output.port == input.port,
        output.applied == after is Some,
        output.state_before == before.state,
        output.state_after == (match after {
            Some(detail) => detail.state,
            None => None,
        }),
        texts(output.warnings@) == seq![input.action.consequence()],
{
    let warnings = device_control_warnings(input.action);
    let applied = after.is_some();
    let (name, state_after): (Option<String>, Option<String>) = match after {
        Some(detail) => (detail.name, detail.state),
        None => (before.name, None),
    };
    DevicesControlOutput {
        device: input.device,
        name,
        action: input.action.word(),
        port: input.port,
        applied,
        state_before: before.state,
        state_after,
        warnings,
    }
}

// ---------------------------------------------------------------------------
// Clients
// ---------------------------------------------------------------------------

/// What can be done to one client.
#[derive(Debug, Clone, Copy, PartialEq, Eq, Structural)]
pub enum ClientControl {
    /// Deny the client network access until it is unblocked.
    Block,
    /// Lift a block.
    Unblock,
    /// Disconnect the client; most rejoin on their own.
    Reconnect,
}

impl ClientControl {
    /// The word for an action.
    pub open spec fn name(self) -> &'static str {
        match self {
            ClientControl::Block => "block",
            ClientControl::Unblock => "unblock",
            ClientControl::Reconnect => "reconnect",
        }
    }

    /// The word for an action.
    pub fn word(self) -> (word: &'static str)
        ensures
            word == self.name(),
    {
        match self {
            ClientControl::Block => "block",
            ClientControl::Unblock => "unblock",
            ClientControl::Reconnect => "reconnect",
        }
    }

    /// The consequence of an action.
    pub open spec fn consequence(self) -> Seq<char> {
        match self {
            ClientControl::Block => "blocking denies this client network access until it is unblocked"@,
            ClientControl::Unblock => "unblocking lifts a block on this client, if one is in place"@,
            ClientControl::Reconnect => "reconnecting disconnects the client; most rejoin on their own within seconds"@,
        }
    }
}

/// The warnings of a client action.
pub open spec fn client_warnings(action: ClientControl, connected: bool) -> Seq<Seq<char>> {
    if !connected && action == ClientControl::Reconnect {
        seq![
            action.consequence(),
            "this client is not connected, so there is nothing to disconnect"@,
        ]
    } else {
        seq![action.consequence()]
    }
}

/// Consequences an operator should see before confirming a client action.
///
/// Each states what the action does, not what the client's state will become:
/// the connected list cannot establish why a client is absent.
pub fn client_control_warnings(action: ClientControl, connected: bool) -> (warnings: Vec<String>)
    ensures
        texts(warnings@) == client_warnings(action, connected),
{
    let warning: &'static str = match action {
        ClientControl::Block => "blocking denies this client network access until it is unblocked",
        ClientControl::Unblock => "unblocking lifts a block on this client, if one is in place",
        ClientControl::Reconnect => "reconnecting disconnects the client; most rejoin on their own within seconds",
    };
    let mut warnings: Vec<String> = Vec::new();
    warnings.push(warning.to_owned());
    if !connected && action == ClientControl::Reconnect {
        warnings.push("this client is not connected, so there is nothing to disconnect".to_owned());
    }
    assert(texts(warnings@) =~= client_warnings(action, connected));
    warnings
}

/// What a client action answers.
pub struct ClientsControlOutput {
    pub client: String,
    pub action: &'static str,
    pub applied: bool,
    pub connected_before: bool,
    pub connected_after: Option<bool>,
    pub warnings: Vec<String>,
}

/// The comparable address of the client to act on. A name is not accepted: a
/// blocked client is absent from the connected list, so only the address
/// identifies it in every state.
pub fn client_address(client: &str) -> (result: Result<String, ToolError>)
    ensures
        result is Ok <==> names_one_client(mac_form(client@)),
        result matches Ok(address) ==> address@ == mac_form(client@),
        result matches Err(error) ==> is_invalid_params(error, client_address_message()),
{
    let address = normalize_mac(client);
    if !is_client_address(address.as_str()) {
        return Err(
            invalid_params(
                "client must be the unicast MAC address of one client, such as aa:bb:cc:dd:ee:ff, as clients.search reports it; a group or broadcast address names no client",
            ),
        );
    }
    Ok(address)
}

/// What a client action answers, from the connected list before it and, where
/// it was applied, the one read afterwards.
pub fn clients_control(
    address: String,
    action: ClientControl,
    before: &Vec<ActiveClient>,
    after: Option<&Vec<ActiveClient>>,
) -> (output: ClientsControlOutput)
    ensures
        output.client == address,
        output.action == action.name(),
        output.applied == after is Some,
        output.connected_before == connected_at(before@, address@),
        output.connected_after == (match after {
            Some(list) => Some(connected_at(list@, address@)),
            None => None,
        }),
        texts(output.warnings@) == client_warnings(action, connected_at(before@, address@)),
{
    let connected_before = client_is_connected(before, address.as_str());
    let warnings = client_control_warnings(action, connected_before);
    let connected_after: Option<bool> = match after {
        Some(list) => Some(client_is_connected(list, address.as_str())),
        None => None,
    };
    ClientsControlOutput {
        client: address,
        action: action.word(),
        applied: after.is_some(),
        connected_before,
        connected_after,
        warnings,
    }
}

/// A client action.
pub struct ClientsControlInput {
    pub client: String,
    pub action: ClientControl,
    pub confirm: Option<bool>,
}

/// What follows once the connected list was read.
pub enum ClientStep {
    /// Answer with this; nothing is sent.
    Answer(ClientsControlOutput),
    /// Perform the action, then read the connected list again.
    Send(ClientControl),
}

/// What follows once the connected list was read: nothing is sent unless the
/// call was confirmed.
pub fn client_step(input: &ClientsControlInput, address: String, before: &Vec<ActiveClient>) -> (step:
    ClientStep)
    ensures
        match step {
            ClientStep::Send(action) => confirmed(input.confirm) && action == input.action,
            ClientStep::Answer(output) => {
                &&& !confirmed(input.confirm)
                &&& output.client == address
                &&& output.action == input.action.name()
                &&& !output.applied
                &&& output.connected_before == connected_at(before@, address@)
                &&& output.connected_after is None
                &&& texts(output.warnings@) == client_warnings(
                    input.action,
                    connected_at(before@, address@),
                )
            },
        },
{
    if is_confirmed(input.confirm) {
        return ClientStep::Send(input.action);
    }
    ClientStep::Answer(clients_control(address, input.action, before, None))
}

} // verus!
