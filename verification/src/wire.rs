//! The messages of the protocol as plain values: what the compositor sends,
//! what this client sends, and what a read or a decode can come to.

use vstd::prelude::*;
use crate::interface::InterfaceName;

verus! {

/// The side a client takes in a connection.
#[derive(Clone, Copy, Debug, PartialEq, Eq, Structural)]
pub enum ContextRole {
    /// The client receives input from the compositor.
    Receiver,
    /// The client sends input to the compositor.
    Sender,
}

/// Why the compositor ended a connection.
#[derive(Clone, Copy, Debug, PartialEq, Eq, Structural)]
pub enum DisconnectReason {
    /// The client was disconnected on purpose.
    Disconnected,
    /// An error on the compositor's side.
    Error,
    /// The client asked for a role that it may not take.
    Mode,
    /// The client broke the protocol.
    Protocol,
    /// The client sent a value that is not valid.
    Value,
    /// The transport failed.
    Transport,
}

/// The kind of a device.
#[derive(Clone, Copy, Debug, PartialEq, Eq, Structural)]
pub enum DeviceType {
    Virtual,
    Physical,
}

/// The logical state of a button.
#[derive(Clone, Copy, Debug, PartialEq, Eq, Structural)]
pub enum ButtonState {
    Released,
    Press,
}

/// An input event that a receiving client is handed. Motion and buttons keep
/// their values; of the other interfaces only the kind is kept.
#[derive(Clone, Copy, Debug, PartialEq, Eq, Structural)]
pub enum InputEvent {
    Motion { dx: i64, dy: i64 },
    MotionAbsolute { x: i64, y: i64 },
    Button { button: u32, state: ButtonState },
    Scroll,
    Key,
    Touch,
    Text,
}

/// One decoded message from the compositor. Objects are named by their ids.
#[derive(Debug)]
pub enum WireEvent {
    /// The compositor's handshake version.
    HandshakeVersion { version: u32 },
    /// The compositor agrees to an interface, at a version.
    InterfaceVersion { name: String, version: u32 },
    /// The handshake is over; the connection object exists from now on.
    Connection { connection: u64, serial: u32 },
    /// The compositor ends the connection.
    Disconnected { last_serial: u32, reason: DisconnectReason },
    /// A new seat; its description follows.
    SeatAnnounced { seat: u64 },
    /// The compositor named an object id that it does not know.
    InvalidObject { last_serial: u32, invalid_id: u64 },
    /// The compositor asks for a sign of life.
    Ping { ping: u64 },
    /// A request that the client asked to be told about is done.
    CallbackDone { callback: u64, data: u64 },
    SeatName { seat: u64, name: String },
    /// The seat offers the capability of `interface`, bound by `mask`.
    SeatCapability { seat: u64, mask: u64, interface: String },
    SeatDone { seat: u64 },
    /// A new device under the seat; its description follows.
    SeatDevice { seat: u64, device: u64 },
    SeatDestroyed { seat: u64, serial: u32 },
    DeviceName { device: u64, name: String },
    DeviceKind { device: u64, device_type: DeviceType },
    DeviceDimensions { device: u64, width: u32, height: u32 },
    DeviceRegion { device: u64, x: u32, y: u32, width: u32, height: u32, scale: u32 },
    /// The id that the next region of the device is mapped by.
    DeviceRegionMappingId { device: u64 },
    /// The device has the capability of `interface`, through `object`.
    DeviceInterface { device: u64, object: u64, interface: String },
    DeviceDone { device: u64 },
    DeviceResumed { device: u64, serial: u32 },
    DevicePaused { device: u64, serial: u32 },
    DeviceStartEmulating { device: u64, serial: u32, sequence: u32 },
    DeviceStopEmulating { device: u64, serial: u32 },
    DeviceFrame { device: u64, serial: u32, timestamp: u64 },
    DeviceDestroyed { device: u64, serial: u32 },
    /// The keymap of a keyboard that is being described.
    Keymap { object: u64 },
    /// The capability object `object` is gone.
    InterfaceDestroyed { object: u64, serial: u32 },
    /// Input on the capability object `object`.
    Input { object: u64, event: InputEvent },
}

/// What the codec hands out for one buffered message.
#[derive(Debug)]
pub enum PendingEvent {
    /// A decoded message.
    Request(WireEvent),
    /// The message could not be decoded; the text says why.
    ParseError(String),
    /// The message names an object that does not exist.
    InvalidObject(u64),
}

/// How a read on the transport ended.
#[derive(Clone, Copy, Debug, PartialEq, Eq, Structural)]
pub enum ReadOutcome {
    /// So many bytes were added to the read buffer.
    Data(usize),
    /// Nothing to read for now.
    WouldBlock,
    /// The transport failed.
    Failed,
}

/// One message from this client to the compositor.
#[derive(Debug)]
pub enum Request {
    HandshakeVersion { version: u32 },
    Name { name: String },
    ContextType { role: ContextRole },
    InterfaceVersion { interface: InterfaceName, version: u32 },
    Finish,
    /// The answer to a ping.
    Pong { ping: u64 },
    /// Binds the capabilities in `mask` of a seat.
    Bind { seat: u64, mask: u64 },
    StartEmulating { device: u64, serial: u32, sequence: u32 },
    StopEmulating { device: u64, serial: u32 },
    Frame { device: u64, serial: u32, timestamp: u64 },
    MotionAbsolute { object: u64, x: i64, y: i64 },
    Button { object: u64, button: u32, state: ButtonState },
}

/// What a [`Request`] is, as a value.
pub enum RequestView {
    HandshakeVersion { version: u32 },
    Name { name: Seq<char> },
    ContextType { role: ContextRole },
    InterfaceVersion { interface: InterfaceName, version: u32 },
    Finish,
    Pong { ping: u64 },
    Bind { seat: u64, mask: u64 },
    StartEmulating { device: u64, serial: u32, sequence: u32 },
    StopEmulating { device: u64, serial: u32 },
    Frame { device: u64, serial: u32, timestamp: u64 },
    MotionAbsolute { object: u64, x: i64, y: i64 },
    Button { object: u64, button: u32, state: ButtonState },
}

impl View for Request {
    type V = RequestView;

    open spec fn view(&self) -> RequestView {
        match *self {
            Request::HandshakeVersion { version } => RequestView::HandshakeVersion { version },
            Request::Name { name } => RequestView::Name { name: name@ },
            Request::ContextType { role } => RequestView::ContextType { role },
            Request::InterfaceVersion { interface, version } => RequestView::InterfaceVersion {
                interface,
                version,
            },
            Request::Finish => RequestView::Finish,
            Request::Pong { ping } => RequestView::Pong { ping },
            Request::Bind { seat, mask } => RequestView::Bind { seat, mask },
            Request::StartEmulating { device, serial, sequence } => RequestView::StartEmulating {
                device,
                serial,
                sequence,
            },
            Request::StopEmulating { device, serial } => RequestView::StopEmulating {
                device,
                serial,
            },
            Request::Frame { device, serial, timestamp } => RequestView::Frame {
                device,
                serial,
                timestamp,
            },
            Request::MotionAbsolute { object, x, y } => RequestView::MotionAbsolute { object, x, y },
            Request::Button { object, button, state } => RequestView::Button {
                object,
                button,
                state,
            },
        }
    }
}

/// The values of a list of requests, in order.
pub open spec fn request_views(requests: Seq<Request>) -> Seq<RequestView> {
    requests.map_values(|r: Request| r@)
}

} // verus!
